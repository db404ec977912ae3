//! Rule checking for typed application state carried by transactions.
//!
//! An application tag selects a family of rules (fungible tokens,
//! non-fungible tokens, state-machine contracts); each family reads the
//! state stored under the tag in a transaction's inputs and outputs and
//! decides whether the transaction may be accepted.

pub mod data;
pub mod report;
pub mod token;
pub mod nft;
pub mod escrow;
pub mod bounty;
pub mod dispatch;
pub mod mirror;
pub mod sample;
