//! The structured outcome of a check: the verdict, the family of rules that
//! was applied, what that family computed, and the reasons for a rejection.
use vstd::prelude::*;
use vstd::string::*;
use crate::mirror::{digit_text, hex_digit, hex_encode, hex_of};

verus! {

/// A family of rules, selected by the namespace of an application tag.
#[derive(Debug, Clone, Copy, PartialEq, Eq)]
pub enum Family {
    /// `token:` — conservation of a fungible amount.
    Token,
    /// `nft:` — unique, authorized identifiers.
    Nft,
    /// `escrow:` — the escrow state machine.
    Escrow,
    /// `bounty:` — the bounty state machine.
    Bounty,
    /// `bollar:` — conservation of a fungible amount, reported apart.
    Bollar,
}

/// The label under which a family is reported.
pub open spec fn family_label(f: Family) -> Seq<char> {
    match f {
        Family::Token => "token"@,
        Family::Nft => "nft"@,
        Family::Escrow => "escrow"@,
        Family::Bounty => "bounty"@,
        Family::Bollar => "bollar"@,
    }
}

impl Family {
    /// The label under which this family is reported.
    pub fn label(&self) -> (r: &'static str)
        ensures
            r@ == family_label(*self),
    {
        match self {
            Family::Token => "token",
            Family::Nft => "nft",
            Family::Escrow => "escrow",
            Family::Bounty => "bounty",
            Family::Bollar => "bollar",
        }
    }
}

/// Why a transaction was rejected.
#[derive(Debug, Clone, PartialEq, Eq)]
pub enum Rejection {
    /// The tag names no known family.
    UnknownApp(String),
    /// The amounts coming in and going out differ.
    ConservationFailed { input_sum: u128, output_sum: u128 },
    /// A sum of amounts does not fit in 64 bits.
    AmountOverflow { input_sum: u128, output_sum: u128 },
    /// The authorization is an empty byte string.
    EmptyAuthorization,
    /// An identifier occurs again among the outputs.
    DuplicateNft(Vec<u8>),
    /// A new identifier appears without an authorization.
    UnauthorizedMint(Vec<u8>),
    /// The state pair is not in the family's transition table.
    InvalidTransition { family: Family, current: String, next: String },
}

/// The outcome of a check, with what the family computed.
#[derive(Debug, Clone, PartialEq, Eq)]
pub struct CheckResult {
    /// Whether the transaction is accepted; true exactly when `errors` is
    /// empty.
    pub valid: bool,
    /// The family applied; `None` when the tag names none.
    pub family: Option<Family>,
    /// Fungible families: the sum of the input amounts.
    pub input_sum: Option<u128>,
    /// Fungible families: the sum of the output amounts.
    pub output_sum: Option<u128>,
    /// Fungible families: whether supply is created.
    pub is_mint: Option<bool>,
    /// Fungible families: whether supply is destroyed.
    pub is_burn: Option<bool>,
    /// State machines: the name of the current state.
    pub current_state: Option<String>,
    /// State machines: the name of the next state.
    pub next_state: Option<String>,
    /// State machines: whether the pair of states is in the table.
    pub state_transition_valid: Option<bool>,
    /// Non-fungible family: the identifiers of the outputs, in order.
    pub nft_ids: Option<Vec<Vec<u8>>>,
    /// Non-fungible family: each repeated occurrence of an identifier.
    pub duplicate_nfts: Option<Vec<Vec<u8>>>,
    /// The reasons for a rejection, in the order they were found.
    pub errors: Vec<Rejection>,
}

impl CheckResult {
    /// A result for `family` with no family-specific fields and no errors.
    pub fn blank(family: Option<Family>) -> (r: CheckResult)
        ensures
            r.valid,
            r.family == family,
            r.input_sum is None,
            r.output_sum is None,
            r.is_mint is None,
            r.is_burn is None,
            r.current_state is None,
            r.next_state is None,
            r.state_transition_valid is None,
            r.nft_ids is None,
            r.duplicate_nfts is None,
            r.errors@.len() == 0,
    {
        CheckResult {
            valid: true,
            family,
            input_sum: None,
            output_sum: None,
            is_mint: None,
            is_burn: None,
            current_state: None,
            next_state: None,
            state_transition_valid: None,
            nft_ids: None,
            duplicate_nfts: None,
            errors: Vec::new(),
        }
    }
}

/// `e` rejects the move from the state named `current` to the state named
/// `next` in `family`.
pub open spec fn is_invalid_transition(
    e: Rejection,
    family: Family,
    current: Seq<char>,
    next: Seq<char>,
) -> bool {
    match e {
        Rejection::InvalidTransition { family: f, current: c, next: n } => {
            f == family && c@ == current && n@ == next
        },
        _ => false,
    }
}

/// The byte strings of a list, by content.
pub open spec fn byte_views(l: Seq<Vec<u8>>) -> Seq<Seq<u8>> {
    l.map_values(|v: Vec<u8>| v@)
}

/// The decimal digits of a number, most significant first.
pub open spec fn decimal(n: nat) -> Seq<char>
    decreases n,
{
    if n < 10 {
        seq![hex_digit(n as int)]
    } else {
        decimal(n / 10).push(hex_digit((n % 10) as int))
    }
}

/// The decimal text of a number.
pub fn decimal_text(n: u128) -> (r: String)
    ensures
        r@ == decimal(n as nat),
    decreases n,
{
    if n < 10 {
        digit_text(n as u8).to_owned()
    } else {
        let mut r = decimal_text(n / 10);
        r.append(digit_text((n % 10) as u8));
        r
    }
}

/// The text that explains a rejection.
pub open spec fn message_of(e: Rejection) -> Seq<char> {
    match e {
        Rejection::UnknownApp(tag) => "Unknown app type: "@ + tag@,
        Rejection::ConservationFailed { input_sum, output_sum } => "Token conservation failed: input="@
            + decimal(input_sum as nat) + " != output="@ + decimal(output_sum as nat),
        Rejection::AmountOverflow { input_sum, output_sum } => "Token amount overflow: input="@
            + decimal(input_sum as nat) + " output="@ + decimal(output_sum as nat),
        Rejection::EmptyAuthorization => "Empty authorization data"@,
        Rejection::DuplicateNft(id) => "Duplicate NFT in outputs: "@ + hex_of(id@),
        Rejection::UnauthorizedMint(id) => "NFT mint without authorization: "@ + hex_of(id@),
        Rejection::InvalidTransition { family, current, next } => "Invalid "@ + family_label(family)
            + " transition: "@ + current@ + " -> "@ + next@,
    }
}

impl CheckResult {
    /// The text of each reason for a rejection, in order.
    pub fn messages(&self) -> (r: Vec<String>)
        ensures
            r@.len() == self.errors@.len(),
            forall|i: int| 0 <= i < r@.len() ==> (#[trigger] r@[i])@ == message_of(self.errors@[i]),
    {
        let mut r: Vec<String> = Vec::new();
        let mut i: usize = 0;
        while i < self.errors.len()
            invariant
                i <= self.errors@.len(),
                r@.len() == i,
                forall|j: int| 0 <= j < i ==> (#[trigger] r@[j])@ == message_of(self.errors@[j]),
            decreases self.errors@.len() - i,
        {
            r.push(self.errors[i].message());
            i += 1;
        }
        r
    }
}

impl Rejection {
    /// The text that explains this rejection.
    pub fn message(&self) -> (r: String)
        ensures
            r@ == message_of(*self),
    {
        match self {
            Rejection::UnknownApp(tag) => {
                let mut r = "Unknown app type: ".to_owned();
                r.append(tag.as_str());
                r
            },
            Rejection::ConservationFailed { input_sum, output_sum } => {
                let mut r = "Token conservation failed: input=".to_owned();
                r.append(decimal_text(*input_sum).as_str());
                r.append(" != output=");
                r.append(decimal_text(*output_sum).as_str());
                r
            },
            Rejection::AmountOverflow { input_sum, output_sum } => {
                let mut r = "Token amount overflow: input=".to_owned();
                r.append(decimal_text(*input_sum).as_str());
                r.append(" output=");
                r.append(decimal_text(*output_sum).as_str());
                r
            },
            Rejection::EmptyAuthorization => "Empty authorization data".to_owned(),
            Rejection::DuplicateNft(id) => {
                let mut r = "Duplicate NFT in outputs: ".to_owned();
                r.append(hex_encode(id.as_slice()).as_str());
                r
            },
            Rejection::UnauthorizedMint(id) => {
                let mut r = "NFT mint without authorization: ".to_owned();
                r.append(hex_encode(id.as_slice()).as_str());
                r
            },
            Rejection::InvalidTransition { family, current, next } => {
                let mut r = "Invalid ".to_owned();
                r.append(family.label());
                r.append(" transition: ");
                r.append(current.as_str());
                r.append(" -> ");
                r.append(next.as_str());
                r
            },
        }
    }
}

} // verus!
