//! Ready-made transactions for trying out the checks.
use vstd::prelude::*;
use crate::data::{App, CharmState, Data, Transaction, TxInput, TxOutput, UtxoRef};

verus! {

/// The value that every built output carries, in the smallest unit.
pub const DUST_VALUE: u64 = 546;

/// The state holds `value` under `tag` and nothing else.
pub open spec fn holds_only(state: Option<CharmState>, tag: Seq<char>, value: u64) -> bool {
    &&& state matches Some(s)
    &&& s.wf()
    &&& s@ == Map::<Seq<char>, Data>::empty().insert(tag, Data::U64(value))
}

/// A state that holds `value` under `tag` and nothing else.
fn single_state(tag: &str, value: u64) -> (r: CharmState)
    ensures
        holds_only(Some(r), tag@, value),
{
    CharmState::new().with_app(tag, Data::U64(value))
}

/// The script that every built output carries.
fn witness_script() -> (r: Vec<u8>)
    ensures
        r@ == seq![0x00u8, 0x14u8],
{
    let mut r: Vec<u8> = Vec::new();
    r.push(0x00);
    r.push(0x14);
    r
}

/// An application with the given tag and key hash, and a transaction whose
/// `i`-th input holds `input_amounts[i]` and whose `i`-th output holds
/// `output_amounts[i]` under that tag.
///
/// All ids are zero; input `i` spends output `i`; output `i` has index `i`,
/// the dust value, and the script `00 14`.
pub fn build_token_tx(
    app_tag: &str,
    vk_hash: [u8; 32],
    input_amounts: &Vec<u64>,
    output_amounts: &Vec<u64>,
) -> (r: (App, Transaction))
    requires
        input_amounts@.len() <= u32::MAX,
        output_amounts@.len() <= u32::MAX,
    ensures
        r.0.tag@ == app_tag@,
        r.0.vk_hash@ == vk_hash@,
        r.0.params is Empty,
        r.1.txid@ == seq![0u8; 32],
        r.1.spell is None,
        r.1.inputs@.len() == input_amounts@.len(),
        forall|i: int|
            0 <= i < input_amounts@.len() ==> {
                &&& (#[trigger] r.1.inputs@[i]).utxo_ref.txid@ == seq![0u8; 32]
                &&& r.1.inputs@[i].utxo_ref.vout == i
                &&& holds_only(r.1.inputs@[i].charm_state, app_tag@, input_amounts@[i])
            },
        r.1.outputs@.len() == output_amounts@.len(),
        forall|i: int|
            0 <= i < output_amounts@.len() ==> {
                &&& (#[trigger] r.1.outputs@[i]).index == i
                &&& r.1.outputs@[i].value == DUST_VALUE
                &&& r.1.outputs@[i].script_pubkey@ == seq![0x00u8, 0x14u8]
                &&& holds_only(r.1.outputs@[i].charm_state, app_tag@, output_amounts@[i])
            },
{
    let app = App::new(app_tag, vk_hash);
    let mut tx = Transaction::new([0u8; 32]);
    let mut i: usize = 0;
    while i < input_amounts.len()
        invariant
            input_amounts@.len() <= u32::MAX,
            i <= input_amounts@.len(),
            tx.txid@ == seq![0u8; 32],
            tx.spell is None,
            tx.outputs@.len() == 0,
            tx.inputs@.len() == i,
            forall|j: int|
                0 <= j < i ==> {
                    &&& (#[trigger] tx.inputs@[j]).utxo_ref.txid@ == seq![0u8; 32]
                    &&& tx.inputs@[j].utxo_ref.vout == j
                    &&& holds_only(tx.inputs@[j].charm_state, app_tag@, input_amounts@[j])
                },
        decreases input_amounts@.len() - i,
    {
        let state = single_state(app_tag, input_amounts[i]);
        tx.add_input(
            TxInput { utxo_ref: UtxoRef { txid: [0u8; 32], vout: i as u32 }, charm_state: Some(state) },
        );
        i += 1;
    }
    let mut k: usize = 0;
    while k < output_amounts.len()
        invariant
            output_amounts@.len() <= u32::MAX,
            k <= output_amounts@.len(),
            tx.txid@ == seq![0u8; 32],
            tx.spell is None,
            tx.inputs@.len() == input_amounts@.len(),
            forall|j: int|
                0 <= j < input_amounts@.len() ==> {
                    &&& (#[trigger] tx.inputs@[j]).utxo_ref.txid@ == seq![0u8; 32]
                    &&& tx.inputs@[j].utxo_ref.vout == j
                    &&& holds_only(tx.inputs@[j].charm_state, app_tag@, input_amounts@[j])
                },
            tx.outputs@.len() == k,
            forall|j: int|
                0 <= j < k ==> {
                    &&& (#[trigger] tx.outputs@[j]).index == j
                    &&& tx.outputs@[j].value == DUST_VALUE
                    &&& tx.outputs@[j].script_pubkey@ == seq![0x00u8, 0x14u8]
                    &&& holds_only(tx.outputs@[j].charm_state, app_tag@, output_amounts@[j])
                },
        decreases output_amounts@.len() - k,
    {
        let state = single_state(app_tag, output_amounts[k]);
        tx.add_output(
            TxOutput {
                index: k as u32,
                value: DUST_VALUE,
                script_pubkey: witness_script(),
                charm_state: Some(state),
            },
        );
        k += 1;
    }
    (app, tx)
}

/// An escrow application with the given tag and a zero key hash, and a
/// transaction that moves it from the state encoded by `current_state` (no
/// input at all when there is none) to the state encoded by `next_state`,
/// with one output of value `amount`.
pub fn build_escrow_tx(app_tag: &str, current_state: Option<u32>, next_state: u32, amount: u64) -> (r: (
    App,
    Transaction,
))
    ensures
        r.0.tag@ == app_tag@,
        r.0.vk_hash@ == seq![0u8; 32],
        r.0.params is Empty,
        r.1.txid@ == seq![0u8; 32],
        r.1.spell is None,
        match current_state {
            Some(s) => {
                &&& r.1.inputs@.len() == 1
                &&& r.1.inputs@[0].utxo_ref.txid@ == seq![0u8; 32]
                &&& r.1.inputs@[0].utxo_ref.vout == 0
                &&& holds_only(r.1.inputs@[0].charm_state, app_tag@, s as u64)
            },
            None => r.1.inputs@.len() == 0,
        },
        r.1.outputs@.len() == 1,
        r.1.outputs@[0].index == 0,
        r.1.outputs@[0].value == amount,
        r.1.outputs@[0].script_pubkey@ == seq![0x00u8, 0x14u8],
        holds_only(r.1.outputs@[0].charm_state, app_tag@, next_state as u64),
{
    let app = App::new(app_tag, [0u8; 32]);
    let mut tx = Transaction::new([0u8; 32]);
    if let Some(s) = current_state {
        let state = single_state(app_tag, s as u64);
        tx.add_input(
            TxInput { utxo_ref: UtxoRef { txid: [0u8; 32], vout: 0 }, charm_state: Some(state) },
        );
    }
    let state = single_state(app_tag, next_state as u64);
    tx.add_output(
        TxOutput { index: 0, value: amount, script_pubkey: witness_script(), charm_state: Some(state) },
    );
    (app, tx)
}

} // verus!
