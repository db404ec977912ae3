//! Fungible tokens: the amount under a tag is conserved from inputs to
//! outputs.
use vstd::prelude::*;
use crate::data::{input_values, output_values, tagged, tagged_value, App, Data, Transaction, TxOutput};
use crate::report::{CheckResult, Family, Rejection};

verus! {

/// The amount that a tagged value contributes: the integer of a `U64`
/// value; nothing for a missing entry or another variant.
pub open spec fn amount(v: Option<Data>) -> nat {
    match v {
        Some(Data::U64(n)) => n as nat,
        _ => 0,
    }
}

/// The sum of the amounts of a sequence of tagged values.
pub open spec fn total(vals: Seq<Option<Data>>) -> nat
    decreases vals.len(),
{
    if vals.len() == 0 {
        0
    } else {
        total(vals.drop_last()) + amount(vals.last())
    }
}

/// The sum of the amounts that the inputs hold under `tag`.
pub open spec fn input_sum(tx: Transaction, tag: Seq<char>) -> nat {
    total(input_values(tx, tag))
}

/// The sum of the amounts that the outputs hold under `tag`.
pub open spec fn output_sum(tx: Transaction, tag: Seq<char>) -> nat {
    total(output_values(tx, tag))
}

/// The largest amount.
pub open spec fn amount_max() -> nat {
    0xFFFF_FFFF_FFFF_FFFFnat
}

/// An authorization that is a `Bytes` value must not be empty; any other
/// authorization sets no constraint.
pub open spec fn authorization_ok(x: Data) -> bool {
    match x {
        Data::Bytes(b) => b@.len() > 0,
        _ => true,
    }
}

/// A token transfer is accepted when both sums fit in 64 bits, they are
/// equal, and the authorization is acceptable.
///
/// A mint is not exempt: creating supply fails conservation here, and must
/// be authorized by a separate check before this one is asked.
pub open spec fn token_accepts(tx: Transaction, tag: Seq<char>, x: Data) -> bool {
    &&& input_sum(tx, tag) == output_sum(tx, tag)
    &&& input_sum(tx, tag) <= amount_max()
    &&& authorization_ok(x)
}

/// New supply: nothing comes in and something goes out.
pub open spec fn mint_of(input_sum: nat, output_sum: nat) -> bool {
    input_sum == 0 && output_sum > 0
}

/// Destroyed supply: more comes in than goes out.
pub open spec fn burn_of(input_sum: nat, output_sum: nat) -> bool {
    input_sum > output_sum
}

/// The exact sum of the amounts that the inputs hold under `tag`.
pub fn input_total(tx: &Transaction, tag: &str) -> (r: u128)
    ensures
        r == input_sum(*tx, tag@),
{
    let ghost vals = input_values(*tx, tag@);
    let mut sum: u128 = 0;
    let mut i: usize = 0;
    while i < tx.inputs.len()
        invariant
            vals == input_values(*tx, tag@),
            i <= tx.inputs@.len(),
            sum == total(vals.subrange(0, i as int)),
            sum <= i * amount_max(),
        decreases tx.inputs@.len() - i,
    {
        let add: u64 = match tagged(&tx.inputs[i].charm_state, tag) {
            Some(Data::U64(n)) => *n,
            _ => 0,
        };
        proof {
            assert(vals.subrange(0, i + 1).drop_last() =~= vals.subrange(0, i as int));
            assert(add == amount(vals[i as int]));
            assert(sum + add <= (i + 1) * amount_max()) by (nonlinear_arith)
                requires
                    sum <= i * amount_max(),
                    add <= amount_max(),
            ;
            assert((i + 1) * amount_max() < 0x1_0000_0000_0000_0000_0000_0000_0000_0000) by (nonlinear_arith)
                requires
                    i < 0x1_0000_0000_0000_0000,
            ;
        }
        sum = sum + add as u128;
        i += 1;
    }
    proof {
        assert(vals.subrange(0, i as int) =~= vals);
    }
    sum
}

/// The exact sum of the amounts that the outputs hold under `tag`.
pub fn output_total(tx: &Transaction, tag: &str) -> (r: u128)
    ensures
        r == output_sum(*tx, tag@),
{
    let ghost vals = output_values(*tx, tag@);
    let mut sum: u128 = 0;
    let mut i: usize = 0;
    while i < tx.outputs.len()
        invariant
            vals == output_values(*tx, tag@),
            i <= tx.outputs@.len(),
            sum == total(vals.subrange(0, i as int)),
            sum <= i * amount_max(),
        decreases tx.outputs@.len() - i,
    {
        let add: u64 = match tagged(&tx.outputs[i].charm_state, tag) {
            Some(Data::U64(n)) => *n,
            _ => 0,
        };
        proof {
            assert(vals.subrange(0, i + 1).drop_last() =~= vals.subrange(0, i as int));
            assert(add == amount(vals[i as int]));
            assert(sum + add <= (i + 1) * amount_max()) by (nonlinear_arith)
                requires
                    sum <= i * amount_max(),
                    add <= amount_max(),
            ;
            assert((i + 1) * amount_max() < 0x1_0000_0000_0000_0000_0000_0000_0000_0000) by (nonlinear_arith)
                requires
                    i < 0x1_0000_0000_0000_0000,
            ;
        }
        sum = sum + add as u128;
        i += 1;
    }
    proof {
        assert(vals.subrange(0, i as int) =~= vals);
    }
    sum
}

/// Whether `x` is acceptable as an authorization.
pub fn authorization_accepted(x: &Data) -> (r: bool)
    ensures
        r == authorization_ok(*x),
{
    match x {
        Data::Bytes(b) => b.len() > 0,
        _ => true,
    }
}

/// Checks a token transfer: the amounts under the application's tag are
/// conserved (and their sums fit in 64 bits), and a byte-string
/// authorization is not empty.
pub fn check(app: &App, tx: &Transaction, x: &Data, _w: &Data) -> (r: bool)
    ensures
        r == token_accepts(*tx, app.tag@, *x),
{
    let input_sum = input_total(tx, app.tag.as_str());
    let output_sum = output_total(tx, app.tag.as_str());
    input_sum == output_sum && input_sum <= 0xFFFF_FFFF_FFFF_FFFF && authorization_accepted(x)
}

/// Whether the transaction creates supply: the inputs hold nothing under the
/// tag and the outputs hold a positive amount.
pub fn is_mint(app: &App, tx: &Transaction) -> (r: bool)
    ensures
        r == mint_of(input_sum(*tx, app.tag@), output_sum(*tx, app.tag@)),
{
    let input_sum = input_total(tx, app.tag.as_str());
    let output_sum = output_total(tx, app.tag.as_str());
    input_sum == 0 && output_sum > 0
}

/// Whether the transaction destroys supply: the inputs hold more under the
/// tag than the outputs.
pub fn is_burn(app: &App, tx: &Transaction) -> (r: bool)
    ensures
        r == burn_of(input_sum(*tx, app.tag@), output_sum(*tx, app.tag@)),
{
    let input_sum = input_total(tx, app.tag.as_str());
    let output_sum = output_total(tx, app.tag.as_str());
    input_sum > output_sum
}

/// The errors of a fungible check, in order: a conservation failure when
/// the sums differ, an overflow when a sum exceeds 64 bits, an empty
/// authorization.
pub open spec fn token_errors(errors: Seq<Rejection>, tx: Transaction, tag: Seq<char>, x: Data) -> bool {
    let i = input_sum(tx, tag);
    let o = output_sum(tx, tag);
    let conservation = if i != o {
        seq![Rejection::ConservationFailed { input_sum: i as u128, output_sum: o as u128 }]
    } else {
        Seq::empty()
    };
    let overflow = if i > amount_max() || o > amount_max() {
        seq![Rejection::AmountOverflow { input_sum: i as u128, output_sum: o as u128 }]
    } else {
        Seq::empty()
    };
    let authorization = if authorization_ok(x) {
        Seq::empty()
    } else {
        seq![Rejection::EmptyAuthorization]
    };
    errors == conservation + overflow + authorization
}

/// The report of a fungible check under the label of `family`: the verdict,
/// both sums, the classification, the errors in order, and no field of
/// another family.
pub open spec fn fungible_report_ok(
    r: CheckResult,
    tx: Transaction,
    tag: Seq<char>,
    x: Data,
    family: Family,
) -> bool {
    let i = input_sum(tx, tag);
    let o = output_sum(tx, tag);
    &&& r.valid == token_accepts(tx, tag, x)
    &&& r.family == Some(family)
    &&& r.input_sum == Some(i as u128)
    &&& r.output_sum == Some(o as u128)
    &&& r.is_mint == Some(mint_of(i, o))
    &&& r.is_burn == Some(burn_of(i, o))
    &&& token_errors(r.errors@, tx, tag, x)
    &&& r.current_state is None && r.next_state is None
    &&& r.state_transition_valid is None
    &&& r.nft_ids is None && r.duplicate_nfts is None
}

/// Checks a fungible transfer and reports both sums and the classification
/// as mint or burn, under the label of `family`.
fn fungible_report(app: &App, tx: &Transaction, x: &Data, family: Family) -> (r: CheckResult)
    ensures
        fungible_report_ok(r, *tx, app.tag@, *x, family),
{
    let tag = app.tag.as_str();
    let input_sum = input_total(tx, tag);
    let output_sum = output_total(tx, tag);
    let mut r = CheckResult::blank(Some(family));
    let ghost conservation: Seq<Rejection> = Seq::empty();
    let ghost overflow: Seq<Rejection> = Seq::empty();
    let ghost authorization: Seq<Rejection> = Seq::empty();
    if input_sum != output_sum {
        r.errors.push(Rejection::ConservationFailed { input_sum, output_sum });
        proof {
            conservation = seq![Rejection::ConservationFailed { input_sum, output_sum }];
        }
    }
    if input_sum > 0xFFFF_FFFF_FFFF_FFFF || output_sum > 0xFFFF_FFFF_FFFF_FFFF {
        r.errors.push(Rejection::AmountOverflow { input_sum, output_sum });
        proof {
            overflow = seq![Rejection::AmountOverflow { input_sum, output_sum }];
        }
    }
    if !authorization_accepted(x) {
        r.errors.push(Rejection::EmptyAuthorization);
        proof {
            authorization = seq![Rejection::EmptyAuthorization];
        }
    }
    assert(r.errors@ =~= conservation + overflow + authorization);
    r.valid = r.errors.len() == 0;
    r.input_sum = Some(input_sum);
    r.output_sum = Some(output_sum);
    r.is_mint = Some(input_sum == 0 && output_sum > 0);
    r.is_burn = Some(input_sum > output_sum);
    r
}

/// Checks a token transfer and reports both sums, the classification as mint
/// or burn, and each reason for a rejection.
pub fn token_report(app: &App, tx: &Transaction, x: &Data) -> (r: CheckResult)
    ensures
        fungible_report_ok(r, *tx, app.tag@, *x, Family::Token),
{
    fungible_report(app, tx, x, Family::Token)
}

/// Checks a bollar transfer: the rules of tokens, reported under the bollar
/// label.
pub fn bollar_report(app: &App, tx: &Transaction, x: &Data) -> (r: CheckResult)
    ensures
        fungible_report_ok(r, *tx, app.tag@, *x, Family::Bollar),
{
    fungible_report(app, tx, x, Family::Bollar)
}

/// Replacing one tagged value changes the total by the difference of the
/// two amounts.
proof fn lemma_total_update(vals: Seq<Option<Data>>, k: int, v: Option<Data>)
    requires
        0 <= k < vals.len(),
    ensures
        total(vals.update(k, v)) + amount(vals[k]) == total(vals) + amount(v),
    decreases vals.len(),
{
    let updated = vals.update(k, v);
    if k == vals.len() - 1 {
        assert(updated.drop_last() =~= vals.drop_last());
    } else {
        assert(updated.drop_last() =~= vals.drop_last().update(k, v));
        lemma_total_update(vals.drop_last(), k, v);
    }
}

/// Equal sums that fit in 64 bits, with a non-empty byte-string
/// authorization, are accepted.
pub proof fn lemma_conservation_accepts(tx: Transaction, tag: Seq<char>, x: Data)
    requires
        input_sum(tx, tag) == output_sum(tx, tag),
        input_sum(tx, tag) <= amount_max(),
        x matches Data::Bytes(b) && b@.len() > 0,
    ensures
        token_accepts(tx, tag, x),
{
}

/// In an accepted transfer, raising or lowering the amount of one output by
/// one makes the transfer rejected (an output that holds nothing under the
/// tag counts as holding 0).
pub proof fn lemma_unit_change_rejects(
    tx: Transaction,
    changed: Transaction,
    tag: Seq<char>,
    x: Data,
    k: int,
    output: TxOutput,
)
    requires
        token_accepts(tx, tag, x),
        0 <= k < tx.outputs@.len(),
        changed.inputs@ == tx.inputs@,
        changed.outputs@ == tx.outputs@.update(k, output),
        ({
            let before = amount(tagged_value(tx.outputs@[k].charm_state, tag));
            let after = amount(tagged_value(output.charm_state, tag));
            after == before + 1 || after + 1 == before
        }),
    ensures
        !token_accepts(changed, tag, x),
{
    let vals = output_values(tx, tag);
    let v = tagged_value(output.charm_state, tag);
    assert(output_values(changed, tag) =~= vals.update(k, v));
    assert(input_values(changed, tag) =~= input_values(tx, tag));
    lemma_total_update(vals, k, v);
}

/// No transfer is both a mint and a burn.
pub proof fn lemma_mint_burn_exclusive(tx: Transaction, tag: Seq<char>)
    ensures
        !(mint_of(input_sum(tx, tag), output_sum(tx, tag)) && burn_of(
            input_sum(tx, tag),
            output_sum(tx, tag),
        )),
{
}

} // verus!
