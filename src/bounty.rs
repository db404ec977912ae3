//! Bounty contracts: each transaction moves the bounty along one edge of a
//! fixed table of stages.
use vstd::prelude::*;
use crate::data::{data_u64, input_values, output_values, tagged, App, Data, Transaction};
use crate::report::{is_invalid_transition, CheckResult, Family, Rejection};

verus! {

/// The state of a bounty.
#[derive(Debug, Clone, Copy, PartialEq, Eq)]
pub enum BountyState {
    Open,
    InProgress,
    Completed,
    Cancelled,
    Disputed,
}

/// The state that an integer encodes: 0 to 4 name the states in the order
/// Open, InProgress, Completed, Cancelled, Disputed; other integers encode
/// nothing.
pub open spec fn bounty_decode(n: u64) -> Option<BountyState> {
    if n == 0 {
        Some(BountyState::Open)
    } else if n == 1 {
        Some(BountyState::InProgress)
    } else if n == 2 {
        Some(BountyState::Completed)
    } else if n == 3 {
        Some(BountyState::Cancelled)
    } else if n == 4 {
        Some(BountyState::Disputed)
    } else {
        None
    }
}

/// The state that a tagged value declares, if it declares one.
pub open spec fn declared_bounty(v: Option<Data>) -> Option<BountyState> {
    match v {
        Some(d) => match data_u64(d) {
            Some(n) => bounty_decode(n),
            None => None,
        },
        None => None,
    }
}

/// The first state declared among tagged values.
pub open spec fn first_bounty(vals: Seq<Option<Data>>) -> Option<BountyState>
    decreases vals.len(),
{
    if vals.len() == 0 {
        None
    } else if declared_bounty(vals[0]) is Some {
        declared_bounty(vals[0])
    } else {
        first_bounty(vals.drop_first())
    }
}

/// The current state: the first one that an input declares under `tag`.
pub open spec fn current_bounty(tx: Transaction, tag: Seq<char>) -> Option<BountyState> {
    first_bounty(input_values(tx, tag))
}

/// The next state: the first one that an output declares under `tag`.
pub open spec fn next_bounty(tx: Transaction, tag: Seq<char>) -> Option<BountyState> {
    first_bounty(output_values(tx, tag))
}

/// The legal moves of a bounty; `None` before it is opened.
pub open spec fn bounty_step(current: Option<BountyState>, next: Option<BountyState>) -> bool {
    match (current, next) {
        (None, Some(BountyState::Open)) => true,
        (Some(BountyState::Open), Some(BountyState::InProgress)) => true,
        (Some(BountyState::InProgress), Some(BountyState::Completed)) => true,
        (Some(BountyState::Open), Some(BountyState::Cancelled)) => true,
        (Some(BountyState::InProgress), Some(BountyState::Disputed)) => true,
        (Some(BountyState::Disputed), Some(BountyState::Completed)) => true,
        (Some(BountyState::Disputed), Some(BountyState::Cancelled)) => true,
        _ => false,
    }
}

/// A bounty transaction is accepted when its pair of states is a legal move.
pub open spec fn bounty_accepts(tx: Transaction, tag: Seq<char>) -> bool {
    bounty_step(current_bounty(tx, tag), next_bounty(tx, tag))
}

/// The name under which a state is reported; `None` when there is none.
pub open spec fn bounty_name(s: Option<BountyState>) -> Seq<char> {
    match s {
        None => "None"@,
        Some(BountyState::Open) => "Open"@,
        Some(BountyState::InProgress) => "InProgress"@,
        Some(BountyState::Completed) => "Completed"@,
        Some(BountyState::Cancelled) => "Cancelled"@,
        Some(BountyState::Disputed) => "Disputed"@,
    }
}

/// The state that a value declares, if it is a `U64` that encodes one.
fn parse_bounty_state(data: &Data) -> (r: Option<BountyState>)
    ensures
        r == declared_bounty(Some(*data)),
{
    match data.as_u64() {
        Some(0) => Some(BountyState::Open),
        Some(1) => Some(BountyState::InProgress),
        Some(2) => Some(BountyState::Completed),
        Some(3) => Some(BountyState::Cancelled),
        Some(4) => Some(BountyState::Disputed),
        _ => None,
    }
}

/// The current state of the bounty under `tag`.
pub fn current_state(tx: &Transaction, tag: &str) -> (r: Option<BountyState>)
    ensures
        r == current_bounty(*tx, tag@),
{
    let ghost vals = input_values(*tx, tag@);
    let mut i: usize = 0;
    assert(vals.subrange(0, vals.len() as int) =~= vals);
    while i < tx.inputs.len()
        invariant
            vals == input_values(*tx, tag@),
            i <= tx.inputs@.len(),
            first_bounty(vals) == first_bounty(vals.subrange(i as int, vals.len() as int)),
        decreases tx.inputs@.len() - i,
    {
        let ghost rest = vals.subrange(i as int, vals.len() as int);
        assert(rest.drop_first() =~= vals.subrange(i + 1, vals.len() as int));
        assert(rest[0] == vals[i as int]);
        if let Some(d) = tagged(&tx.inputs[i].charm_state, tag) {
            if let Some(s) = parse_bounty_state(d) {
                return Some(s);
            }
        }
        i += 1;
    }
    None
}

/// The next state of the bounty under `tag`.
pub fn next_state(tx: &Transaction, tag: &str) -> (r: Option<BountyState>)
    ensures
        r == next_bounty(*tx, tag@),
{
    let ghost vals = output_values(*tx, tag@);
    let mut i: usize = 0;
    assert(vals.subrange(0, vals.len() as int) =~= vals);
    while i < tx.outputs.len()
        invariant
            vals == output_values(*tx, tag@),
            i <= tx.outputs@.len(),
            first_bounty(vals) == first_bounty(vals.subrange(i as int, vals.len() as int)),
        decreases tx.outputs@.len() - i,
    {
        let ghost rest = vals.subrange(i as int, vals.len() as int);
        assert(rest.drop_first() =~= vals.subrange(i + 1, vals.len() as int));
        assert(rest[0] == vals[i as int]);
        if let Some(d) = tagged(&tx.outputs[i].charm_state, tag) {
            if let Some(s) = parse_bounty_state(d) {
                return Some(s);
            }
        }
        i += 1;
    }
    None
}

/// Whether moving from `current` to `next` is legal.
pub fn bounty_transition_allowed(current: &Option<BountyState>, next: &Option<BountyState>) -> (r:
    bool)
    ensures
        r == bounty_step(*current, *next),
{
    match (current, next) {
        (None, Some(BountyState::Open)) => true,
        (Some(BountyState::Open), Some(BountyState::InProgress)) => true,
        (Some(BountyState::InProgress), Some(BountyState::Completed)) => true,
        (Some(BountyState::Open), Some(BountyState::Cancelled)) => true,
        (Some(BountyState::InProgress), Some(BountyState::Disputed)) => true,
        (Some(BountyState::Disputed), Some(BountyState::Completed)) => true,
        (Some(BountyState::Disputed), Some(BountyState::Cancelled)) => true,
        _ => false,
    }
}

/// The name under which a state is reported.
pub fn bounty_state_name(s: &Option<BountyState>) -> (r: String)
    ensures
        r@ == bounty_name(*s),
{
    let name = match s {
        None => "None",
        Some(BountyState::Open) => "Open",
        Some(BountyState::InProgress) => "InProgress",
        Some(BountyState::Completed) => "Completed",
        Some(BountyState::Cancelled) => "Cancelled",
        Some(BountyState::Disputed) => "Disputed",
    };
    name.to_owned()
}

/// The report of a bounty check: the verdict, both states by name, the
/// rejection of the pair when it is not a legal move, and no field of
/// another family.
pub open spec fn bounty_report_ok(r: CheckResult, tx: Transaction, tag: Seq<char>) -> bool {
    &&& r.valid == bounty_accepts(tx, tag)
    &&& r.family == Some(Family::Bounty)
    &&& r.current_state matches Some(s) && s@ == bounty_name(current_bounty(tx, tag))
    &&& r.next_state matches Some(s) && s@ == bounty_name(next_bounty(tx, tag))
    &&& r.state_transition_valid == Some(r.valid)
    &&& r.valid ==> r.errors@.len() == 0
    &&& !r.valid ==> r.errors@.len() == 1 && is_invalid_transition(
        r.errors@[0],
        Family::Bounty,
        bounty_name(current_bounty(tx, tag)),
        bounty_name(next_bounty(tx, tag)),
    )
    &&& r.input_sum is None && r.output_sum is None
    &&& r.is_mint is None && r.is_burn is None
    &&& r.nft_ids is None && r.duplicate_nfts is None
}

/// Checks a bounty transaction and reports both states by name.
pub fn bounty_report(app: &App, tx: &Transaction) -> (r: CheckResult)
    ensures
        bounty_report_ok(r, *tx, app.tag@),
{
    let tag = app.tag.as_str();
    let current = current_state(tx, tag);
    let next = next_state(tx, tag);
    let allowed = bounty_transition_allowed(&current, &next);
    let mut r = CheckResult::blank(Some(Family::Bounty));
    if !allowed {
        r.errors.push(
            Rejection::InvalidTransition {
                family: Family::Bounty,
                current: bounty_state_name(&current),
                next: bounty_state_name(&next),
            },
        );
    }
    r.valid = allowed;
    r.current_state = Some(bounty_state_name(&current));
    r.next_state = Some(bounty_state_name(&next));
    r.state_transition_valid = Some(allowed);
    r
}

/// Checks a bounty transaction: the first state declared by an input and the
/// first declared by an output form a legal move.
pub fn check(app: &App, tx: &Transaction, _x: &Data, _w: &Data) -> (r: bool)
    ensures
        r == bounty_accepts(*tx, app.tag@),
{
    let tag = app.tag.as_str();
    let current = current_state(tx, tag);
    let next = next_state(tx, tag);
    bounty_transition_allowed(&current, &next)
}

/// The bounty's transition table: its legal moves between states.
pub open spec fn bounty_table() -> Seq<(Option<BountyState>, Option<BountyState>)> {
    seq![
        (None, Some(BountyState::Open)),
        (Some(BountyState::Open), Some(BountyState::InProgress)),
        (Some(BountyState::InProgress), Some(BountyState::Completed)),
        (Some(BountyState::Open), Some(BountyState::Cancelled)),
        (Some(BountyState::InProgress), Some(BountyState::Disputed)),
        (Some(BountyState::Disputed), Some(BountyState::Completed)),
        (Some(BountyState::Disputed), Some(BountyState::Cancelled)),
    ]
}

/// A move is legal exactly when the table lists it.
pub proof fn lemma_bounty_step_listed(current: Option<BountyState>, next: Option<BountyState>)
    ensures
        bounty_step(current, next) <==> bounty_table().contains((current, next)),
{
    let t = bounty_table();
    let p = (current, next);
    assert(t.len() == 7);
    if bounty_step(current, next) {
        assert(p == t[0] || p == t[1] || p == t[2] || p == t[3] || p == t[4] || p == t[5] || p
            == t[6]);
    }
    if t.contains(p) {
        let k = choose|k: int| 0 <= k < t.len() && t[k] == p;
        assert(k == 0 || k == 1 || k == 2 || k == 3 || k == 4 || k == 5 || k == 6);
    }
}

/// Every move that the bounty table lists is accepted; a move from the
/// current state of one entry to the next state of another is accepted
/// exactly when the table lists it too.
pub proof fn lemma_bounty_table(tx: Transaction, tag: Seq<char>, i: int, j: int)
    requires
        0 <= i < bounty_table().len(),
        0 <= j < bounty_table().len(),
        current_bounty(tx, tag) == bounty_table()[i].0,
        next_bounty(tx, tag) == bounty_table()[j].1,
    ensures
        bounty_accepts(tx, tag) <==> bounty_table().contains(
            (bounty_table()[i].0, bounty_table()[j].1),
        ),
        i == j ==> bounty_accepts(tx, tag),
{
    lemma_bounty_step_listed(current_bounty(tx, tag), next_bounty(tx, tag));
    if i == j {
        assert(bounty_table()[i] == (bounty_table()[i].0, bounty_table()[j].1));
    }
}

} // verus!
