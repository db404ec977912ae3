//! Escrow contracts: each transaction moves the contract along one edge of
//! a fixed table of stages.
use vstd::prelude::*;
use crate::data::{data_u64, input_values, output_values, tagged, App, Data, Transaction};
use crate::report::{is_invalid_transition, CheckResult, Family, Rejection};

verus! {

/// The state of an escrow contract.
#[derive(Debug, Clone, Copy, PartialEq, Eq)]
pub enum EscrowState {
    Created,
    Funded,
    /// A milestone has been completed; the number of the milestone.
    MilestoneCompleted(u64),
    Released,
    Disputed,
    Refunded,
}

/// The state that an integer encodes: 0 to 4 name the plain states in the
/// order Created, Funded, Released, Disputed, Refunded; `100 + m` is the
/// completion of milestone `m`; other integers encode nothing.
pub open spec fn escrow_decode(n: u64) -> Option<EscrowState> {
    if n >= 100 {
        Some(EscrowState::MilestoneCompleted((n - 100) as u64))
    } else if n == 0 {
        Some(EscrowState::Created)
    } else if n == 1 {
        Some(EscrowState::Funded)
    } else if n == 2 {
        Some(EscrowState::Released)
    } else if n == 3 {
        Some(EscrowState::Disputed)
    } else if n == 4 {
        Some(EscrowState::Refunded)
    } else {
        None
    }
}

/// The state that a tagged value declares, if it declares one.
pub open spec fn declared_escrow(v: Option<Data>) -> Option<EscrowState> {
    match v {
        Some(d) => match data_u64(d) {
            Some(n) => escrow_decode(n),
            None => None,
        },
        None => None,
    }
}

/// The first state declared among tagged values.
pub open spec fn first_escrow(vals: Seq<Option<Data>>) -> Option<EscrowState>
    decreases vals.len(),
{
    if vals.len() == 0 {
        None
    } else if declared_escrow(vals[0]) is Some {
        declared_escrow(vals[0])
    } else {
        first_escrow(vals.drop_first())
    }
}

/// The current state: the first one that an input declares under `tag`.
pub open spec fn current_escrow(tx: Transaction, tag: Seq<char>) -> Option<EscrowState> {
    first_escrow(input_values(tx, tag))
}

/// The next state: the first one that an output declares under `tag`.
pub open spec fn next_escrow(tx: Transaction, tag: Seq<char>) -> Option<EscrowState> {
    first_escrow(output_values(tx, tag))
}

/// The legal moves of an escrow; `None` before creation.
pub open spec fn escrow_step(current: Option<EscrowState>, next: Option<EscrowState>) -> bool {
    match (current, next) {
        (None, Some(EscrowState::Created)) => true,
        (Some(EscrowState::Created), Some(EscrowState::Funded)) => true,
        (Some(EscrowState::Funded), Some(EscrowState::MilestoneCompleted(_))) => true,
        (Some(EscrowState::MilestoneCompleted(_)), Some(EscrowState::Released)) => true,
        (Some(EscrowState::Funded), Some(EscrowState::Disputed)) => true,
        (Some(EscrowState::Disputed), Some(EscrowState::Refunded)) => true,
        (Some(EscrowState::Disputed), Some(EscrowState::Released)) => true,
        _ => false,
    }
}

/// An escrow transaction is accepted when its pair of states is a legal
/// move.
pub open spec fn escrow_accepts(tx: Transaction, tag: Seq<char>) -> bool {
    escrow_step(current_escrow(tx, tag), next_escrow(tx, tag))
}

/// The name under which a state is reported; `None` when there is none.
pub open spec fn escrow_name(s: Option<EscrowState>) -> Seq<char> {
    match s {
        None => "None"@,
        Some(EscrowState::Created) => "Created"@,
        Some(EscrowState::Funded) => "Funded"@,
        Some(EscrowState::MilestoneCompleted(_)) => "MilestoneCompleted"@,
        Some(EscrowState::Released) => "Released"@,
        Some(EscrowState::Disputed) => "Disputed"@,
        Some(EscrowState::Refunded) => "Refunded"@,
    }
}

/// The state that a value declares, if it is a `U64` that encodes one.
fn parse_escrow_state(data: &Data) -> (r: Option<EscrowState>)
    ensures
        r == declared_escrow(Some(*data)),
{
    match data.as_u64() {
        Some(n) => {
            if n >= 100 {
                Some(EscrowState::MilestoneCompleted(n - 100))
            } else if n == 0 {
                Some(EscrowState::Created)
            } else if n == 1 {
                Some(EscrowState::Funded)
            } else if n == 2 {
                Some(EscrowState::Released)
            } else if n == 3 {
                Some(EscrowState::Disputed)
            } else if n == 4 {
                Some(EscrowState::Refunded)
            } else {
                None
            }
        },
        None => None,
    }
}

/// The current state of the escrow under `tag`.
pub fn current_state(tx: &Transaction, tag: &str) -> (r: Option<EscrowState>)
    ensures
        r == current_escrow(*tx, tag@),
{
    let ghost vals = input_values(*tx, tag@);
    let mut i: usize = 0;
    assert(vals.subrange(0, vals.len() as int) =~= vals);
    while i < tx.inputs.len()
        invariant
            vals == input_values(*tx, tag@),
            i <= tx.inputs@.len(),
            first_escrow(vals) == first_escrow(vals.subrange(i as int, vals.len() as int)),
        decreases tx.inputs@.len() - i,
    {
        let ghost rest = vals.subrange(i as int, vals.len() as int);
        assert(rest.drop_first() =~= vals.subrange(i + 1, vals.len() as int));
        assert(rest[0] == vals[i as int]);
        if let Some(d) = tagged(&tx.inputs[i].charm_state, tag) {
            if let Some(s) = parse_escrow_state(d) {
                return Some(s);
            }
        }
        i += 1;
    }
    None
}

/// The next state of the escrow under `tag`.
pub fn next_state(tx: &Transaction, tag: &str) -> (r: Option<EscrowState>)
    ensures
        r == next_escrow(*tx, tag@),
{
    let ghost vals = output_values(*tx, tag@);
    let mut i: usize = 0;
    assert(vals.subrange(0, vals.len() as int) =~= vals);
    while i < tx.outputs.len()
        invariant
            vals == output_values(*tx, tag@),
            i <= tx.outputs@.len(),
            first_escrow(vals) == first_escrow(vals.subrange(i as int, vals.len() as int)),
        decreases tx.outputs@.len() - i,
    {
        let ghost rest = vals.subrange(i as int, vals.len() as int);
        assert(rest.drop_first() =~= vals.subrange(i + 1, vals.len() as int));
        assert(rest[0] == vals[i as int]);
        if let Some(d) = tagged(&tx.outputs[i].charm_state, tag) {
            if let Some(s) = parse_escrow_state(d) {
                return Some(s);
            }
        }
        i += 1;
    }
    None
}

/// Whether moving from `current` to `next` is legal.
pub fn escrow_transition_allowed(current: &Option<EscrowState>, next: &Option<EscrowState>) -> (r:
    bool)
    ensures
        r == escrow_step(*current, *next),
{
    match (current, next) {
        (None, Some(EscrowState::Created)) => true,
        (Some(EscrowState::Created), Some(EscrowState::Funded)) => true,
        (Some(EscrowState::Funded), Some(EscrowState::MilestoneCompleted(_))) => true,
        (Some(EscrowState::MilestoneCompleted(_)), Some(EscrowState::Released)) => true,
        (Some(EscrowState::Funded), Some(EscrowState::Disputed)) => true,
        (Some(EscrowState::Disputed), Some(EscrowState::Refunded)) => true,
        (Some(EscrowState::Disputed), Some(EscrowState::Released)) => true,
        _ => false,
    }
}

/// The name under which a state is reported.
pub fn escrow_state_name(s: &Option<EscrowState>) -> (r: String)
    ensures
        r@ == escrow_name(*s),
{
    let name = match s {
        None => "None",
        Some(EscrowState::Created) => "Created",
        Some(EscrowState::Funded) => "Funded",
        Some(EscrowState::MilestoneCompleted(_)) => "MilestoneCompleted",
        Some(EscrowState::Released) => "Released",
        Some(EscrowState::Disputed) => "Disputed",
        Some(EscrowState::Refunded) => "Refunded",
    };
    name.to_owned()
}

/// The report of a escrow check: the verdict, both states by name, the
/// rejection of the pair when it is not a legal move, and no field of
/// another family.
pub open spec fn escrow_report_ok(r: CheckResult, tx: Transaction, tag: Seq<char>) -> bool {
    &&& r.valid == escrow_accepts(tx, tag)
    &&& r.family == Some(Family::Escrow)
    &&& r.current_state matches Some(s) && s@ == escrow_name(current_escrow(tx, tag))
    &&& r.next_state matches Some(s) && s@ == escrow_name(next_escrow(tx, tag))
    &&& r.state_transition_valid == Some(r.valid)
    &&& r.valid ==> r.errors@.len() == 0
    &&& !r.valid ==> r.errors@.len() == 1 && is_invalid_transition(
        r.errors@[0],
        Family::Escrow,
        escrow_name(current_escrow(tx, tag)),
        escrow_name(next_escrow(tx, tag)),
    )
    &&& r.input_sum is None && r.output_sum is None
    &&& r.is_mint is None && r.is_burn is None
    &&& r.nft_ids is None && r.duplicate_nfts is None
}

/// Checks an escrow transaction and reports both states by name.
pub fn escrow_report(app: &App, tx: &Transaction) -> (r: CheckResult)
    ensures
        escrow_report_ok(r, *tx, app.tag@),
{
    let tag = app.tag.as_str();
    let current = current_state(tx, tag);
    let next = next_state(tx, tag);
    let allowed = escrow_transition_allowed(&current, &next);
    let mut r = CheckResult::blank(Some(Family::Escrow));
    if !allowed {
        r.errors.push(
            Rejection::InvalidTransition {
                family: Family::Escrow,
                current: escrow_state_name(&current),
                next: escrow_state_name(&next),
            },
        );
    }
    r.valid = allowed;
    r.current_state = Some(escrow_state_name(&current));
    r.next_state = Some(escrow_state_name(&next));
    r.state_transition_valid = Some(allowed);
    r
}

/// Checks an escrow transaction: the first state declared by an input and
/// the first declared by an output form a legal move.
pub fn check(app: &App, tx: &Transaction, _x: &Data, _w: &Data) -> (r: bool)
    ensures
        r == escrow_accepts(*tx, app.tag@),
{
    let tag = app.tag.as_str();
    let current = current_state(tx, tag);
    let next = next_state(tx, tag);
    escrow_transition_allowed(&current, &next)
}

/// The stage of a state: every completed milestone is one stage, written
/// with milestone number 0.
pub open spec fn escrow_stage(s: Option<EscrowState>) -> Option<EscrowState> {
    match s {
        Some(EscrowState::MilestoneCompleted(_)) => Some(EscrowState::MilestoneCompleted(0)),
        _ => s,
    }
}

/// The escrow's transition table: its legal moves between stages.
pub open spec fn escrow_table() -> Seq<(Option<EscrowState>, Option<EscrowState>)> {
    seq![
        (None, Some(EscrowState::Created)),
        (Some(EscrowState::Created), Some(EscrowState::Funded)),
        (Some(EscrowState::Funded), Some(EscrowState::MilestoneCompleted(0))),
        (Some(EscrowState::MilestoneCompleted(0)), Some(EscrowState::Released)),
        (Some(EscrowState::Funded), Some(EscrowState::Disputed)),
        (Some(EscrowState::Disputed), Some(EscrowState::Refunded)),
        (Some(EscrowState::Disputed), Some(EscrowState::Released)),
    ]
}

/// A move is legal exactly when the table lists the stages it joins.
pub proof fn lemma_escrow_step_listed(current: Option<EscrowState>, next: Option<EscrowState>)
    ensures
        escrow_step(current, next) <==> escrow_table().contains(
            (escrow_stage(current), escrow_stage(next)),
        ),
{
    let t = escrow_table();
    let p = (escrow_stage(current), escrow_stage(next));
    assert(t.len() == 7);
    if escrow_step(current, next) {
        assert(p == t[0] || p == t[1] || p == t[2] || p == t[3] || p == t[4] || p == t[5] || p
            == t[6]);
    }
    if t.contains(p) {
        let k = choose|k: int| 0 <= k < t.len() && t[k] == p;
        assert(k == 0 || k == 1 || k == 2 || k == 3 || k == 4 || k == 5 || k == 6);
    }
}

/// Every move that the escrow table lists is accepted; a move from the
/// current stage of one entry to the next stage of another is accepted
/// exactly when the table lists it too.
pub proof fn lemma_escrow_table(tx: Transaction, tag: Seq<char>, i: int, j: int)
    requires
        0 <= i < escrow_table().len(),
        0 <= j < escrow_table().len(),
        escrow_stage(current_escrow(tx, tag)) == escrow_table()[i].0,
        escrow_stage(next_escrow(tx, tag)) == escrow_table()[j].1,
    ensures
        escrow_accepts(tx, tag) <==> escrow_table().contains(
            (escrow_table()[i].0, escrow_table()[j].1),
        ),
        i == j ==> escrow_accepts(tx, tag),
{
    lemma_escrow_step_listed(current_escrow(tx, tag), next_escrow(tx, tag));
    if i == j {
        assert(escrow_table()[i] == (escrow_table()[i].0, escrow_table()[j].1));
    }
}

} // verus!
