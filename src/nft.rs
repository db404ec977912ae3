//! Non-fungible tokens: identifiers are never duplicated, and a new
//! identifier needs an authorization.
use vstd::prelude::*;
use crate::data::{data_bytes, input_values, output_values, tagged, App, Data, Transaction};
use crate::report::{byte_views, CheckResult, Family, Rejection};

verus! {

/// The description of a non-fungible token.
#[derive(Debug, Clone)]
pub struct NftData {
    /// Identifier of the token.
    pub id: [u8; 32],
    /// Hash of the token's metadata.
    pub metadata_hash: [u8; 32],
    /// Key of the token's creator.
    pub creator: Vec<u8>,
}

/// The identifiers among tagged values: the bytes of each `Bytes` value, in
/// order, repeats kept.
pub open spec fn ids(vals: Seq<Option<Data>>) -> Seq<Seq<u8>>
    decreases vals.len(),
{
    if vals.len() == 0 {
        Seq::empty()
    } else {
        let before = ids(vals.drop_last());
        match vals.last() {
            Some(d) => match data_bytes(d) {
                Some(b) => before.push(b),
                None => before,
            },
            None => before,
        }
    }
}

/// The identifiers that the inputs hold under `tag`.
pub open spec fn input_ids(tx: Transaction, tag: Seq<char>) -> Seq<Seq<u8>> {
    ids(input_values(tx, tag))
}

/// The identifiers that the outputs hold under `tag`, in output order.
pub open spec fn output_ids(tx: Transaction, tag: Seq<char>) -> Seq<Seq<u8>> {
    ids(output_values(tx, tag))
}

/// Every occurrence of an identifier after its first, in order.
pub open spec fn repeats(l: Seq<Seq<u8>>) -> Seq<Seq<u8>>
    decreases l.len(),
{
    if l.len() == 0 {
        Seq::empty()
    } else if l.drop_last().contains(l.last()) {
        repeats(l.drop_last()).push(l.last())
    } else {
        repeats(l.drop_last())
    }
}

/// The identifiers of `outs` that do not occur in `ins`, in order.
pub open spec fn fresh(outs: Seq<Seq<u8>>, ins: Seq<Seq<u8>>) -> Seq<Seq<u8>>
    decreases outs.len(),
{
    if outs.len() == 0 {
        Seq::empty()
    } else if ins.contains(outs.last()) {
        fresh(outs.drop_last(), ins)
    } else {
        fresh(outs.drop_last(), ins).push(outs.last())
    }
}

/// The identifiers introduced without an authorization: the fresh ones when
/// the authorization is `Empty`, else none.
pub open spec fn unauthorized(tx: Transaction, tag: Seq<char>, x: Data) -> Seq<Seq<u8>> {
    if x is Empty {
        fresh(output_ids(tx, tag), input_ids(tx, tag))
    } else {
        Seq::empty()
    }
}

/// A transfer of non-fungible tokens is accepted when no output identifier
/// repeats and every new identifier is authorized.
pub open spec fn nft_accepts(tx: Transaction, tag: Seq<char>, x: Data) -> bool {
    &&& repeats(output_ids(tx, tag)).len() == 0
    &&& unauthorized(tx, tag, x).len() == 0
}

/// The errors list the repeated identifiers, then the unauthorized ones.
pub open spec fn nft_errors(errors: Seq<Rejection>, dups: Seq<Seq<u8>>, unauth: Seq<Seq<u8>>) -> bool {
    &&& errors.len() == dups.len() + unauth.len()
    &&& forall|k: int|
        0 <= k < dups.len() ==> (#[trigger] errors[k] matches Rejection::DuplicateNft(id) && id@
            == dups[k])
    &&& forall|k: int|
        0 <= k < unauth.len() ==> (#[trigger] errors[dups.len() + k] matches Rejection::UnauthorizedMint(
            id,
        ) && id@ == unauth[k])
}

/// The identifiers that the inputs hold under `tag`.
fn collect_input_ids(tx: &Transaction, tag: &str) -> (r: Vec<Vec<u8>>)
    ensures
        byte_views(r@) == input_ids(*tx, tag@),
{
    let ghost vals = input_values(*tx, tag@);
    let mut r: Vec<Vec<u8>> = Vec::new();
    let mut i: usize = 0;
    while i < tx.inputs.len()
        invariant
            vals == input_values(*tx, tag@),
            i <= tx.inputs@.len(),
            byte_views(r@) == ids(vals.subrange(0, i as int)),
        decreases tx.inputs@.len() - i,
    {
        proof {
            assert(vals.subrange(0, i + 1).drop_last() =~= vals.subrange(0, i as int));
        }
        match tagged(&tx.inputs[i].charm_state, tag) {
            Some(Data::Bytes(b)) => {
                let ghost before = r@;
                r.push(b.clone());
                assert(byte_views(r@) =~= byte_views(before).push(b@));
            },
            _ => {},
        }
        i += 1;
    }
    assert(vals.subrange(0, i as int) =~= vals);
    r
}

/// The identifiers that the outputs hold under `tag`, in output order.
fn collect_output_ids(tx: &Transaction, tag: &str) -> (r: Vec<Vec<u8>>)
    ensures
        byte_views(r@) == output_ids(*tx, tag@),
{
    let ghost vals = output_values(*tx, tag@);
    let mut r: Vec<Vec<u8>> = Vec::new();
    let mut i: usize = 0;
    while i < tx.outputs.len()
        invariant
            vals == output_values(*tx, tag@),
            i <= tx.outputs@.len(),
            byte_views(r@) == ids(vals.subrange(0, i as int)),
        decreases tx.outputs@.len() - i,
    {
        proof {
            assert(vals.subrange(0, i + 1).drop_last() =~= vals.subrange(0, i as int));
        }
        match tagged(&tx.outputs[i].charm_state, tag) {
            Some(Data::Bytes(b)) => {
                let ghost before = r@;
                r.push(b.clone());
                assert(byte_views(r@) =~= byte_views(before).push(b@));
            },
            _ => {},
        }
        i += 1;
    }
    assert(vals.subrange(0, i as int) =~= vals);
    r
}

/// Whether `id` occurs among the first `upto` byte strings of `l`.
fn contains_id(l: &Vec<Vec<u8>>, upto: usize, id: &Vec<u8>) -> (r: bool)
    requires
        upto <= l@.len(),
    ensures
        r == byte_views(l@).subrange(0, upto as int).contains(id@),
{
    let ghost views = byte_views(l@).subrange(0, upto as int);
    let mut j: usize = 0;
    while j < upto
        invariant
            views == byte_views(l@).subrange(0, upto as int),
            upto <= l@.len(),
            j <= upto,
            forall|k: int| 0 <= k < j ==> views[k] != id@,
        decreases upto - j,
    {
        if l[j] == *id {
            assert(views[j as int] == id@);
            return true;
        }
        j += 1;
    }
    false
}

/// The report of a non-fungible check: the verdict, the output identifiers,
/// the repeats, the errors in order, and no field of another family.
pub open spec fn nft_report_ok(r: CheckResult, tx: Transaction, tag: Seq<char>, x: Data) -> bool {
    &&& r.valid == nft_accepts(tx, tag, x)
    &&& r.family == Some(Family::Nft)
    &&& r.nft_ids matches Some(l) && byte_views(l@) == output_ids(tx, tag)
    &&& r.duplicate_nfts matches Some(l) && byte_views(l@) == repeats(output_ids(tx, tag))
    &&& nft_errors(r.errors@, repeats(output_ids(tx, tag)), unauthorized(tx, tag, x))
    &&& r.input_sum is None && r.output_sum is None
    &&& r.is_mint is None && r.is_burn is None
    &&& r.current_state is None && r.next_state is None
    &&& r.state_transition_valid is None
}

/// Checks a transfer of non-fungible tokens and reports the identifiers of
/// the outputs, the repeated ones, and each reason for a rejection.
pub fn nft_report(app: &App, tx: &Transaction, x: &Data) -> (r: CheckResult)
    ensures
        nft_report_ok(r, *tx, app.tag@, *x),
{
    let tag = app.tag.as_str();
    let ins = collect_input_ids(tx, tag);
    let outs = collect_output_ids(tx, tag);
    let ghost out_views = byte_views(outs@);
    let ghost in_views = byte_views(ins@);
    let mut errors: Vec<Rejection> = Vec::new();
    let mut dups: Vec<Vec<u8>> = Vec::new();
    let mut k: usize = 0;
    while k < outs.len()
        invariant
            out_views == byte_views(outs@),
            k <= outs@.len(),
            byte_views(dups@) == repeats(out_views.subrange(0, k as int)),
            nft_errors(errors@, byte_views(dups@), Seq::empty()),
        decreases outs@.len() - k,
    {
        proof {
            let prefix = out_views.subrange(0, k + 1);
            assert(prefix.drop_last() =~= out_views.subrange(0, k as int));
            assert(prefix.last() == outs@[k as int]@);
        }
        if contains_id(&outs, k, &outs[k]) {
            let ghost before = dups@;
            dups.push(outs[k].clone());
            errors.push(Rejection::DuplicateNft(outs[k].clone()));
            assert(byte_views(dups@) =~= byte_views(before).push(outs@[k as int]@));
        }
        k += 1;
    }
    assert(out_views.subrange(0, k as int) =~= out_views);
    let authorized = !x.is_empty();
    let mut m: usize = 0;
    let ghost minted: Seq<Seq<u8>> = Seq::empty();
    while m < outs.len()
        invariant
            out_views == byte_views(outs@),
            in_views == byte_views(ins@),
            m <= outs@.len(),
            authorized == !(*x is Empty),
            minted == if authorized {
                Seq::<Seq<u8>>::empty()
            } else {
                fresh(out_views.subrange(0, m as int), in_views)
            },
            nft_errors(errors@, byte_views(dups@), minted),
        decreases outs@.len() - m,
    {
        proof {
            let prefix = out_views.subrange(0, m + 1);
            assert(prefix.drop_last() =~= out_views.subrange(0, m as int));
            assert(prefix.last() == outs@[m as int]@);
            assert(byte_views(ins@).subrange(0, ins@.len() as int) =~= in_views);
        }
        if !contains_id(&ins, ins.len(), &outs[m]) && !authorized {
            errors.push(Rejection::UnauthorizedMint(outs[m].clone()));
        }
        proof {
            minted = if authorized {
                Seq::<Seq<u8>>::empty()
            } else {
                fresh(out_views.subrange(0, m + 1), in_views)
            };
        }
        m += 1;
    }
    assert(out_views.subrange(0, m as int) =~= out_views);
    let valid = errors.len() == 0;
    CheckResult {
        valid,
        family: Some(Family::Nft),
        input_sum: None,
        output_sum: None,
        is_mint: None,
        is_burn: None,
        current_state: None,
        next_state: None,
        state_transition_valid: None,
        nft_ids: Some(outs),
        duplicate_nfts: Some(dups),
        errors,
    }
}

/// Checks a transfer of non-fungible tokens: no output identifier repeats,
/// and an identifier that no input holds needs an authorization that is not
/// `Empty`.
pub fn check(app: &App, tx: &Transaction, x: &Data, _w: &Data) -> (r: bool)
    ensures
        r == nft_accepts(*tx, app.tag@, *x),
{
    nft_report(app, tx, x).valid
}

/// A list has no repeated occurrence exactly when it has no duplicates.
pub proof fn lemma_repeats_empty(l: Seq<Seq<u8>>)
    ensures
        repeats(l).len() == 0 <==> l.no_duplicates(),
    decreases l.len(),
{
    if l.len() > 0 {
        let init = l.drop_last();
        lemma_repeats_empty(init);
        if l.no_duplicates() {
            assert(init.no_duplicates());
            if init.contains(l.last()) {
                let i = choose|i: int| 0 <= i < init.len() && init[i] == l.last();
                assert(l[i] == l[l.len() - 1]);
            }
        }
        if repeats(l).len() == 0 {
            assert(!init.contains(l.last()));
            assert forall|i: int, j: int| 0 <= i < l.len() && 0 <= j < l.len() && i != j implies l[i]
                != l[j] by {
                if j == l.len() - 1 {
                    assert(init[i] == l[i]);
                } else if i == l.len() - 1 {
                    assert(init[j] == l[j]);
                } else {
                    assert(init[i] == l[i] && init[j] == l[j]);
                }
            }
        }
    }
}

/// An identifier that occurs twice is among the repeats.
pub proof fn lemma_repeat_listed(l: Seq<Seq<u8>>, i: int, j: int)
    requires
        0 <= i < j < l.len(),
        l[i] == l[j],
    ensures
        repeats(l).contains(l[j]),
    decreases l.len(),
{
    let init = l.drop_last();
    if j == l.len() - 1 {
        assert(init[i] == l.last());
        assert(repeats(l).last() == l.last());
    } else {
        lemma_repeat_listed(init, i, j);
        let k = choose|k: int| 0 <= k < repeats(init).len() && repeats(init)[k] == init[j];
        if init.contains(l.last()) {
            assert(repeats(l)[k] == l[j]);
        }
    }
}

/// The output identifiers of an accepted transfer are all different.
pub proof fn lemma_accepted_ids_unique(tx: Transaction, tag: Seq<char>, x: Data)
    requires
        nft_accepts(tx, tag, x),
    ensures
        output_ids(tx, tag).no_duplicates(),
{
    lemma_repeats_empty(output_ids(tx, tag));
}

/// A transfer in which an output identifier occurs twice is rejected, and
/// the identifier is among the repeats that the report lists.
pub proof fn lemma_repeat_rejected(tx: Transaction, tag: Seq<char>, x: Data, i: int, j: int)
    requires
        0 <= i < j < output_ids(tx, tag).len(),
        output_ids(tx, tag)[i] == output_ids(tx, tag)[j],
    ensures
        !nft_accepts(tx, tag, x),
        repeats(output_ids(tx, tag)).contains(output_ids(tx, tag)[j]),
{
    lemma_repeat_listed(output_ids(tx, tag), i, j);
}

} // verus!
