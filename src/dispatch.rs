//! Selects the family of rules from the namespace of an application tag and
//! applies it.
use vstd::prelude::*;
use vstd::string::*;
use crate::bounty::{bounty_accepts, bounty_report, bounty_report_ok};
use crate::data::{App, Data, Transaction};
use crate::escrow::{escrow_accepts, escrow_report, escrow_report_ok};
use crate::nft::{nft_accepts, nft_report, nft_report_ok};
use crate::report::{CheckResult, Family, Rejection};
use crate::token::{bollar_report, fungible_report_ok, token_accepts, token_report};

verus! {

/// `p` is a prefix of `s`.
pub open spec fn has_prefix(s: Seq<char>, p: Seq<char>) -> bool {
    p.len() <= s.len() && s.subrange(0, p.len() as int) == p
}

/// The family that a tag's namespace selects; the namespaces are tried in
/// the order token, nft, escrow, bounty, bollar.
pub open spec fn family_of(tag: Seq<char>) -> Option<Family> {
    if has_prefix(tag, "token:"@) {
        Some(Family::Token)
    } else if has_prefix(tag, "nft:"@) {
        Some(Family::Nft)
    } else if has_prefix(tag, "escrow:"@) {
        Some(Family::Escrow)
    } else if has_prefix(tag, "bounty:"@) {
        Some(Family::Bounty)
    } else if has_prefix(tag, "bollar:"@) {
        Some(Family::Bollar)
    } else {
        None
    }
}

/// No tag lies in two namespaces, so the order in which they are tried does
/// not matter.
pub proof fn lemma_namespaces_disjoint(tag: Seq<char>)
    ensures
        !(has_prefix(tag, "token:"@) && has_prefix(tag, "nft:"@)),
        !(has_prefix(tag, "token:"@) && has_prefix(tag, "escrow:"@)),
        !(has_prefix(tag, "token:"@) && has_prefix(tag, "bounty:"@)),
        !(has_prefix(tag, "token:"@) && has_prefix(tag, "bollar:"@)),
        !(has_prefix(tag, "nft:"@) && has_prefix(tag, "escrow:"@)),
        !(has_prefix(tag, "nft:"@) && has_prefix(tag, "bounty:"@)),
        !(has_prefix(tag, "nft:"@) && has_prefix(tag, "bollar:"@)),
        !(has_prefix(tag, "escrow:"@) && has_prefix(tag, "bounty:"@)),
        !(has_prefix(tag, "escrow:"@) && has_prefix(tag, "bollar:"@)),
        !(has_prefix(tag, "bounty:"@) && has_prefix(tag, "bollar:"@)),
{
    reveal_strlit("token:");
    reveal_strlit("nft:");
    reveal_strlit("escrow:");
    reveal_strlit("bounty:");
    reveal_strlit("bollar:");
    lemma_prefix_chars(tag, "token:"@);
    lemma_prefix_chars(tag, "nft:"@);
    lemma_prefix_chars(tag, "escrow:"@);
    lemma_prefix_chars(tag, "bounty:"@);
    lemma_prefix_chars(tag, "bollar:"@);
    let first = tag[0];
    let third = tag[2];
}

/// A prefix agrees with the text at each of its positions.
proof fn lemma_prefix_chars(s: Seq<char>, p: Seq<char>)
    ensures
        has_prefix(s, p) ==> forall|i: int| 0 <= i < p.len() ==> s[i] == p[i],
{
    if has_prefix(s, p) {
        assert forall|i: int| 0 <= i < p.len() implies s[i] == p[i] by {
            assert(s.subrange(0, p.len() as int)[i] == s[i]);
        }
    }
}

/// Whether the family of rules that the tag selects accepts the transaction;
/// a tag that selects none is rejected.
pub open spec fn spell_accepts(app: App, tx: Transaction, x: Data) -> bool {
    match family_of(app.tag@) {
        Some(Family::Token) => token_accepts(tx, app.tag@, x),
        Some(Family::Nft) => nft_accepts(tx, app.tag@, x),
        Some(Family::Escrow) => escrow_accepts(tx, app.tag@),
        Some(Family::Bounty) => bounty_accepts(tx, app.tag@),
        Some(Family::Bollar) => token_accepts(tx, app.tag@, x),
        None => false,
    }
}

/// The report for a tag that selects no family: rejected with a reason that
/// names the tag, and no family-specific field.
pub open spec fn unknown_report_ok(r: CheckResult, tag: Seq<char>) -> bool {
    &&& !r.valid
    &&& r.family is None
    &&& r.errors@.len() == 1
    &&& (r.errors@[0] matches Rejection::UnknownApp(t) && t@ == tag)
    &&& r.input_sum is None && r.output_sum is None
    &&& r.is_mint is None && r.is_burn is None
    &&& r.current_state is None && r.next_state is None
    &&& r.state_transition_valid is None
    &&& r.nft_ids is None && r.duplicate_nfts is None
}

/// Whether `p` is a prefix of `s`.
pub fn starts_with(s: &str, p: &str) -> (r: bool)
    ensures
        r == has_prefix(s@, p@),
{
    let n = s.unicode_len();
    let m = p.unicode_len();
    if m > n {
        return false;
    }
    let mut i: usize = 0;
    while i < m
        invariant
            n == s@.len(),
            m == p@.len(),
            m <= n,
            i <= m,
            forall|j: int| 0 <= j < i ==> s@[j] == p@[j],
        decreases m - i,
    {
        if s.get_char(i) != p.get_char(i) {
            assert(s@.subrange(0, m as int)[i as int] != p@[i as int]);
            return false;
        }
        i += 1;
    }
    assert(s@.subrange(0, m as int) =~= p@);
    true
}

/// The family that a tag's namespace selects, if any.
pub fn family_of_tag(tag: &str) -> (r: Option<Family>)
    ensures
        r == family_of(tag@),
{
    if starts_with(tag, "token:") {
        Some(Family::Token)
    } else if starts_with(tag, "nft:") {
        Some(Family::Nft)
    } else if starts_with(tag, "escrow:") {
        Some(Family::Escrow)
    } else if starts_with(tag, "bounty:") {
        Some(Family::Bounty)
    } else if starts_with(tag, "bollar:") {
        Some(Family::Bollar)
    } else {
        None
    }
}

/// Applies the family of rules that the application's tag selects, and
/// reports the outcome; a tag that selects no family is rejected with a
/// reason that names it.
pub fn check_spell_report(app: &App, tx: &Transaction, x: &Data, _w: &Data) -> (r: CheckResult)
    ensures
        r.valid == spell_accepts(*app, *tx, *x),
        r.valid == (r.errors@.len() == 0),
        r.family == family_of(app.tag@),
        match family_of(app.tag@) {
            Some(Family::Token) => fungible_report_ok(r, *tx, app.tag@, *x, Family::Token),
            Some(Family::Nft) => nft_report_ok(r, *tx, app.tag@, *x),
            Some(Family::Escrow) => escrow_report_ok(r, *tx, app.tag@),
            Some(Family::Bounty) => bounty_report_ok(r, *tx, app.tag@),
            Some(Family::Bollar) => fungible_report_ok(r, *tx, app.tag@, *x, Family::Bollar),
            None => unknown_report_ok(r, app.tag@),
        },
{
    match family_of_tag(app.tag.as_str()) {
        Some(Family::Token) => token_report(app, tx, x),
        Some(Family::Nft) => nft_report(app, tx, x),
        Some(Family::Escrow) => escrow_report(app, tx),
        Some(Family::Bounty) => bounty_report(app, tx),
        Some(Family::Bollar) => bollar_report(app, tx, x),
        None => {
            let mut r = CheckResult::blank(None);
            r.valid = false;
            r.errors.push(Rejection::UnknownApp(app.tag.clone()));
            r
        },
    }
}

/// Whether the family of rules that the application's tag selects accepts
/// the transaction.
pub fn check_spell(app: &App, tx: &Transaction, x: &Data, w: &Data) -> (r: bool)
    ensures
        r == spell_accepts(*app, *tx, *x),
{
    check_spell_report(app, tx, x, w).valid
}

} // verus!
