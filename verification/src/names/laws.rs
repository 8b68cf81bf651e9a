//! Properties of the first-claim ownership rule, stated over the functions
//! that `NameStore::upsert` is specified by.

use vstd::prelude::*;

use crate::names::claim::{claim_beats, NameClaimView};
use crate::names::store::{lookup, upsert_decision, upsert_effect, UpsertResultView};
use crate::text::{lemma_seq_lt_asymmetric, lemma_seq_lt_total, seq_lt};

verus! {

/// A claim that is stored (inserted or updated) is what a later lookup of its
/// name gives back.
pub proof fn law_stored_claim_is_found(m: Map<Seq<char>, NameClaimView>, c: NameClaimView)
    requires
        upsert_decision(lookup(m, c.name), c) matches UpsertResultView::Inserted
            || upsert_decision(lookup(m, c.name), c) matches UpsertResultView::Updated,
    ensures
        lookup(upsert_effect(m, c), c.name) == Some(c),
{
}

/// Storing the same claim again is a replay: it changes nothing, and it is
/// reported stale (or, when the first attempt was refused, refused again).
pub proof fn law_replay_is_stale(m: Map<Seq<char>, NameClaimView>, c: NameClaimView)
    ensures
        upsert_decision(lookup(upsert_effect(m, c), c.name), c) matches UpsertResultView::Stale
            || upsert_decision(lookup(upsert_effect(m, c), c.name), c) matches UpsertResultView::Rejected { .. },
        upsert_effect(upsert_effect(m, c), c) == upsert_effect(m, c),
{
    let m1 = upsert_effect(m, c);
    match upsert_decision(lookup(m, c.name), c) {
        UpsertResultView::Inserted | UpsertResultView::Updated => {
            assert(lookup(m1, c.name) == Some(c));
        },
        _ => {},
    }
}

/// A claim from another key that does not beat the owner's claim leaves the
/// store unchanged, and the refusal names the owner.
pub proof fn law_owner_keeps_name(m: Map<Seq<char>, NameClaimView>, c: NameClaimView)
    requires
        m.dom().contains(c.name),
        m[c.name].pubkey != c.pubkey,
        !claim_beats(c, m[c.name]),
    ensures
        upsert_effect(m, c) == m,
        upsert_decision(lookup(m, c.name), c) == (UpsertResultView::Rejected { owner: m[c.name].pubkey }),
{
}

/// Under the same owner the stored sequence number never decreases.
pub proof fn law_owner_sequence_never_decreases(m: Map<Seq<char>, NameClaimView>, c: NameClaimView)
    requires
        m.dom().contains(c.name),
        m[c.name].pubkey == c.pubkey,
    ensures
        upsert_effect(m, c)[c.name].sequence >= m[c.name].sequence,
        upsert_effect(m, c)[c.name].pubkey == m[c.name].pubkey,
{
}

/// Two conflicting first claims for an unclaimed name, from different keys,
/// leave the same owner whichever arrives first: no coordination is needed.
pub proof fn law_first_claim_is_order_independent(
    m: Map<Seq<char>, NameClaimView>,
    c1: NameClaimView,
    c2: NameClaimView,
)
    requires
        !m.dom().contains(c1.name),
        c1.name == c2.name,
        c1.pubkey != c2.pubkey,
    ensures
        lookup(upsert_effect(upsert_effect(m, c1), c2), c1.name) == lookup(
            upsert_effect(upsert_effect(m, c2), c1),
            c1.name,
        ),
        lookup(upsert_effect(upsert_effect(m, c1), c2), c1.name) == Some(
            if claim_beats(c1, c2) {
                c1
            } else {
                c2
            },
        ),
{
    lemma_seq_lt_total(c1.pubkey, c2.pubkey);
    lemma_seq_lt_asymmetric(c1.pubkey, c2.pubkey);
    let a = upsert_effect(m, c1);
    let b = upsert_effect(m, c2);
    assert(lookup(a, c1.name) == Some(c1));
    assert(lookup(b, c2.name) == Some(c2));
}


/// The first-claim rule, case by case, as the store applies it to a claim
/// `c` whose signature verifies: an unclaimed name is taken; the owner's
/// claim with a strictly higher sequence number replaces the stored one and
/// any other sequence number is a stale replay; a different key's claim
/// replaces the stored one exactly when it was made earlier, or at the same
/// second by a lexicographically lower pubkey, and is refused otherwise,
/// naming the owner. No other name is touched.
pub proof fn law_upsert_follows_the_first_claim_rule(m: Map<Seq<char>, NameClaimView>, c: NameClaimView)
    ensures
        forall|k: Seq<char>| k != c.name ==> lookup(upsert_effect(m, c), k) == lookup(m, k),
        !m.dom().contains(c.name) ==> upsert_decision(lookup(m, c.name), c) == UpsertResultView::Inserted
            && lookup(upsert_effect(m, c), c.name) == Some(c),
        m.dom().contains(c.name) && m[c.name].pubkey == c.pubkey && c.sequence > m[c.name].sequence
            ==> upsert_decision(lookup(m, c.name), c) == UpsertResultView::Updated && lookup(
            upsert_effect(m, c),
            c.name,
        ) == Some(c),
        m.dom().contains(c.name) && m[c.name].pubkey == c.pubkey && c.sequence <= m[c.name].sequence
            ==> upsert_decision(lookup(m, c.name), c) == UpsertResultView::Stale && upsert_effect(m, c) == m,
        m.dom().contains(c.name) && m[c.name].pubkey != c.pubkey && (c.claimed_at < m[c.name].claimed_at || (
        c.claimed_at == m[c.name].claimed_at && seq_lt(c.pubkey, m[c.name].pubkey)))
            ==> upsert_decision(lookup(m, c.name), c) == UpsertResultView::Updated && lookup(
            upsert_effect(m, c),
            c.name,
        ) == Some(c),
        m.dom().contains(c.name) && m[c.name].pubkey != c.pubkey && !(c.claimed_at < m[c.name].claimed_at
            || (c.claimed_at == m[c.name].claimed_at && seq_lt(c.pubkey, m[c.name].pubkey)))
            ==> upsert_decision(lookup(m, c.name), c) == (UpsertResultView::Rejected {
            owner: m[c.name].pubkey,
        }) && upsert_effect(m, c) == m,
{
    assert forall|k: Seq<char>| k != c.name implies lookup(upsert_effect(m, c), k) == lookup(m, k) by {}
}

} // verus!
