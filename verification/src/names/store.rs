//! The local store of name claims, keyed by name and kept in name order.
//!
//! The store enforces the first-claim ownership rule:
//! - a new name is inserted on its first valid claim;
//! - the same pubkey may update it with a higher `sequence`;
//! - a different pubkey replaces the owner only when its claim beats the
//!   stored one (earlier `claimed_at`, ties to the lower pubkey).

use vstd::prelude::*;

use crate::names::claim::{claim_beats, claim_check, NameClaim, NameClaimView};
use crate::seqs::{lemma_filter_pairwise, lemma_filter_take_step};
use crate::signing::VerifyError;
use crate::names::validate::{parse_scope, scope_of};
use crate::text::{lemma_seq_lt_irreflexive, lemma_seq_lt_total, lemma_seq_lt_transitive, seq_lt, str_eq, str_lt};

verus! {

/// Result of attempting to store a claim.
#[derive(Debug, Clone, PartialEq, Eq)]
pub enum UpsertResult {
    /// The name was not previously claimed; claim inserted.
    Inserted,
    /// The same pubkey gave a higher sequence, or a different pubkey's claim
    /// beat the stored one; claim stored.
    Updated,
    /// A different pubkey owns the name and its claim wins; claim refused.
    Rejected { owner: String },
    /// The incoming claim's sequence is not above the stored one for the same
    /// pubkey; ignored as a replay.
    Stale,
}

/// The mathematical value of an `UpsertResult`.
pub enum UpsertResultView {
    Inserted,
    Updated,
    Rejected { owner: Seq<char> },
    Stale,
}

impl View for UpsertResult {
    type V = UpsertResultView;

    open spec fn view(&self) -> UpsertResultView {
        match self {
            UpsertResult::Inserted => UpsertResultView::Inserted,
            UpsertResult::Updated => UpsertResultView::Updated,
            UpsertResult::Rejected { owner } => UpsertResultView::Rejected { owner: owner@ },
            UpsertResult::Stale => UpsertResultView::Stale,
        }
    }
}

/// The claim stored under `name`, if any.
pub open spec fn lookup(m: Map<Seq<char>, NameClaimView>, name: Seq<char>) -> Option<NameClaimView> {
    if m.dom().contains(name) {
        Some(m[name])
    } else {
        None
    }
}

/// What storing `incoming` amounts to, given the claim stored under its name.
pub open spec fn upsert_decision(existing: Option<NameClaimView>, incoming: NameClaimView) -> UpsertResultView {
    match existing {
        None => UpsertResultView::Inserted,
        Some(ex) => if ex.pubkey == incoming.pubkey {
            if incoming.sequence > ex.sequence {
                UpsertResultView::Updated
            } else {
                UpsertResultView::Stale
            }
        } else if claim_beats(incoming, ex) {
            UpsertResultView::Updated
        } else {
            UpsertResultView::Rejected { owner: ex.pubkey }
        },
    }
}

/// The store's contents after storing a verified `incoming`.
pub open spec fn upsert_effect(m: Map<Seq<char>, NameClaimView>, incoming: NameClaimView) -> Map<
    Seq<char>,
    NameClaimView,
> {
    match upsert_decision(lookup(m, incoming.name), incoming) {
        UpsertResultView::Inserted | UpsertResultView::Updated => m.insert(incoming.name, incoming),
        _ => m,
    }
}

/// Claim views in strictly increasing name order (so no name twice).
pub open spec fn names_sorted(s: Seq<NameClaimView>) -> bool {
    forall|i: int, j: int| 0 <= i < j < s.len() ==> seq_lt(#[trigger] s[i].name, #[trigger] s[j].name)
}

/// The map from name to claim of a sequence of claims.
pub open spec fn map_of(s: Seq<NameClaimView>) -> Map<Seq<char>, NameClaimView> {
    Map::new(
        |k: Seq<char>| exists|i: int| 0 <= i < s.len() && s[i].name == k,
        |k: Seq<char>| s[choose|i: int| 0 <= i < s.len() && s[i].name == k],
    )
}

/// The claims of `m` that satisfy `p`.
pub open spec fn filter_claims(
    m: Map<Seq<char>, NameClaimView>,
    p: spec_fn(NameClaimView) -> bool,
) -> Map<Seq<char>, NameClaimView> {
    Map::new(|k: Seq<char>| m.dom().contains(k) && p(m[k]), |k: Seq<char>| m[k])
}

pub proof fn lemma_map_of_index(s: Seq<NameClaimView>, i: int)
    requires
        names_sorted(s),
        0 <= i < s.len(),
    ensures
        map_of(s).dom().contains(s[i].name),
        map_of(s)[s[i].name] == s[i],
{
    let k = s[i].name;
    assert(exists|j: int| 0 <= j < s.len() && s[j].name == k);
    let j = choose|j: int| 0 <= j < s.len() && s[j].name == k;
    if j != i {
        lemma_seq_lt_irreflexive(k);
        if j < i {
            assert(seq_lt(s[j].name, s[i].name));
        } else {
            assert(seq_lt(s[i].name, s[j].name));
        }
    }
}

pub proof fn lemma_map_of_contains(s: Seq<NameClaimView>, k: Seq<char>)
    requires
        names_sorted(s),
        map_of(s).dom().contains(k),
    ensures
        exists|i: int| 0 <= i < s.len() && s[i].name == k && map_of(s)[k] == s[i],
{
    let i = choose|i: int| 0 <= i < s.len() && s[i].name == k;
    lemma_map_of_index(s, i);
}

/// Inserting a claim with a new name at its place in name order.
pub proof fn lemma_map_of_insert(s: Seq<NameClaimView>, p: int, c: NameClaimView)
    requires
        names_sorted(s),
        0 <= p <= s.len(),
        forall|j: int| 0 <= j < p ==> seq_lt(#[trigger] s[j].name, c.name),
        forall|j: int| p <= j < s.len() ==> seq_lt(c.name, #[trigger] s[j].name),
    ensures
        names_sorted(s.insert(p, c)),
        map_of(s.insert(p, c)) == map_of(s).insert(c.name, c),
{
    let t = s.insert(p, c);
    assert forall|i: int, j: int| 0 <= i < j < t.len() implies seq_lt(#[trigger] t[i].name, #[trigger] t[j].name) by {
        if j < p {
        } else if j == p {
        } else if i < p {
            assert(t[j] == s[j - 1]);
            lemma_seq_lt_transitive(s[i].name, c.name, s[j - 1].name);
        } else if i == p {
            assert(t[j] == s[j - 1]);
        } else {
            assert(t[i] == s[i - 1]);
            assert(t[j] == s[j - 1]);
        }
    }
    let m1 = map_of(t);
    let m2 = map_of(s).insert(c.name, c);
    assert forall|k: Seq<char>| m1.dom().contains(k) <==> m2.dom().contains(k) by {
        if m1.dom().contains(k) {
            let i = choose|i: int| 0 <= i < t.len() && t[i].name == k;
            if i < p {
                assert(s[i].name == k);
            } else if i > p {
                assert(s[i - 1].name == k);
            }
        }
        if m2.dom().contains(k) && k != c.name {
            let i = choose|i: int| 0 <= i < s.len() && s[i].name == k;
            if i < p {
                assert(t[i].name == k);
            } else {
                assert(t[i + 1].name == k);
            }
        }
        if k == c.name {
            assert(t[p].name == k);
        }
    }
    assert forall|k: Seq<char>| #[trigger] m1.dom().contains(k) implies m1[k] == m2[k] by {
        lemma_map_of_contains(t, k);
        let i = choose|i: int| 0 <= i < t.len() && t[i].name == k && m1[k] == t[i];
        lemma_seq_lt_irreflexive(c.name);
        if i < p {
            assert(t[i] == s[i]);
            lemma_map_of_index(s, i);
        } else if i > p {
            assert(t[i] == s[i - 1]);
            lemma_map_of_index(s, i - 1);
        }
    }
    assert(m1 =~= m2);
}

/// Replacing a claim by one of the same name.
pub proof fn lemma_map_of_update(s: Seq<NameClaimView>, i: int, c: NameClaimView)
    requires
        names_sorted(s),
        0 <= i < s.len(),
        s[i].name == c.name,
    ensures
        names_sorted(s.update(i, c)),
        map_of(s.update(i, c)) == map_of(s).insert(c.name, c),
{
    let t = s.update(i, c);
    assert forall|a: int, b: int| 0 <= a < b < t.len() implies seq_lt(#[trigger] t[a].name, #[trigger] t[b].name) by {
        assert(t[a].name == s[a].name);
        assert(t[b].name == s[b].name);
    }
    let m1 = map_of(t);
    let m2 = map_of(s).insert(c.name, c);
    lemma_map_of_index(s, i);
    assert forall|k: Seq<char>| m1.dom().contains(k) <==> m2.dom().contains(k) by {
        if m1.dom().contains(k) {
            let j = choose|j: int| 0 <= j < t.len() && t[j].name == k;
            assert(s[j].name == k);
        }
        if m2.dom().contains(k) {
            if k == c.name {
                assert(t[i].name == k);
            } else {
                let j = choose|j: int| 0 <= j < s.len() && s[j].name == k;
                assert(t[j].name == k);
            }
        }
    }
    assert forall|k: Seq<char>| #[trigger] m1.dom().contains(k) implies m1[k] == m2[k] by {
        lemma_map_of_contains(t, k);
        let j = choose|j: int| 0 <= j < t.len() && t[j].name == k && m1[k] == t[j];
        if j != i {
            lemma_map_of_index(s, j);
            lemma_seq_lt_irreflexive(c.name);
            assert(t[j] == s[j]);
            if j < i {
                assert(seq_lt(s[j].name, s[i].name));
            } else {
                assert(seq_lt(s[i].name, s[j].name));
            }
        }
    }
    assert(m1 =~= m2);
}

/// Removing a claim.
pub proof fn lemma_map_of_remove(s: Seq<NameClaimView>, i: int)
    requires
        names_sorted(s),
        0 <= i < s.len(),
    ensures
        names_sorted(s.remove(i)),
        map_of(s.remove(i)) == map_of(s).remove(s[i].name),
{
    let t = s.remove(i);
    let name = s[i].name;
    assert forall|a: int, b: int| 0 <= a < b < t.len() implies seq_lt(#[trigger] t[a].name, #[trigger] t[b].name) by {
        let a2 = if a < i { a } else { a + 1 };
        let b2 = if b < i { b } else { b + 1 };
        assert(t[a] == s[a2]);
        assert(t[b] == s[b2]);
    }
    let m1 = map_of(t);
    let m2 = map_of(s).remove(name);
    assert forall|k: Seq<char>| m1.dom().contains(k) <==> m2.dom().contains(k) by {
        if m1.dom().contains(k) {
            let j = choose|j: int| 0 <= j < t.len() && t[j].name == k;
            let j2 = if j < i { j } else { j + 1 };
            assert(s[j2].name == k);
            lemma_seq_lt_irreflexive(k);
            if j2 < i {
                assert(seq_lt(s[j2].name, s[i].name));
            } else {
                assert(seq_lt(s[i].name, s[j2].name));
            }
        }
        if m2.dom().contains(k) {
            let j = choose|j: int| 0 <= j < s.len() && s[j].name == k;
            if j < i {
                assert(t[j].name == k);
            } else {
                assert(t[j - 1].name == k);
            }
        }
    }
    assert forall|k: Seq<char>| #[trigger] m1.dom().contains(k) implies m1[k] == m2[k] by {
        lemma_map_of_contains(t, k);
        let j = choose|j: int| 0 <= j < t.len() && t[j].name == k && m1[k] == t[j];
        if j < i {
            lemma_map_of_index(s, j);
        } else {
            lemma_map_of_index(s, j + 1);
        }
    }
    assert(m1 =~= m2);
}

/// A filtered sorted sequence is sorted.
pub proof fn lemma_filter_sorted(s: Seq<NameClaimView>, p: spec_fn(NameClaimView) -> bool)
    requires
        names_sorted(s),
    ensures
        names_sorted(s.filter(p)),
{
    let rel = |a: NameClaimView, b: NameClaimView| seq_lt(a.name, b.name);
    assert forall|i: int, j: int| 0 <= i < j < s.len() implies #[trigger] rel(s[i], s[j]) by {}
    lemma_filter_pairwise(s, p, rel);
    let f = s.filter(p);
    assert forall|i: int, j: int| 0 <= i < j < f.len() implies seq_lt(#[trigger] f[i].name, #[trigger] f[j].name) by {
        assert(rel(f[i], f[j]));
    }
}

/// The map of a filtered sorted sequence keeps exactly the claims satisfying `p`.
pub proof fn lemma_map_of_filter(s: Seq<NameClaimView>, p: spec_fn(NameClaimView) -> bool)
    requires
        names_sorted(s),
    ensures
        names_sorted(s.filter(p)),
        map_of(s.filter(p)) == filter_claims(map_of(s), p),
{
    lemma_filter_sorted(s, p);
    broadcast use vstd::seq_lib::group_filter_ensures;
    let f = s.filter(p);
    let m1 = map_of(f);
    let m2 = filter_claims(map_of(s), p);
    assert forall|j: int| 0 <= j < f.len() implies exists|i: int|
        0 <= i < s.len() && s[i] == #[trigger] f[j] && p(s[i]) by {
        assert(f.contains(f[j]));
        s.lemma_filter_contains_rev(p, f[j]);
        let i = choose|i: int| 0 <= i < s.len() && s[i] == f[j];
        assert(p(f[j]));
    }
    assert forall|k: Seq<char>| m1.dom().contains(k) <==> m2.dom().contains(k) by {
        if m1.dom().contains(k) {
            let j = choose|j: int| 0 <= j < f.len() && f[j].name == k;
            let i = choose|i: int| 0 <= i < s.len() && s[i] == #[trigger] f[j] && p(s[i]);
            lemma_map_of_index(s, i);
        }
        if m2.dom().contains(k) {
            lemma_map_of_contains(s, k);
            let i = choose|i: int| 0 <= i < s.len() && s[i].name == k && map_of(s)[k] == s[i];
            assert(f.contains(s[i]));
            let j = choose|j: int| 0 <= j < f.len() && f[j] == s[i];
            assert(f[j].name == k);
        }
    }
    assert forall|k: Seq<char>| #[trigger] m1.dom().contains(k) implies m1[k] == m2[k] by {
        lemma_map_of_contains(f, k);
        let j = choose|j: int| 0 <= j < f.len() && f[j].name == k && m1[k] == f[j];
        let i = choose|i: int| 0 <= i < s.len() && s[i] == #[trigger] f[j] && p(s[i]);
        lemma_map_of_index(s, i);
    }
    assert(m1 =~= m2);
}

/// Which claims a listing returns.
pub enum ClaimFilter<'a> {
    /// Every claim.
    All,
    /// Claims owned by this hex pubkey.
    OwnedBy(&'a str),
    /// Claims whose scope (the text after the first `@` of the name) is this one.
    InScope(&'a str),
}

/// Whether a claim passes a listing filter.
pub open spec fn filter_holds(f: ClaimFilter, c: NameClaimView) -> bool {
    match f {
        ClaimFilter::All => true,
        ClaimFilter::OwnedBy(pk) => c.pubkey == pk@,
        ClaimFilter::InScope(scope) => scope_of(c.name) == Some(scope@),
    }
}

/// A sorted sequence has as many names as elements.
pub proof fn lemma_map_of_len(s: Seq<NameClaimView>)
    requires
        names_sorted(s),
    ensures
        map_of(s).dom().finite(),
        map_of(s).len() == s.len(),
    decreases s.len(),
{
    if s.len() == 0 {
        assert(map_of(s).dom() =~= Set::<Seq<char>>::empty());
    } else {
        let t = s.drop_last();
        let c = s.last();
        assert forall|j: int| 0 <= j < t.len() implies seq_lt(#[trigger] t[j].name, c.name) by {
            assert(t[j] == s[j]);
        }
        assert(names_sorted(t)) by {
            assert forall|a: int, b: int| 0 <= a < b < t.len() implies seq_lt(#[trigger] t[a].name, #[trigger] t[b].name) by {
                assert(t[a] == s[a]);
                assert(t[b] == s[b]);
            }
        }
        lemma_map_of_len(t);
        lemma_map_of_insert(t, t.len() as int, c);
        assert(t.insert(t.len() as int, c) =~= s);
        assert(!map_of(t).dom().contains(c.name)) by {
            if map_of(t).dom().contains(c.name) {
                let j = choose|j: int| 0 <= j < t.len() && t[j].name == c.name;
                lemma_seq_lt_irreflexive(c.name);
            }
        }
    }
}

/// A local store of name claims.
pub struct NameStore {
    claims: Vec<NameClaim>,
}

impl View for NameStore {
    type V = Map<Seq<char>, NameClaimView>;

    closed spec fn view(&self) -> Map<Seq<char>, NameClaimView> {
        map_of(self.entries())
    }
}

impl NameStore {
    /// The stored claims in name order.
    pub closed spec fn entries(&self) -> Seq<NameClaimView> {
        self.claims@.map_values(|c: NameClaim| c@)
    }

    #[verifier::type_invariant]
    closed spec fn sorted(&self) -> bool {
        names_sorted(self.entries())
    }

    /// Each stored claim is kept under its own name.
    pub proof fn lemma_keyed_by_name(&self)
        ensures
            forall|k: Seq<char>| #[trigger] self@.dom().contains(k) ==> self@[k].name == k,
    {
        assert forall|k: Seq<char>| #[trigger] self@.dom().contains(k) implies self@[k].name == k by {
            let s = self.entries();
            let i = choose|i: int| 0 <= i < s.len() && s[i].name == k;
        }
    }

    /// An empty store.
    pub fn new() -> (r: NameStore)
        ensures
            r@ == Map::<Seq<char>, NameClaimView>::empty(),
    {
        let r = NameStore { claims: Vec::new() };
        assert(r@ =~= Map::<Seq<char>, NameClaimView>::empty());
        r
    }

    /// Index of the claim named `name`, if stored.
    fn position(&self, name: &str) -> (r: Option<usize>)
        ensures
            match r {
                Some(i) => i < self.entries().len() && self.entries()[i as int].name == name@,
                None => forall|i: int| 0 <= i < self.entries().len() ==> self.entries()[i].name != name@,
            },
            r is Some <==> self@.dom().contains(name@),
            r matches Some(i) ==> self@[name@] == self.entries()[i as int],
    {
        proof {
            use_type_invariant(self);
        }
        let n = self.claims.len();
        let mut i: usize = 0;
        while i < n
            invariant
                n == self.claims@.len(),
                i <= n,
                names_sorted(self.entries()),
                forall|j: int| 0 <= j < i ==> self.entries()[j].name != name@,
            decreases n - i,
        {
            if str_eq(self.claims[i].name.as_str(), name) {
                proof {
                    lemma_map_of_index(self.entries(), i as int);
                }
                return Some(i);
            }
            i = i + 1;
        }
        None
    }

    /// Number of claims stored before which a claim named `name` belongs.
    fn insertion_point(&self, name: &str) -> (r: usize)
        requires
            !self@.dom().contains(name@),
        ensures
            r <= self.entries().len(),
            forall|j: int| 0 <= j < r ==> seq_lt(#[trigger] self.entries()[j].name, name@),
            forall|j: int| r <= j < self.entries().len() ==> seq_lt(name@, #[trigger] self.entries()[j].name),
    {
        proof {
            use_type_invariant(self);
        }
        let n = self.claims.len();
        let mut i: usize = 0;
        while i < n
            invariant
                n == self.claims@.len(),
                i <= n,
                names_sorted(self.entries()),
                !self@.dom().contains(name@),
                forall|j: int| 0 <= j < i ==> seq_lt(#[trigger] self.entries()[j].name, name@),
            decreases n - i,
        {
            if str_lt(name, self.claims[i].name.as_str()) {
                assert forall|j: int| i <= j < self.entries().len() implies seq_lt(
                    name@,
                    #[trigger] self.entries()[j].name,
                ) by {
                    if j > i {
                        lemma_seq_lt_transitive(name@, self.entries()[i as int].name, self.entries()[j].name);
                    }
                }
                return i;
            }
            proof {
                let k = self.entries()[i as int].name;
                assert(self.entries()[i as int].name == k);
                if k == name@ {
                    lemma_map_of_index(self.entries(), i as int);
                }
                lemma_seq_lt_total(k, name@);
            }
            i = i + 1;
        }
        i
    }

    /// Attempt to insert or update a claim, enforcing the ownership rules.
    ///
    /// A claim whose signature does not verify is refused with the reason and
    /// leaves the store as it was; otherwise the outcome follows
    /// `upsert_decision` and the store becomes `upsert_effect`.
    pub fn upsert(&mut self, incoming: &NameClaim) -> (r: Result<UpsertResult, VerifyError>)
        ensures
            claim_check(incoming@) matches Err(e) ==> r == Err::<UpsertResult, VerifyError>(e)
                && final(self)@ == old(self)@,
            claim_check(incoming@) is Ok ==> (r matches Ok(u) && u@ == upsert_decision(
                lookup(old(self)@, incoming@.name),
                incoming@,
            )) && final(self)@ == upsert_effect(old(self)@, incoming@),
    {
        proof {
            use_type_invariant(&*self);
        }
        match incoming.verify() {
            Err(e) => {
                return Err(e);
            },
            Ok(()) => {},
        }
        let ghost old_e = self.entries();
        match self.position(incoming.name.as_str()) {
            None => {
                let p = self.insertion_point(incoming.name.as_str());
                let c = incoming.clone();
                let mut claims = Vec::new();
                std::mem::swap(&mut claims, &mut self.claims);
                claims.insert(p, c);
                proof {
                    assert(claims@.map_values(|c: NameClaim| c@) =~= old_e.insert(p as int, incoming@));
                    lemma_map_of_insert(old_e, p as int, incoming@);
                }
                self.claims = claims;
                Ok(UpsertResult::Inserted)
            },
            Some(i) => {
                let same_owner = str_eq(self.claims[i].pubkey.as_str(), incoming.pubkey.as_str());
                let wins = if same_owner {
                    incoming.sequence > self.claims[i].sequence
                } else {
                    incoming.beats(&self.claims[i])
                };
                if wins {
                    let c = incoming.clone();
                    let mut claims = Vec::new();
                    std::mem::swap(&mut claims, &mut self.claims);
                    claims[i] = c;
                    proof {
                        assert(claims@.map_values(|c: NameClaim| c@) =~= old_e.update(i as int, incoming@));
                        lemma_map_of_update(old_e, i as int, incoming@);
                    }
                    self.claims = claims;
                    Ok(UpsertResult::Updated)
                } else if same_owner {
                    Ok(UpsertResult::Stale)
                } else {
                    Ok(UpsertResult::Rejected { owner: self.claims[i].pubkey.clone() })
                }
            },
        }
    }

    /// Remove the claim for `name`, if any.
    pub fn delete(&mut self, name: &str)
        ensures
            final(self)@ == old(self)@.remove(name@),
    {
        proof {
            use_type_invariant(&*self);
        }
        let ghost old_e = self.entries();
        match self.position(name) {
            None => {
                assert(old(self)@.remove(name@) =~= old(self)@);
            },
            Some(i) => {
                let mut claims = Vec::new();
                std::mem::swap(&mut claims, &mut self.claims);
                claims.remove(i);
                proof {
                    assert(claims@.map_values(|c: NameClaim| c@) =~= old_e.remove(i as int));
                    lemma_map_of_remove(old_e, i as int);
                }
                self.claims = claims;
            },
        }
    }

    /// The pubkey that owns `name`, or `None` if the name is not known.
    pub fn resolve(&self, name: &str) -> (r: Option<String>)
        ensures
            match lookup(self@, name@) {
                Some(c) => r matches Some(pk) && pk@ == c.pubkey,
                None => r is None,
            },
    {
        match self.position(name) {
            Some(i) => Some(self.claims[i].pubkey.clone()),
            None => None,
        }
    }

    /// The full claim for `name`, or `None`.
    pub fn get(&self, name: &str) -> (r: Option<NameClaim>)
        ensures
            match lookup(self@, name@) {
                Some(c) => r matches Some(x) && x@ == c,
                None => r is None,
            },
    {
        match self.position(name) {
            Some(i) => Some(self.claims[i].clone()),
            None => None,
        }
    }

    /// Total number of stored claims.
    pub fn count(&self) -> (r: usize)
        ensures
            r == self@.len(),
    {
        proof {
            use_type_invariant(self);
            lemma_map_of_len(self.entries());
        }
        self.claims.len()
    }

    /// The stored claims that pass `filter`, in name order.
    pub fn list(&self, filter: ClaimFilter) -> (r: Vec<NameClaim>)
        ensures
            names_sorted(r@.map_values(|c: NameClaim| c@)),
            map_of(r@.map_values(|c: NameClaim| c@)) == filter_claims(
                self@,
                |c: NameClaimView| filter_holds(filter, c),
            ),
    {
        proof {
            use_type_invariant(self);
        }
        let ghost p = |c: NameClaimView| filter_holds(filter, c);
        let ghost e = self.entries();
        let n = self.claims.len();
        let mut out: Vec<NameClaim> = Vec::new();
        let mut i: usize = 0;
        while i < n
            invariant
                n == e.len(),
                e == self.entries(),
                i <= n,
                p == (|c: NameClaimView| filter_holds(filter, c)),
                out@.map_values(|c: NameClaim| c@) == e.take(i as int).filter(p),
            decreases n - i,
        {
            let c = &self.claims[i];
            let keep = match filter {
                ClaimFilter::All => true,
                ClaimFilter::OwnedBy(pk) => str_eq(c.pubkey.as_str(), pk),
                ClaimFilter::InScope(scope) => match parse_scope(c.name.as_str()) {
                    Some(s) => str_eq(s, scope),
                    None => false,
                },
            };
            proof {
                lemma_filter_take_step(e, p, i as int);
            }
            if keep {
                out.push(c.clone());
                assert(out@.map_values(|c: NameClaim| c@) =~= e.take(i as int).filter(p).push(e[i as int]));
            }
            i = i + 1;
        }
        proof {
            assert(e.take(n as int) =~= e);
            lemma_map_of_filter(e, p);
        }
        out
    }

    /// All claims, in name order.
    pub fn all(&self) -> (r: Vec<NameClaim>)
        ensures
            names_sorted(r@.map_values(|c: NameClaim| c@)),
            map_of(r@.map_values(|c: NameClaim| c@)) == self@,
    {
        let r = self.list(ClaimFilter::All);
        assert(filter_claims(self@, |c: NameClaimView| filter_holds(ClaimFilter::All, c)) =~= self@);
        r
    }

    /// All claims owned by `pubkey`, in name order.
    pub fn names_for_pubkey(&self, pubkey: &str) -> (r: Vec<NameClaim>)
        ensures
            names_sorted(r@.map_values(|c: NameClaim| c@)),
            map_of(r@.map_values(|c: NameClaim| c@)) == filter_claims(
                self@,
                |c: NameClaimView| c.pubkey == pubkey@,
            ),
    {
        let r = self.list(ClaimFilter::OwnedBy(pubkey));
        assert(filter_claims(self@, |c: NameClaimView| filter_holds(ClaimFilter::OwnedBy(pubkey), c))
            =~= filter_claims(self@, |c: NameClaimView| c.pubkey == pubkey@));
        r
    }

    /// All claims whose scope matches `scope` (the name is `<local>@<scope>`,
    /// split at its first `@`), in name order.
    pub fn claims_in_scope(&self, scope: &str) -> (r: Vec<NameClaim>)
        ensures
            names_sorted(r@.map_values(|c: NameClaim| c@)),
            map_of(r@.map_values(|c: NameClaim| c@)) == filter_claims(
                self@,
                |c: NameClaimView| scope_of(c.name) == Some(scope@),
            ),
    {
        let r = self.list(ClaimFilter::InScope(scope));
        assert(filter_claims(self@, |c: NameClaimView| filter_holds(ClaimFilter::InScope(scope), c))
            =~= filter_claims(self@, |c: NameClaimView| scope_of(c.name) == Some(scope@)));
        r
    }
}

} // verus!