//! The local store of signed pointers: one pointer per owner pubkey, the one
//! with the highest version seen.

use vstd::prelude::*;

use crate::pointer::signed::{pointer_check, verify_pointer, SignedPointer, SignedPointerView};
use crate::signing::VerifyError;
use crate::text::str_eq;

verus! {

/// No two pointers share an owner.
pub open spec fn owners_unique(s: Seq<SignedPointerView>) -> bool {
    forall|i: int, j: int| 0 <= i < j < s.len() ==> #[trigger] s[i].pubkey != #[trigger] s[j].pubkey
}

/// The map from owner pubkey to pointer of a sequence of pointers.
pub open spec fn pointer_map(s: Seq<SignedPointerView>) -> Map<Seq<char>, SignedPointerView> {
    Map::new(
        |k: Seq<char>| exists|i: int| 0 <= i < s.len() && s[i].pubkey == k,
        |k: Seq<char>| s[choose|i: int| 0 <= i < s.len() && s[i].pubkey == k],
    )
}

/// The pointer stored for `pubkey`, if any.
pub open spec fn pointer_for(m: Map<Seq<char>, SignedPointerView>, pubkey: Seq<char>) -> Option<
    SignedPointerView,
> {
    if m.dom().contains(pubkey) {
        Some(m[pubkey])
    } else {
        None
    }
}

/// Whether `p` replaces what is stored: nothing is stored for its owner, or
/// its version is strictly higher.
pub open spec fn pointer_supersedes(m: Map<Seq<char>, SignedPointerView>, p: SignedPointerView) -> bool {
    match pointer_for(m, p.pubkey) {
        None => true,
        Some(ex) => p.version > ex.version,
    }
}

/// The store after offering `p`.
pub open spec fn pointer_upsert_effect(m: Map<Seq<char>, SignedPointerView>, p: SignedPointerView) -> Map<
    Seq<char>,
    SignedPointerView,
> {
    if pointer_supersedes(m, p) {
        m.insert(p.pubkey, p)
    } else {
        m
    }
}

pub proof fn lemma_pointer_map_index(s: Seq<SignedPointerView>, i: int)
    requires
        owners_unique(s),
        0 <= i < s.len(),
    ensures
        pointer_map(s).dom().contains(s[i].pubkey),
        pointer_map(s)[s[i].pubkey] == s[i],
{
    let k = s[i].pubkey;
    assert(exists|j: int| 0 <= j < s.len() && s[j].pubkey == k);
    let j = choose|j: int| 0 <= j < s.len() && s[j].pubkey == k;
    if j < i {
        assert(s[j].pubkey != s[i].pubkey);
    } else if j > i {
        assert(s[i].pubkey != s[j].pubkey);
    }
}

pub proof fn lemma_pointer_map_push(s: Seq<SignedPointerView>, p: SignedPointerView)
    requires
        owners_unique(s),
        !pointer_map(s).dom().contains(p.pubkey),
    ensures
        owners_unique(s.push(p)),
        pointer_map(s.push(p)) == pointer_map(s).insert(p.pubkey, p),
{
    let t = s.push(p);
    assert forall|i: int, j: int| 0 <= i < j < t.len() implies #[trigger] t[i].pubkey != #[trigger] t[j].pubkey by {
        if j == s.len() {
            assert(t[i] == s[i]);
            if s[i].pubkey == p.pubkey {
                assert(pointer_map(s).dom().contains(p.pubkey));
            }
        } else {
            assert(t[i] == s[i]);
            assert(t[j] == s[j]);
        }
    }
    let m1 = pointer_map(t);
    let m2 = pointer_map(s).insert(p.pubkey, p);
    assert forall|k: Seq<char>| m1.dom().contains(k) <==> m2.dom().contains(k) by {
        if m1.dom().contains(k) {
            let i = choose|i: int| 0 <= i < t.len() && t[i].pubkey == k;
            if i < s.len() {
                assert(s[i].pubkey == k);
            }
        }
        if m2.dom().contains(k) && k != p.pubkey {
            let i = choose|i: int| 0 <= i < s.len() && s[i].pubkey == k;
            assert(t[i].pubkey == k);
        }
        if k == p.pubkey {
            assert(t[s.len() as int].pubkey == k);
        }
    }
    assert forall|k: Seq<char>| #[trigger] m1.dom().contains(k) implies m1[k] == m2[k] by {
        let i = choose|i: int| 0 <= i < t.len() && t[i].pubkey == k;
        lemma_pointer_map_index(t, i);
        if i < s.len() {
            assert(t[i] == s[i]);
            lemma_pointer_map_index(s, i);
        }
    }
    assert(m1 =~= m2);
}

pub proof fn lemma_pointer_map_update(s: Seq<SignedPointerView>, i: int, p: SignedPointerView)
    requires
        owners_unique(s),
        0 <= i < s.len(),
        s[i].pubkey == p.pubkey,
    ensures
        owners_unique(s.update(i, p)),
        pointer_map(s.update(i, p)) == pointer_map(s).insert(p.pubkey, p),
{
    let t = s.update(i, p);
    assert forall|a: int, b: int| 0 <= a < b < t.len() implies #[trigger] t[a].pubkey != #[trigger] t[b].pubkey by {
        assert(t[a].pubkey == s[a].pubkey);
        assert(t[b].pubkey == s[b].pubkey);
    }
    let m1 = pointer_map(t);
    let m2 = pointer_map(s).insert(p.pubkey, p);
    lemma_pointer_map_index(s, i);
    assert forall|k: Seq<char>| m1.dom().contains(k) <==> m2.dom().contains(k) by {
        if m1.dom().contains(k) {
            let j = choose|j: int| 0 <= j < t.len() && t[j].pubkey == k;
            assert(s[j].pubkey == k);
        }
        if m2.dom().contains(k) {
            if k == p.pubkey {
                assert(t[i].pubkey == k);
            } else {
                let j = choose|j: int| 0 <= j < s.len() && s[j].pubkey == k;
                assert(t[j].pubkey == k);
            }
        }
    }
    assert forall|k: Seq<char>| #[trigger] m1.dom().contains(k) implies m1[k] == m2[k] by {
        let j = choose|j: int| 0 <= j < t.len() && t[j].pubkey == k;
        lemma_pointer_map_index(t, j);
        if j != i {
            assert(t[j] == s[j]);
            lemma_pointer_map_index(s, j);
        }
    }
    assert(m1 =~= m2);
}

/// The local store of signed pointers, keyed by owner pubkey.
pub struct PointerStore {
    pointers: Vec<SignedPointer>,
}

impl View for PointerStore {
    type V = Map<Seq<char>, SignedPointerView>;

    closed spec fn view(&self) -> Map<Seq<char>, SignedPointerView> {
        pointer_map(self.entries())
    }
}

impl PointerStore {
    closed spec fn entries(&self) -> Seq<SignedPointerView> {
        self.pointers@.map_values(|p: SignedPointer| p@)
    }

    #[verifier::type_invariant]
    closed spec fn unique(&self) -> bool {
        owners_unique(self.entries())
    }

    /// Each stored pointer is kept under its own owner's pubkey.
    pub proof fn lemma_keyed_by_pubkey(&self)
        ensures
            forall|k: Seq<char>| #[trigger] self@.dom().contains(k) ==> self@[k].pubkey == k,
    {
        assert forall|k: Seq<char>| #[trigger] self@.dom().contains(k) implies self@[k].pubkey == k by {
            let s = self.entries();
            let i = choose|i: int| 0 <= i < s.len() && s[i].pubkey == k;
        }
    }

    /// An empty store.
    pub fn new() -> (r: PointerStore)
        ensures
            r@ == Map::<Seq<char>, SignedPointerView>::empty(),
    {
        let r = PointerStore { pointers: Vec::new() };
        assert(r@ =~= Map::<Seq<char>, SignedPointerView>::empty());
        r
    }

    fn position(&self, pubkey: &str) -> (r: Option<usize>)
        ensures
            r is Some <==> self@.dom().contains(pubkey@),
            r matches Some(i) ==> i < self.entries().len() && self.entries()[i as int].pubkey == pubkey@
                && self@[pubkey@] == self.entries()[i as int] && self@[pubkey@] == self.pointers@[i as int]@,
    {
        proof {
            use_type_invariant(self);
        }
        let n = self.pointers.len();
        let mut i: usize = 0;
        while i < n
            invariant
                n == self.pointers@.len(),
                i <= n,
                owners_unique(self.entries()),
                forall|j: int| 0 <= j < i ==> self.entries()[j].pubkey != pubkey@,
            decreases n - i,
        {
            if str_eq(self.pointers[i].pubkey.as_str(), pubkey) {
                proof {
                    lemma_pointer_map_index(self.entries(), i as int);
                }
                return Some(i);
            }
            i = i + 1;
        }
        None
    }

    /// Store `pointer` if nothing is stored for its owner or its version is
    /// strictly higher, without checking its signature. Returns whether the
    /// store changed.
    pub fn upsert_trusted(&mut self, pointer: SignedPointer) -> (r: bool)
        ensures
            r == pointer_supersedes(old(self)@, pointer@),
            final(self)@ == pointer_upsert_effect(old(self)@, pointer@),
    {
        proof {
            use_type_invariant(&*self);
        }
        let ghost old_e = self.entries();
        let ghost pv = pointer@;
        match self.position(pointer.pubkey.as_str()) {
            None => {
                let mut ps = Vec::new();
                std::mem::swap(&mut ps, &mut self.pointers);
                ps.push(pointer);
                proof {
                    assert(ps@.map_values(|p: SignedPointer| p@) =~= old_e.push(pv));
                    lemma_pointer_map_push(old_e, pv);
                }
                self.pointers = ps;
                true
            },
            Some(i) => {
                if pointer.version > self.pointers[i].version {
                    let mut ps = Vec::new();
                    std::mem::swap(&mut ps, &mut self.pointers);
                    ps[i] = pointer;
                    proof {
                        assert(ps@.map_values(|p: SignedPointer| p@) =~= old_e.update(i as int, pv));
                        lemma_pointer_map_update(old_e, i as int, pv);
                    }
                    self.pointers = ps;
                    true
                } else {
                    false
                }
            },
        }
    }

    /// Store `pointer` if its signature verifies and it supersedes what is
    /// stored for its owner. Returns whether the store changed; a pointer that
    /// does not verify is refused with the reason and changes nothing.
    pub fn upsert(&mut self, pointer: SignedPointer) -> (r: Result<bool, VerifyError>)
        ensures
            pointer_check(pointer@) matches Err(e) ==> r == Err::<bool, VerifyError>(e) && final(self)@
                == old(self)@,
            pointer_check(pointer@) is Ok ==> r == Ok::<bool, VerifyError>(
                pointer_supersedes(old(self)@, pointer@),
            ) && final(self)@ == pointer_upsert_effect(old(self)@, pointer@),
    {
        match verify_pointer(&pointer) {
            Err(e) => Err(e),
            Ok(()) => Ok(self.upsert_trusted(pointer)),
        }
    }

    /// The pointer stored for `pubkey`.
    pub fn get(&self, pubkey: &str) -> (r: Option<&SignedPointer>)
        ensures
            match pointer_for(self@, pubkey@) {
                Some(p) => r matches Some(x) && x@ == p,
                None => r is None,
            },
    {
        match self.position(pubkey) {
            Some(i) => Some(&self.pointers[i]),
            None => None,
        }
    }

    /// The pointer stored for `pubkey` when its scope is `scope`.
    pub fn get_scoped(&self, pubkey: &str, scope: Option<&str>) -> (r: Option<&SignedPointer>)
        ensures
            match pointer_for(self@, pubkey@) {
                Some(p) => if p.scope == (match scope {
                    Some(s) => Some(s@),
                    None => None::<Seq<char>>,
                }) {
                    r matches Some(x) && x@ == p
                } else {
                    r is None
                },
                None => r is None,
            },
    {
        match self.get(pubkey) {
            None => None,
            Some(p) => {
                let same = match (&p.scope, scope) {
                    (None, None) => true,
                    (Some(a), Some(b)) => str_eq(a.as_str(), b),
                    _ => false,
                };
                if same {
                    Some(p)
                } else {
                    None
                }
            },
        }
    }

    /// The pointer for a site name owned by `owner_pubkey`: one pointer is
    /// kept per owner, so this is the owner's pointer whatever the name.
    pub fn find_by_name(&self, name: &str, owner_pubkey: &str) -> (r: Option<&SignedPointer>)
        ensures
            match pointer_for(self@, owner_pubkey@) {
                Some(p) => r matches Some(x) && x@ == p,
                None => r is None,
            },
    {
        self.get(owner_pubkey)
    }

    /// All pointers owned by `owner_pubkey` (at most one: one per owner).
    pub fn last_mine(&self, owner_pubkey: &str) -> (r: Vec<&SignedPointer>)
        ensures
            match pointer_for(self@, owner_pubkey@) {
                Some(p) => r@.len() == 1 && r@[0]@ == p,
                None => r@.len() == 0,
            },
            forall|i: int| 0 <= i < r@.len() ==> (#[trigger] r@[i])@.pubkey == owner_pubkey@,
            forall|k: Seq<char>|
                #[trigger] self@.dom().contains(k) && self@[k].pubkey == owner_pubkey@ ==> r@.len() == 1
                    && r@[0]@ == self@[k],
    {
        proof {
            self.lemma_keyed_by_pubkey();
        }
        let mut out: Vec<&SignedPointer> = Vec::new();
        match self.get(owner_pubkey) {
            Some(p) => out.push(p),
            None => {},
        }
        out
    }

    /// All pointers for `pubkey` whatever their scope (at most one).
    pub fn all_for_pubkey(&self, pubkey: &str) -> (r: Vec<&SignedPointer>)
        ensures
            match pointer_for(self@, pubkey@) {
                Some(p) => r@.len() == 1 && r@[0]@ == p,
                None => r@.len() == 0,
            },
            forall|i: int| 0 <= i < r@.len() ==> (#[trigger] r@[i])@.pubkey == pubkey@,
            forall|k: Seq<char>|
                #[trigger] self@.dom().contains(k) && self@[k].pubkey == pubkey@ ==> r@.len() == 1
                    && r@[0]@ == self@[k],
    {
        self.last_mine(pubkey)
    }

    /// The version a new pointer for `pubkey` should carry: one more than the
    /// stored one, or 1 when none is stored.
    pub fn next_version(&self, pubkey: &str) -> (r: u32)
        requires
            self@.dom().contains(pubkey@) ==> self@[pubkey@].version < u32::MAX,
        ensures
            r == match pointer_for(self@, pubkey@) {
                Some(p) => p.version + 1,
                None => 1,
            },
    {
        match self.get(pubkey) {
            Some(p) => p.version + 1,
            None => 1,
        }
    }

    /// Copies of all stored pointers (one per owner).
    pub fn pointers(&self) -> (r: Vec<SignedPointer>)
        ensures
            owners_unique(r@.map_values(|p: SignedPointer| p@)),
            pointer_map(r@.map_values(|p: SignedPointer| p@)) == self@,
    {
        proof {
            use_type_invariant(self);
        }
        let n = self.pointers.len();
        let mut out: Vec<SignedPointer> = Vec::new();
        let mut i: usize = 0;
        while i < n
            invariant
                n == self.pointers@.len(),
                i <= n,
                out@.map_values(|p: SignedPointer| p@) == self.entries().take(i as int),
            decreases n - i,
        {
            let c = self.pointers[i].clone();
            assert(c@ == self.entries()[i as int]);
            let ghost prev = out@;
            out.push(c);
            assert(out@.map_values(|p: SignedPointer| p@) =~= prev.map_values(|p: SignedPointer| p@).push(c@));
            assert(self.entries().take(i + 1) =~= self.entries().take(i as int).push(self.entries()[i as int]));
            i = i + 1;
        }
        assert(self.entries().take(n as int) =~= self.entries());
        out
    }
}

} // verus!
