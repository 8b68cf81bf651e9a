//! A set of strings kept in lexicographic order.

use vstd::prelude::*;

use crate::text::{
    lemma_seq_lt_irreflexive, lemma_seq_lt_total, lemma_seq_lt_transitive, seq_lt, str_eq, str_lt,
};

verus! {

/// Strictly increasing in lexicographic order (so without repeats).
pub open spec fn strictly_sorted(s: Seq<Seq<char>>) -> bool {
    forall|i: int, j: int| 0 <= i < j < s.len() ==> seq_lt(#[trigger] s[i], #[trigger] s[j])
}

pub proof fn lemma_sorted_no_duplicates(s: Seq<Seq<char>>)
    requires
        strictly_sorted(s),
    ensures
        s.no_duplicates(),
        s.to_set().len() == s.len(),
        s.to_set().finite(),
{
    assert forall|i: int, j: int| 0 <= i < s.len() && 0 <= j < s.len() && i != j implies s[i] != s[j] by {
        lemma_seq_lt_irreflexive(s[i]);
        if i < j {
            assert(seq_lt(s[i], s[j]));
        } else {
            assert(seq_lt(s[j], s[i]));
        }
    }
    s.unique_seq_to_set();
    vstd::seq_lib::seq_to_set_is_finite(s);
}

/// The members of a finite set of strings in increasing order.
pub open spec fn sorted_listing(set: Set<Seq<char>>) -> Seq<Seq<char>> {
    choose|l: Seq<Seq<char>>| strictly_sorted(l) && l.to_set() == set
}

/// A set has at most one strictly increasing listing.
pub proof fn lemma_sorted_listing_unique(a: Seq<Seq<char>>, b: Seq<Seq<char>>)
    requires
        strictly_sorted(a),
        strictly_sorted(b),
        a.to_set() == b.to_set(),
    ensures
        a == b,
    decreases a.len(),
{
    if a.len() == 0 {
        if b.len() > 0 {
            assert(b.to_set().contains(b[0]));
        }
        assert(a =~= b);
    } else {
        assert(a.to_set().contains(a[0]));
        assert(b.len() > 0);
        let i = choose|i: int| 0 <= i < b.len() && b[i] == a[0];
        assert(b.to_set().contains(b[0]));
        let k = choose|k: int| 0 <= k < a.len() && a[k] == b[0];
        if i > 0 {
            assert(seq_lt(b[0], b[i]));
            if k > 0 {
                assert(seq_lt(a[0], a[k]));
                crate::text::lemma_seq_lt_asymmetric(a[0], b[0]);
            } else {
                lemma_seq_lt_irreflexive(a[0]);
            }
        }
        assert(a[0] == b[0]);
        let a2 = a.drop_first();
        let b2 = b.drop_first();
        assert forall|x: Seq<char>| a2.contains(x) <==> b2.contains(x) by {
            if a2.contains(x) {
                let j = choose|j: int| 0 <= j < a2.len() && a2[j] == x;
                assert(a[j + 1] == x);
                assert(seq_lt(a[0], a[j + 1]));
                lemma_seq_lt_irreflexive(x);
                assert(b.to_set().contains(x));
                let m = choose|m: int| 0 <= m < b.len() && b[m] == x;
                assert(m != 0);
                assert(b2[m - 1] == x);
            }
            if b2.contains(x) {
                let j = choose|j: int| 0 <= j < b2.len() && b2[j] == x;
                assert(b[j + 1] == x);
                assert(seq_lt(b[0], b[j + 1]));
                lemma_seq_lt_irreflexive(x);
                assert(a.to_set().contains(x));
                let m = choose|m: int| 0 <= m < a.len() && a[m] == x;
                assert(m != 0);
                assert(a2[m - 1] == x);
            }
        }
        assert(a2.to_set() =~= b2.to_set());
        assert(strictly_sorted(a2)) by {
            assert forall|x: int, y: int| 0 <= x < y < a2.len() implies seq_lt(#[trigger] a2[x], #[trigger] a2[y]) by {
                assert(a2[x] == a[x + 1]);
                assert(a2[y] == a[y + 1]);
            }
        }
        assert(strictly_sorted(b2)) by {
            assert forall|x: int, y: int| 0 <= x < y < b2.len() implies seq_lt(#[trigger] b2[x], #[trigger] b2[y]) by {
                assert(b2[x] == b[x + 1]);
                assert(b2[y] == b[y + 1]);
            }
        }
        lemma_sorted_listing_unique(a2, b2);
        assert(a =~= seq![a[0]] + a2);
        assert(b =~= seq![b[0]] + b2);
    }
}

/// A strictly increasing listing of a set is its sorted listing.
pub proof fn lemma_is_sorted_listing(l: Seq<Seq<char>>)
    requires
        strictly_sorted(l),
    ensures
        sorted_listing(l.to_set()) == l,
{
    let c = sorted_listing(l.to_set());
    assert(strictly_sorted(c) && c.to_set() == l.to_set());
    lemma_sorted_listing_unique(c, l);
}

/// A set of strings, listed in lexicographic order.
pub struct StringSet {
    items: Vec<String>,
}

impl View for StringSet {
    type V = Set<Seq<char>>;

    closed spec fn view(&self) -> Set<Seq<char>> {
        self.entries().to_set()
    }
}

impl StringSet {
    /// The members in increasing order.
    pub closed spec fn entries(&self) -> Seq<Seq<char>> {
        self.items@.map_values(|s: String| s@)
    }

    #[verifier::type_invariant]
    closed spec fn sorted(&self) -> bool {
        strictly_sorted(self.entries())
    }

    /// The empty set.
    pub fn new() -> (r: StringSet)
        ensures
            r@ == Set::<Seq<char>>::empty(),
    {
        let r = StringSet { items: Vec::new() };
        assert(r@ =~= Set::<Seq<char>>::empty());
        r
    }

    /// Position of `s` among the members, or where it would go.
    fn search(&self, s: &str) -> (r: (usize, bool))
        ensures
            r.0 <= self.entries().len(),
            r.1 ==> r.0 < self.entries().len() && self.entries()[r.0 as int] == s@,
            !r.1 ==> forall|j: int| 0 <= j < r.0 ==> seq_lt(#[trigger] self.entries()[j], s@),
            !r.1 ==> forall|j: int| r.0 <= j < self.entries().len() ==> seq_lt(s@, #[trigger] self.entries()[j]),
            r.1 == self@.contains(s@),
    {
        proof {
            use_type_invariant(self);
        }
        let n = self.items.len();
        let mut i: usize = 0;
        while i < n
            invariant
                n == self.items@.len(),
                i <= n,
                strictly_sorted(self.entries()),
                forall|j: int| 0 <= j < i ==> seq_lt(#[trigger] self.entries()[j], s@),
            decreases n - i,
        {
            let item = self.items[i].as_str();
            if str_eq(item, s) {
                assert(self.entries()[i as int] == s@);
                assert(self.entries().contains(s@));
                return (i, true);
            }
            if str_lt(s, item) {
                proof {
                    assert forall|j: int| i <= j < self.entries().len() implies seq_lt(s@, #[trigger] self.entries()[j]) by {
                        if j > i {
                            lemma_seq_lt_transitive(s@, self.entries()[i as int], self.entries()[j]);
                        }
                    }
                    assert forall|j: int| 0 <= j < self.entries().len() implies self.entries()[j] != s@ by {
                        if j < i {
                            lemma_seq_lt_irreflexive(s@);
                        } else {
                            lemma_seq_lt_irreflexive(s@);
                        }
                    }
                }
                return (i, false);
            }
            proof {
                lemma_seq_lt_total(self.entries()[i as int], s@);
            }
            i = i + 1;
        }
        proof {
            assert forall|j: int| 0 <= j < self.entries().len() implies self.entries()[j] != s@ by {
                lemma_seq_lt_irreflexive(s@);
            }
        }
        (i, false)
    }

    /// Whether `s` is a member.
    pub fn contains(&self, s: &str) -> (r: bool)
        ensures
            r == self@.contains(s@),
    {
        self.search(s).1
    }

    /// Add `s`; returns whether it was not already a member.
    pub fn insert(&mut self, s: &str) -> (r: bool)
        ensures
            r == !old(self)@.contains(s@),
            final(self)@ == old(self)@.insert(s@),
    {
        proof {
            use_type_invariant(&*self);
        }
        let (p, found) = self.search(s);
        if found {
            assert(old(self)@.insert(s@) =~= old(self)@);
            return false;
        }
        let ghost e = self.entries();
        let mut items = Vec::new();
        std::mem::swap(&mut items, &mut self.items);
        items.insert(p, String::from_str(s));
        proof {
            let t = e.insert(p as int, s@);
            assert(items@.map_values(|x: String| x@) =~= t);
            assert forall|i: int, j: int| 0 <= i < j < t.len() implies seq_lt(#[trigger] t[i], #[trigger] t[j]) by {
                if j < p {
                } else if j == p {
                } else if i < p {
                    lemma_seq_lt_transitive(e[i], s@, e[j - 1]);
                } else if i == p {
                } else {
                }
            }
            assert(t.to_set() =~= e.to_set().insert(s@)) by {
                assert forall|x: Seq<char>| t.contains(x) <==> e.to_set().insert(s@).contains(x) by {
                    if t.contains(x) {
                        let k = choose|k: int| 0 <= k < t.len() && t[k] == x;
                        if k < p {
                            assert(e[k] == x);
                        } else if k > p {
                            assert(e[k - 1] == x);
                        }
                    }
                    if e.contains(x) {
                        let k = choose|k: int| 0 <= k < e.len() && e[k] == x;
                        if k < p {
                            assert(t[k] == x);
                        } else {
                            assert(t[k + 1] == x);
                        }
                    }
                    if x == s@ {
                        assert(t[p as int] == x);
                    }
                }
            }
        }
        self.items = items;
        true
    }

    /// Remove `s`; returns whether it was a member.
    pub fn remove(&mut self, s: &str) -> (r: bool)
        ensures
            r == old(self)@.contains(s@),
            final(self)@ == old(self)@.remove(s@),
    {
        proof {
            use_type_invariant(&*self);
        }
        let (p, found) = self.search(s);
        if !found {
            assert(old(self)@.remove(s@) =~= old(self)@);
            return false;
        }
        let ghost e = self.entries();
        let mut items = Vec::new();
        std::mem::swap(&mut items, &mut self.items);
        items.remove(p);
        proof {
            let t = e.remove(p as int);
            assert(items@.map_values(|x: String| x@) =~= t);
            assert forall|i: int, j: int| 0 <= i < j < t.len() implies seq_lt(#[trigger] t[i], #[trigger] t[j]) by {
                let i2 = if i < p { i } else { i + 1 };
                let j2 = if j < p { j } else { j + 1 };
                assert(t[i] == e[i2]);
                assert(t[j] == e[j2]);
            }
            assert(t.to_set() =~= e.to_set().remove(s@)) by {
                assert forall|x: Seq<char>| t.contains(x) <==> e.to_set().remove(s@).contains(x) by {
                    if t.contains(x) {
                        let k = choose|k: int| 0 <= k < t.len() && t[k] == x;
                        let k2 = if k < p { k } else { k + 1 };
                        assert(e[k2] == x);
                        lemma_seq_lt_irreflexive(x);
                        if k2 < p {
                            assert(seq_lt(e[k2], e[p as int]));
                        } else {
                            assert(seq_lt(e[p as int], e[k2]));
                        }
                    }
                    if e.contains(x) && x != s@ {
                        let k = choose|k: int| 0 <= k < e.len() && e[k] == x;
                        if k < p {
                            assert(t[k] == x);
                        } else {
                            assert(t[k - 1] == x);
                        }
                    }
                }
            }
        }
        self.items = items;
        true
    }

    /// Number of members.
    pub fn len(&self) -> (r: usize)
        ensures
            self@.finite(),
            r == self@.len(),
    {
        proof {
            vstd::seq_lib::seq_to_set_is_finite(self.entries());
            use_type_invariant(self);
            lemma_sorted_no_duplicates(self.entries());
        }
        self.items.len()
    }

    /// The members in increasing order.
    pub fn to_vec(&self) -> (r: Vec<String>)
        ensures
            strictly_sorted(r@.map_values(|s: String| s@)),
            r@.map_values(|s: String| s@).to_set() == self@,
            r@.map_values(|s: String| s@) == sorted_listing(self@),
    {
        proof {
            use_type_invariant(self);
        }
        let n = self.items.len();
        let mut out: Vec<String> = Vec::new();
        let mut i: usize = 0;
        while i < n
            invariant
                n == self.items@.len(),
                i <= n,
                out@.map_values(|s: String| s@) == self.entries().take(i as int),
            decreases n - i,
        {
            let c = self.items[i].clone();
            let ghost prev = out@;
            out.push(c);
            assert(out@.map_values(|s: String| s@) =~= prev.map_values(|s: String| s@).push(c@));
            assert(self.entries().take(i + 1) =~= self.entries().take(i as int).push(self.entries()[i as int]));
            i = i + 1;
        }
        assert(self.entries().take(n as int) =~= self.entries());
        proof {
            lemma_is_sorted_listing(self.entries());
        }
        out
    }
}

} // verus!
