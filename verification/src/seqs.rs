//! Facts about filtering sequences that the stores rely on.

use vstd::prelude::*;

verus! {

/// One more element of a prefix passes through `filter` when it satisfies `p`.
pub proof fn lemma_filter_take_step<A>(s: Seq<A>, p: spec_fn(A) -> bool, i: int)
    requires
        0 <= i < s.len(),
    ensures
        s.take(i + 1).filter(p) == (if p(s[i]) {
            s.take(i).filter(p).push(s[i])
        } else {
            s.take(i).filter(p)
        }),
{
    reveal(Seq::filter);
    assert(s.take(i + 1).drop_last() =~= s.take(i));
    assert(s.take(i + 1).last() == s[i]);
}

/// A relation that holds between every earlier and later element of `s`
/// holds the same way in any filtering of `s`.
pub proof fn lemma_filter_pairwise<A>(s: Seq<A>, p: spec_fn(A) -> bool, rel: spec_fn(A, A) -> bool)
    requires
        forall|i: int, j: int| 0 <= i < j < s.len() ==> #[trigger] rel(s[i], s[j]),
    ensures
        forall|i: int, j: int|
            0 <= i < j < s.filter(p).len() ==> #[trigger] rel(s.filter(p)[i], s.filter(p)[j]),
    decreases s.len(),
{
    reveal(Seq::filter);
    if s.len() > 0 {
        let t = s.drop_last();
        assert forall|i: int, j: int| 0 <= i < j < t.len() implies #[trigger] rel(t[i], t[j]) by {
            assert(t[i] == s[i]);
            assert(t[j] == s[j]);
        }
        lemma_filter_pairwise(t, p, rel);
        let f = s.filter(p);
        let ft = t.filter(p);
        if p(s.last()) {
            assert(f == ft.push(s.last()));
            assert forall|a: int, b: int| 0 <= a < b < f.len() implies #[trigger] rel(f[a], f[b]) by {
                assert(f[a] == ft[a]);
                if b == ft.len() {
                    assert(ft.contains(ft[a]));
                    t.lemma_filter_contains_rev(p, ft[a]);
                    let i = choose|i: int| 0 <= i < t.len() && t[i] == ft[a];
                    assert(s[i] == t[i]);
                    assert(rel(s[i], s[s.len() - 1]));
                } else {
                    assert(f[b] == ft[b]);
                }
            }
        } else {
            assert(f == ft);
        }
    }
}

/// The elements of `s` from position `offset`, at most `limit` of them:
/// what `LIMIT limit OFFSET offset` keeps of an ordered result.
pub open spec fn page<A>(s: Seq<A>, offset: int, limit: int) -> Seq<A> {
    let lo = if offset < s.len() {
        offset
    } else {
        s.len() as int
    };
    let hi = if lo + limit < s.len() {
        lo + limit
    } else {
        s.len() as int
    };
    s.subrange(lo, hi)
}


/// Filtering keeps a sequence whole when every element satisfies the predicate.
pub proof fn lemma_filter_all<A>(s: Seq<A>, p: spec_fn(A) -> bool)
    requires
        forall|i: int| 0 <= i < s.len() ==> p(#[trigger] s[i]),
    ensures
        s.filter(p) == s,
    decreases s.len(),
{
    reveal(Seq::filter);
    if s.len() > 0 {
        let t = s.drop_last();
        assert forall|i: int| 0 <= i < t.len() implies p(#[trigger] t[i]) by {
            assert(t[i] == s[i]);
        }
        lemma_filter_all(t, p);
        assert(p(s[s.len() - 1]));
        assert(s =~= t.push(s.last()));
    } else {
        assert(s.filter(p) =~= s);
    }
}

} // verus!
