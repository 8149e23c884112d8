//! General facts about `Seq::filter` that the store's proofs use.

use vstd::prelude::*;

verus! {

/// Every element of a filtered sequence occurs in the original sequence.
pub proof fn lemma_filter_in<A>(s: Seq<A>, p: spec_fn(A) -> bool)
    ensures
        forall|k: int| 0 <= k < s.filter(p).len() ==> s.contains(#[trigger] s.filter(p)[k]),
    decreases s.len(),
{
    reveal(Seq::filter);
    if s.len() > 0 {
        lemma_filter_in(s.drop_last(), p);
        let f = s.filter(p);
        let fd = s.drop_last().filter(p);
        assert forall|k: int| 0 <= k < f.len() implies s.contains(f[k]) by {
            if k < fd.len() {
                assert(s.drop_last().contains(fd[k]));
                let w = choose|w: int| 0 <= w < s.drop_last().len() && s.drop_last()[w] == fd[k];
                assert(s[w] == fd[k]);
            } else {
                assert(f[k] == s.last());
                assert(s[s.len() - 1] == s.last());
            }
        }
    }
}

/// A sequence with no element satisfying the predicate filters to empty.
pub proof fn lemma_filter_empty<A>(s: Seq<A>, p: spec_fn(A) -> bool)
    requires
        forall|k: int| 0 <= k < s.len() ==> !p(#[trigger] s[k]),
    ensures
        s.filter(p) == Seq::<A>::empty(),
{
    broadcast use vstd::seq_lib::group_filter_ensures;

    lemma_filter_in(s, p);
    if s.filter(p).len() > 0 {
        let x = s.filter(p)[0];
        assert(p(x));
        assert(s.contains(x));
        let w = choose|w: int| 0 <= w < s.len() && s[w] == x;
        assert(!p(s[w]));
    }
    assert(s.filter(p) =~= Seq::<A>::empty());
}

/// Filtering a singleton keeps or drops its one element.
pub proof fn lemma_filter_singleton<A>(x: A, p: spec_fn(A) -> bool)
    ensures
        p(x) ==> seq![x].filter(p) == seq![x],
        !p(x) ==> seq![x].filter(p) == Seq::<A>::empty(),
{
    reveal_with_fuel(Seq::filter, 2);
    assert(seq![x].drop_last() =~= Seq::<A>::empty());
    assert(seq![x].last() == x);
    if p(x) {
        assert(seq![x].filter(p) =~= Seq::<A>::empty().push(x));
        assert(Seq::<A>::empty().push(x) =~= seq![x]);
    }
}

/// Predicates that agree on a sequence's elements filter it identically.
pub proof fn lemma_filter_congruent<A>(s: Seq<A>, p: spec_fn(A) -> bool, q: spec_fn(A) -> bool)
    requires
        forall|k: int| 0 <= k < s.len() ==> p(#[trigger] s[k]) == q(s[k]),
    ensures
        s.filter(p) == s.filter(q),
    decreases s.len(),
{
    reveal(Seq::filter);
    if s.len() > 0 {
        let d = s.drop_last();
        assert forall|k: int| 0 <= k < d.len() implies p(#[trigger] d[k]) == q(d[k]) by {
            assert(d[k] == s[k]);
        }
        lemma_filter_congruent(d, p, q);
        assert(p(s.last()) == q(s.last()));
    }
}

/// Reversal turns prepending into appending.
pub proof fn lemma_reverse_prepend<A>(x: A, s: Seq<A>)
    ensures
        (seq![x] + s).reverse() == s.reverse().push(x),
{
    let a = (seq![x] + s).reverse();
    let b = s.reverse().push(x);
    assert forall|k: int| 0 <= k < a.len() implies a[k] == b[k] by {
        assert((seq![x] + s)[0] == x);
        if k < s.len() {
            assert((seq![x] + s)[s.len() - k] == s[s.len() - 1 - k]);
        }
    }
    assert(a =~= b);
}

} // verus!
