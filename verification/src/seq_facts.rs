//! Facts about sequences that grow by one element at a time.

use vstd::prelude::*;

verus! {

/// Mapping after a push is a push after mapping.
pub proof fn lemma_map_push<A, B>(s: Seq<A>, x: A, f: spec_fn(A) -> B)
    ensures
        s.push(x).map_values(f) == s.map_values(f).push(f(x)),
{
    assert(s.push(x).map_values(f) =~= s.map_values(f).push(f(x)));
}

/// Filtering after a push keeps the new element exactly if it passes.
pub proof fn lemma_filter_push<A>(s: Seq<A>, x: A, p: spec_fn(A) -> bool)
    ensures
        s.push(x).filter(p) == if p(x) {
            s.filter(p).push(x)
        } else {
            s.filter(p)
        },
{
    reveal(Seq::filter);
    assert(s.push(x).drop_last() =~= s);
}

/// Mapping and then filtering, after a push.
pub proof fn lemma_map_filter_push<A, B>(
    s: Seq<A>,
    x: A,
    f: spec_fn(A) -> B,
    p: spec_fn(B) -> bool,
)
    ensures
        s.push(x).map_values(f).filter(p) == if p(f(x)) {
            s.map_values(f).filter(p).push(f(x))
        } else {
            s.map_values(f).filter(p)
        },
{
    lemma_map_push(s, x, f);
    lemma_filter_push(s.map_values(f), f(x), p);
}

/// Filtering and then mapping, after a push.
pub proof fn lemma_filter_map_push<A, B>(
    s: Seq<A>,
    x: A,
    p: spec_fn(A) -> bool,
    f: spec_fn(A) -> B,
)
    ensures
        s.push(x).filter(p).map_values(f) == if p(x) {
            s.filter(p).map_values(f).push(f(x))
        } else {
            s.filter(p).map_values(f)
        },
{
    lemma_filter_push(s, x, p);
    if p(x) {
        lemma_map_push(s.filter(p), x, f);
    }
}

/// Mapping, filtering and mapping again, after a push.
pub proof fn lemma_map_filter_map_push<A, B, C>(
    s: Seq<A>,
    x: A,
    f: spec_fn(A) -> B,
    p: spec_fn(B) -> bool,
    g: spec_fn(B) -> C,
)
    ensures
        s.push(x).map_values(f).filter(p).map_values(g) == if p(f(x)) {
            s.map_values(f).filter(p).map_values(g).push(g(f(x)))
        } else {
            s.map_values(f).filter(p).map_values(g)
        },
{
    lemma_map_push(s, x, f);
    lemma_filter_map_push(s.map_values(f), f(x), p, g);
}

/// Mapping or filtering nothing leaves nothing.
pub proof fn lemma_empty<A, B, C>(f: spec_fn(A) -> B, p: spec_fn(B) -> bool, g: spec_fn(B) -> C)
    ensures
        Seq::<A>::empty().map_values(f) == Seq::<B>::empty(),
        Seq::<B>::empty().filter(p) == Seq::<B>::empty(),
        Seq::<B>::empty().map_values(g) == Seq::<C>::empty(),
{
    reveal(Seq::filter);
    assert(Seq::<A>::empty().map_values(f) =~= Seq::<B>::empty());
    assert(Seq::<B>::empty().map_values(g) =~= Seq::<C>::empty());
}

/// The first `i + 1` elements are the first `i` and the one after them.
pub proof fn lemma_take_next<A>(s: Seq<A>, i: int)
    requires
        0 <= i < s.len(),
    ensures
        s.take(i + 1) == s.take(i).push(s[i]),
        s.take(i + 1).drop_last() == s.take(i),
        s.take(i + 1).last() == s[i],
{
    assert(s.take(i + 1) =~= s.take(i).push(s[i]));
    assert(s.take(i + 1).drop_last() =~= s.take(i));
}

/// Taking all of a sequence changes nothing, and taking none leaves nothing.
pub proof fn lemma_take_ends<A>(s: Seq<A>)
    ensures
        s.take(s.len() as int) == s,
        s.take(0) == Seq::<A>::empty(),
{
    assert(s.take(s.len() as int) =~= s);
    assert(s.take(0) =~= Seq::<A>::empty());
}

} // verus!
