//! Picking items out of sequences.
use vstd::prelude::*;

verus! {

/// One more item is picked exactly where it is wanted.
pub proof fn lemma_filter_push<A>(s: Seq<A>, x: A, p: spec_fn(A) -> bool)
    ensures
        s.push(x).filter(p) == if p(x) {
            s.filter(p).push(x)
        } else {
            s.filter(p)
        },
{
    reveal(Seq::filter);
    assert(s.push(x).drop_last() == s);
}

/// Nothing is picked from nothing.
pub proof fn lemma_filter_empty<A>(p: spec_fn(A) -> bool)
    ensures
        Seq::<A>::empty().filter(p) == Seq::<A>::empty(),
{
    reveal(Seq::filter);
}

/// A sequence by its front and its last item.
pub proof fn lemma_front_and_last<A>(s: Seq<A>)
    requires
        s.len() > 0,
    ensures
        s == s.drop_last().push(s.last()),
{
}

/// The items that are picked are those that are wanted.
pub proof fn lemma_filter_contains<A>(s: Seq<A>, x: A, p: spec_fn(A) -> bool)
    ensures
        s.filter(p).contains(x) <==> s.contains(x) && p(x),
    decreases s.len(),
{
    if s.len() == 0 {
        lemma_filter_empty(p);
        assert(s == Seq::<A>::empty());
    } else {
        let front = s.drop_last();
        lemma_front_and_last(s);
        lemma_filter_push(front, s.last(), p);
        lemma_filter_contains(front, x, p);
        lemma_push_contains(front, s.last(), x);
        lemma_push_contains(front.filter(p), s.last(), x);
    }
}

/// What a sequence with one more item holds.
pub proof fn lemma_push_contains<A>(s: Seq<A>, last: A, x: A)
    ensures
        s.push(last).contains(x) <==> s.contains(x) || x == last,
{
    let t = s.push(last);
    if s.contains(x) {
        let k = choose|k: int| 0 <= k < s.len() && s[k] == x;
        assert(t[k] == x);
    }
    if x == last {
        assert(t[s.len() as int] == x);
    }
    if t.contains(x) && x != last {
        let k = choose|k: int| 0 <= k < t.len() && t[k] == x;
        assert(s[k] == x);
    }
}

} // verus!
