//! Membership in lists that are put together.

use vstd::prelude::*;

verus! {

/// What is in two lists put together is in one of them.
pub proof fn lemma_in_either<A>(a: Seq<A>, b: Seq<A>, x: A)
    ensures
        (a + b).contains(x) <==> a.contains(x) || b.contains(x),
{
    if a.contains(x) {
        let i = choose|i: int| 0 <= i < a.len() && a[i] == x;
        assert((a + b)[i] == x);
    }
    if b.contains(x) {
        let i = choose|i: int| 0 <= i < b.len() && b[i] == x;
        assert((a + b)[a.len() + i] == x);
    }
}

/// What is in a list of one is that one.
pub proof fn lemma_in_one<A>(y: A, x: A)
    ensures
        seq![y].contains(x) <==> x == y,
        !Seq::<A>::empty().contains(x),
{
    assert(seq![y][0] == y);
}

} // verus!
