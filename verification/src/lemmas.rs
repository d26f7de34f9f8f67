//! Facts about sequences that the loops of this crate use.
use vstd::prelude::*;

verus! {

/// Taking the first element off a list whose mapped values are a suffix of `all`
/// leaves the next suffix, and the element taken is the one at the suffix's start.
pub proof fn lemma_take_first<A, B>(before: Seq<A>, after: Seq<A>, f: spec_fn(A) -> B, all: Seq<B>, i: int)
    requires
        0 <= i <= all.len(),
        before.len() > 0,
        before.map_values(f) == all.skip(i),
        after == before.subrange(1, before.len() as int),
    ensures
        i < all.len(),
        f(before[0]) == all[i],
        after.map_values(f) == all.skip(i + 1),
{
    assert(before.map_values(f).len() == before.len());
    assert(all.skip(i).len() == all.len() - i);
    assert(before.map_values(f)[0] == f(before[0]));
    assert(after.map_values(f) =~= before.map_values(f).subrange(1, before.len() as int));
    assert(after.map_values(f) =~= all.skip(i + 1));
}

/// Mapping a list that grew by one element.
pub proof fn lemma_map_push<A, B>(before: Seq<A>, x: A, f: spec_fn(A) -> B)
    ensures
        before.push(x).map_values(f) == before.map_values(f).push(f(x)),
{
    assert(before.push(x).map_values(f) =~= before.map_values(f).push(f(x)));
}

} // verus!
