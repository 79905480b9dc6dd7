//! The complete binary tree that a sequence of nodes is read as, and the heap
//! order over it.

use crate::node::HeapNode;
use crate::order::Orientation;
use vstd::prelude::*;

verus! {

/// Index of the parent of the node at index `i > 0`.
pub open spec fn parent(i: int) -> int {
    (i - 1) / 2
}

/// `s` with the items at `i` and `j` exchanged.
pub open spec fn swapped<T>(s: Seq<T>, i: int, j: int) -> Seq<T> {
    s.update(i, s[j]).update(j, s[i])
}

/// The heap property: no node is strictly more extreme than its parent.
pub open spec fn heap_ordered<T>(o: Orientation, s: Seq<HeapNode<T>>) -> bool {
    forall|i: int| 0 < i < s.len() ==> !o.outranks(#[trigger] s[i].priority, s[parent(i)].priority)
}

/// No node of `s` is strictly more extreme than `top`.
pub open spec fn is_extreme<T>(o: Orientation, top: i32, s: Seq<HeapNode<T>>) -> bool {
    forall|i: int| 0 <= i < s.len() ==> !o.outranks(#[trigger] s[i].priority, top)
}

proof fn lemma_root_not_outranked<T>(o: Orientation, s: Seq<HeapNode<T>>, i: int)
    requires
        heap_ordered(o, s),
        0 <= i < s.len(),
    ensures
        !o.outranks(s[i].priority, s[0].priority),
    decreases i,
{
    if i > 0 {
        lemma_root_not_outranked(o, s, parent(i));
    }
}

/// In a heap-ordered sequence the root is an extreme element.
pub proof fn lemma_root_is_extreme<T>(o: Orientation, s: Seq<HeapNode<T>>)
    requires
        heap_ordered(o, s),
        s.len() > 0,
    ensures
        is_extreme(o, s[0].priority, s),
{
    assert forall|i: int| 0 <= i < s.len() implies !o.outranks(
        #[trigger] s[i].priority,
        s[0].priority,
    ) by {
        lemma_root_not_outranked(o, s, i);
    }
}

/// Exchanging two items changes neither the length nor what the sequence holds.
pub proof fn lemma_swapped_is_rearrangement<T>(s: Seq<T>, i: int, j: int)
    requires
        0 <= i < s.len(),
        0 <= j < s.len(),
    ensures
        swapped(s, i, j).len() == s.len(),
        swapped(s, i, j).to_multiset() == s.to_multiset(),
{
    let mid = s.update(i, s[j]);
    lemma_update_to_multiset(s, i, s[j]);
    lemma_update_to_multiset(mid, j, s[i]);
    s.to_multiset_ensures();
}

/// Replacing the item at `i` takes that item out of what the sequence holds
/// and puts the new one in.
pub proof fn lemma_update_to_multiset<T>(s: Seq<T>, i: int, x: T)
    requires
        0 <= i < s.len(),
    ensures
        s.update(i, x).to_multiset() == s.to_multiset().remove(s[i]).insert(x),
{
    assert(s.update(i, x) =~= s.remove(i).insert(i, x));
    vstd::seq_lib::to_multiset_remove(s, i);
    vstd::seq_lib::to_multiset_insert(s.remove(i), i, x);
}

} // verus!
