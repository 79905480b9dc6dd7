//! Moving one node up or down the tree until the heap order holds again.

use crate::node::HeapNode;
use crate::order::Orientation;
use crate::shape::heap_ordered;
use crate::shape::lemma_swapped_is_rearrangement;
use crate::shape::parent;
use crate::shape::swapped;
use vstd::prelude::*;

verus! {

/// `s` after the node at `i` has climbed: while it is strictly more extreme
/// than its parent the two change places; it stops at the root or below the
/// first parent that it does not outrank.
pub open spec fn bubbled_up<T>(o: Orientation, s: Seq<HeapNode<T>>, i: int) -> Seq<HeapNode<T>>
    decreases i,
{
    if 0 < i < s.len() && o.outranks(s[i].priority, s[parent(i)].priority) {
        bubbled_up(o, swapped(s, i, parent(i)), parent(i))
    } else {
        s
    }
}

/// The index that the node at `i` changes places with on its way down, or `i`
/// itself where it stays: the left child if that outranks the node, and the
/// right child instead if that outranks whichever of the two was chosen. Of
/// two children with one priority the left is taken.
pub open spec fn descent_target<T>(o: Orientation, s: Seq<HeapNode<T>>, i: int) -> int {
    let left = 2 * i + 1;
    let right = 2 * i + 2;
    let first = if left < s.len() && o.outranks(s[left].priority, s[i].priority) {
        left
    } else {
        i
    };
    if right < s.len() && o.outranks(s[right].priority, s[first].priority) {
        right
    } else {
        first
    }
}

/// `s` after the node at `i` has sunk: while a child is strictly more extreme
/// it changes places with the more extreme child; it stops at a leaf or above
/// children that do not outrank it.
pub open spec fn bubbled_down<T>(o: Orientation, s: Seq<HeapNode<T>>, i: int) -> Seq<HeapNode<T>>
    decreases s.len() - i,
{
    let target = descent_target(o, s, i);
    if 0 <= i < s.len() && target != i {
        bubbled_down(o, swapped(s, i, target), target)
    } else {
        s
    }
}

/// The heap order holds everywhere but between the node at `i` and its parent,
/// and the children of `i` do not outrank the parent of `i`.
pub open spec fn ordered_but_above<T>(o: Orientation, s: Seq<HeapNode<T>>, i: int) -> bool {
    &&& forall|j: int|
        0 < j < s.len() && j != i ==> !o.outranks(#[trigger] s[j].priority, s[parent(j)].priority)
    &&& forall|j: int|
        0 < i && 0 < j < s.len() && parent(j) == i ==> !o.outranks(
            #[trigger] s[j].priority,
            s[parent(i)].priority,
        )
}

/// The heap order holds everywhere but between the node at `i` and its
/// children, and the children of `i` do not outrank the parent of `i`.
pub open spec fn ordered_but_below<T>(o: Orientation, s: Seq<HeapNode<T>>, i: int) -> bool {
    &&& forall|j: int|
        0 < j < s.len() && parent(j) != i ==> !o.outranks(
            #[trigger] s[j].priority,
            s[parent(j)].priority,
        )
    &&& forall|j: int|
        0 < i && 0 < j < s.len() && parent(j) == i ==> !o.outranks(
            #[trigger] s[j].priority,
            s[parent(i)].priority,
        )
}

/// Climbing rearranges the nodes and loses none.
pub proof fn lemma_bubbled_up_is_rearrangement<T>(o: Orientation, s: Seq<HeapNode<T>>, i: int)
    ensures
        bubbled_up(o, s, i).len() == s.len(),
        bubbled_up(o, s, i).to_multiset() == s.to_multiset(),
    decreases i,
{
    if 0 < i < s.len() && o.outranks(s[i].priority, s[parent(i)].priority) {
        lemma_swapped_is_rearrangement(s, i, parent(i));
        lemma_bubbled_up_is_rearrangement(o, swapped(s, i, parent(i)), parent(i));
    }
}

/// Sinking rearranges the nodes and loses none.
pub proof fn lemma_bubbled_down_is_rearrangement<T>(o: Orientation, s: Seq<HeapNode<T>>, i: int)
    ensures
        bubbled_down(o, s, i).len() == s.len(),
        bubbled_down(o, s, i).to_multiset() == s.to_multiset(),
    decreases s.len() - i,
{
    let target = descent_target(o, s, i);
    if 0 <= i < s.len() && target != i {
        lemma_swapped_is_rearrangement(s, i, target);
        lemma_bubbled_down_is_rearrangement(o, swapped(s, i, target), target);
    }
}

/// Where only the node at `i` may outrank its parent, letting it climb
/// restores the heap order.
pub proof fn lemma_bubbled_up_restores_order<T>(o: Orientation, s: Seq<HeapNode<T>>, i: int)
    requires
        0 <= i < s.len(),
        ordered_but_above(o, s, i),
    ensures
        heap_ordered(o, bubbled_up(o, s, i)),
    decreases i,
{
    if 0 < i && o.outranks(s[i].priority, s[parent(i)].priority) {
        lemma_bubbled_up_restores_order(o, swapped(s, i, parent(i)), parent(i));
    }
}

/// Where only the children of `i` may outrank their parent, letting the node
/// at `i` sink restores the heap order.
pub proof fn lemma_bubbled_down_restores_order<T>(o: Orientation, s: Seq<HeapNode<T>>, i: int)
    requires
        0 <= i,
        ordered_but_below(o, s, i),
    ensures
        heap_ordered(o, bubbled_down(o, s, i)),
    decreases s.len() - i,
{
    let target = descent_target(o, s, i);
    if i < s.len() && target != i {
        lemma_bubbled_down_restores_order(o, swapped(s, i, target), target);
    }
}

/// Exchanges the nodes at `i` and `j`.
pub(crate) fn swap_nodes<T>(v: &mut Vec<HeapNode<T>>, i: usize, j: usize)
    requires
        i < j < old(v)@.len(),
    ensures
        final(v)@ == swapped(old(v)@, i as int, j as int),
{
    let (low, high) = v.split_at_mut(j);
    core::mem::swap(&mut low[i], &mut high[0]);
}

/// Lets the node at `index` climb to its place.
pub(crate) fn bubble_up<T>(v: &mut Vec<HeapNode<T>>, index: usize, o: Orientation)
    requires
        index < old(v)@.len(),
    ensures
        final(v)@ == bubbled_up(o, old(v)@, index as int),
{
    let mut at: usize = index;
    while at > 0
        invariant
            at < v@.len(),
            bubbled_up(o, v@, at as int) == bubbled_up(o, old(v)@, index as int),
        ensures
            v@ == bubbled_up(o, old(v)@, index as int),
        decreases at,
    {
        let parent_index: usize = (at - 1) / 2;
        if o.prefers(&v[at], &v[parent_index]) {
            let ghost before = v@;
            swap_nodes(v, parent_index, at);
            assert(v@ =~= swapped(before, at as int, parent(at as int)));
            at = parent_index;
        } else {
            break ;
        }
    }
}

/// Lets the node at `index` sink to its place.
pub(crate) fn bubble_down<T>(v: &mut Vec<HeapNode<T>>, index: usize, o: Orientation)
    ensures
        final(v)@ == bubbled_down(o, old(v)@, index as int),
{
    let len: usize = v.len();
    let mut at: usize = index;
    while at < len / 2
        invariant
            len == v@.len(),
            bubbled_down(o, v@, at as int) == bubbled_down(o, old(v)@, index as int),
        ensures
            v@ == bubbled_down(o, old(v)@, index as int),
        decreases len - at,
    {
        let left: usize = 2 * at + 1;
        let right: usize = left + 1;
        let mut target: usize = at;
        if o.prefers(&v[left], &v[target]) {
            target = left;
        }
        if right < len && o.prefers(&v[right], &v[target]) {
            target = right;
        }
        if target != at {
            swap_nodes(v, at, target);
            at = target;
        } else {
            break ;
        }
    }
}

} // verus!
