//! Insertion and removal of the extreme node, on the sequence of nodes that
//! backs a heap.

use crate::node::HeapNode;
use crate::order::Orientation;
use crate::shape::heap_ordered;
use crate::shape::lemma_update_to_multiset;
use crate::sift::bubble_down;
use crate::sift::bubble_up;
use crate::sift::bubbled_down;
use crate::sift::bubbled_up;
use crate::sift::lemma_bubbled_down_is_rearrangement;
use crate::sift::lemma_bubbled_down_restores_order;
use crate::sift::lemma_bubbled_up_is_rearrangement;
use crate::sift::lemma_bubbled_up_restores_order;
use crate::sift::swap_nodes;
use vstd::prelude::*;

verus! {

/// The backing sequence after `node` was pushed: it is appended, then climbs.
pub open spec fn pushed<T>(o: Orientation, s: Seq<HeapNode<T>>, node: HeapNode<T>) -> Seq<
    HeapNode<T>,
> {
    bubbled_up(o, s.push(node), s.len() as int)
}

/// The backing sequence after its root was popped: a single node just leaves;
/// otherwise the last node takes the root's place, then sinks.
pub open spec fn popped<T>(o: Orientation, s: Seq<HeapNode<T>>) -> Seq<HeapNode<T>> {
    if s.len() <= 1 {
        Seq::empty()
    } else {
        bubbled_down(o, s.update(0, s.last()).drop_last(), 0)
    }
}

/// A push adds one node and changes nothing else of what the heap holds.
pub proof fn lemma_pushed_is_rearrangement<T>(
    o: Orientation,
    s: Seq<HeapNode<T>>,
    node: HeapNode<T>,
)
    ensures
        pushed(o, s, node).len() == s.len() + 1,
        pushed(o, s, node).to_multiset() == s.to_multiset().insert(node),
{
    lemma_bubbled_up_is_rearrangement(o, s.push(node), s.len() as int);
    vstd::seq_lib::to_multiset_build(s, node);
}

/// A push keeps the heap order.
pub proof fn lemma_pushed_keeps_order<T>(o: Orientation, s: Seq<HeapNode<T>>, node: HeapNode<T>)
    requires
        heap_ordered(o, s),
    ensures
        heap_ordered(o, pushed(o, s, node)),
{
    lemma_bubbled_up_restores_order(o, s.push(node), s.len() as int);
}

/// A pop takes the root out and changes nothing else of what the heap holds.
pub proof fn lemma_popped_is_rearrangement<T>(o: Orientation, s: Seq<HeapNode<T>>)
    requires
        s.len() > 0,
    ensures
        popped(o, s).len() == s.len() - 1,
        popped(o, s).to_multiset() == s.to_multiset().remove(s[0]),
{
    if s.len() == 1 {
        assert(s.remove(0) =~= Seq::<HeapNode<T>>::empty());
        vstd::seq_lib::to_multiset_remove(s, 0);
    } else {
        let moved = s.update(0, s.last());
        lemma_bubbled_down_is_rearrangement(o, moved.drop_last(), 0);
        lemma_update_to_multiset(s, 0, s.last());
        vstd::seq_lib::to_multiset_remove(moved, s.len() - 1);
    }
}

/// A pop keeps the heap order.
pub proof fn lemma_popped_keeps_order<T>(o: Orientation, s: Seq<HeapNode<T>>)
    requires
        heap_ordered(o, s),
    ensures
        heap_ordered(o, popped(o, s)),
{
    if s.len() > 1 {
        lemma_bubbled_down_restores_order(o, s.update(0, s.last()).drop_last(), 0);
    }
}

/// Appends `node` and lets it climb.
pub(crate) fn push_node<T>(v: &mut Vec<HeapNode<T>>, node: HeapNode<T>, o: Orientation)
    ensures
        final(v)@ == pushed(o, old(v)@, node),
{
    v.push(node);
    let len: usize = v.len();
    bubble_up(v, len - 1, o);
}

/// Takes the root out, if there is one, and lets the node that replaces it
/// sink.
pub(crate) fn pop_node<T>(v: &mut Vec<HeapNode<T>>, o: Orientation) -> (out: Option<HeapNode<T>>)
    ensures
        old(v)@.len() == 0 ==> out is None && final(v)@ == old(v)@,
        old(v)@.len() > 0 ==> out == Some(old(v)@[0]) && final(v)@ == popped(o, old(v)@),
{
    let len: usize = v.len();
    if len == 0 {
        None
    } else if len == 1 {
        let node = v.pop();
        node
    } else {
        swap_nodes(v, 0, len - 1);
        let node = v.pop();
        assert(v@ =~= old(v)@.update(0, old(v)@.last()).drop_last());
        bubble_down(v, 0, o);
        node
    }
}

} // verus!
