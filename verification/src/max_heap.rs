//! A heap that hands out the largest priority first.

use crate::drain::drain_nodes;
use crate::drain::drained;
use crate::drain::in_extraction_order;
use crate::drain::payloads;
use crate::laws::lemma_drained_holds_all;
use crate::laws::lemma_drained_in_order;
use crate::laws::lemma_same_nodes_same_payloads;
use crate::node::HeapNode;
use crate::order::Orientation;
use crate::queue::lemma_popped_is_rearrangement;
use crate::queue::lemma_popped_keeps_order;
use crate::queue::lemma_pushed_is_rearrangement;
use crate::queue::lemma_pushed_keeps_order;
use crate::queue::pop_node;
use crate::queue::popped;
use crate::queue::push_node;
use crate::queue::pushed;
use crate::shape::heap_ordered;
use crate::shape::is_extreme;
use crate::shape::lemma_root_is_extreme;
use vstd::prelude::*;

verus! {

/// A binary heap whose `pop` returns the payload with the largest priority.
///
/// Its view is the backing sequence of nodes, read as a complete binary tree:
/// the node at index `i` has its children at `2i + 1` and `2i + 2`. In every
/// `MaxHeap` that sequence is heap-ordered for [`Orientation::Max`].
pub struct MaxHeap<T> {
    heap: Vec<HeapNode<T>>,
}

impl<T> View for MaxHeap<T> {
    type V = Seq<HeapNode<T>>;

    closed spec fn view(&self) -> Seq<HeapNode<T>> {
        self.heap@
    }
}

impl<T> MaxHeap<T> {
    #[verifier::type_invariant]
    spec fn well_formed(&self) -> bool {
        heap_ordered(Orientation::Max, self.heap@)
    }

    /// An empty heap.
    pub fn new() -> (heap: Self)
        ensures
            heap@ == Seq::<HeapNode<T>>::empty(),
    {
        Self { heap: Vec::new() }
    }

    /// Inserts `data` with `priority`.
    pub fn push(&mut self, data: T, priority: i32)
        ensures
            final(self)@ == pushed(Orientation::Max, old(self)@, (HeapNode { data, priority })),
            heap_ordered(Orientation::Max, final(self)@),
            final(self)@.len() == old(self)@.len() + 1,
            final(self)@.to_multiset() == old(self)@.to_multiset().insert(
                (HeapNode { data, priority }),
            ),
    {
        proof {
            use_type_invariant(&*self);
            lemma_pushed_keeps_order(Orientation::Max, self@, HeapNode { data, priority });
            lemma_pushed_is_rearrangement(Orientation::Max, self@, HeapNode { data, priority });
        }
        let mut nodes = Vec::new();
        core::mem::swap(&mut nodes, &mut self.heap);
        push_node(&mut nodes, HeapNode { data, priority }, Orientation::Max);
        self.heap = nodes;
    }

    /// Removes the root and returns its payload: one of largest priority.
    /// Returns `None`, and changes nothing, where the heap is empty.
    pub fn pop(&mut self) -> (out: Option<T>)
        ensures
            old(self)@.len() == 0 ==> out is None && final(self)@ == old(self)@,
            old(self)@.len() > 0 ==> {
                &&& out == Some(old(self)@[0].data)
                &&& final(self)@ == popped(Orientation::Max, old(self)@)
                &&& is_extreme(Orientation::Max, old(self)@[0].priority, old(self)@)
                &&& final(self)@.len() == old(self)@.len() - 1
                &&& final(self)@.to_multiset() == old(self)@.to_multiset().remove(old(self)@[0])
            },
            heap_ordered(Orientation::Max, final(self)@),
    {
        proof {
            use_type_invariant(&*self);
            lemma_popped_keeps_order(Orientation::Max, self@);
            if self@.len() > 0 {
                lemma_root_is_extreme(Orientation::Max, self@);
                lemma_popped_is_rearrangement(Orientation::Max, self@);
            }
        }
        let mut nodes = Vec::new();
        core::mem::swap(&mut nodes, &mut self.heap);
        let node = pop_node(&mut nodes, Orientation::Max);
        self.heap = nodes;
        match node {
            Some(node) => Some(node.data),
            None => None,
        }
    }

    /// One step of consuming the heap in order: the same as [`MaxHeap::pop`].
    pub fn next(&mut self) -> (out: Option<T>)
        ensures
            old(self)@.len() == 0 ==> out is None && final(self)@ == old(self)@,
            old(self)@.len() > 0 ==> {
                &&& out == Some(old(self)@[0].data)
                &&& final(self)@ == popped(Orientation::Max, old(self)@)
                &&& is_extreme(Orientation::Max, old(self)@[0].priority, old(self)@)
                &&& final(self)@.len() == old(self)@.len() - 1
                &&& final(self)@.to_multiset() == old(self)@.to_multiset().remove(old(self)@[0])
            },
            heap_ordered(Orientation::Max, final(self)@),
    {
        self.pop()
    }

    /// Consumes the heap and returns its payloads in the order in which
    /// repeated calls of [`MaxHeap::pop`] hand them out.
    pub fn collect(self) -> (out: Vec<T>)
        ensures
            out@ == payloads(drained(Orientation::Max, self@)),
            out@.len() == self@.len(),
            out@.to_multiset() == payloads(self@).to_multiset(),
            in_extraction_order(Orientation::Max, drained(Orientation::Max, self@)),
    {
        proof {
            use_type_invariant(&self);
            lemma_drained_holds_all(Orientation::Max, self@);
            lemma_drained_in_order(Orientation::Max, self@);
            lemma_same_nodes_same_payloads(drained(Orientation::Max, self@), self@);
        }
        drain_nodes(self.heap, Orientation::Max)
    }
}

} // verus!
