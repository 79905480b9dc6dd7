//! A heap that hands out the smallest priority first, and its consuming
//! iterator.

use crate::drain::drain_nodes;
use crate::drain::drained;
use crate::drain::in_extraction_order;
use crate::drain::payloads;
use crate::laws::lemma_drained_holds_all;
use crate::laws::lemma_drained_in_order;
use crate::laws::lemma_same_nodes_same_payloads;
use crate::node::HeapNode;
use crate::order::Orientation;
use crate::queue::lemma_popped_is_rearrangement;
use crate::queue::lemma_popped_keeps_order;
use crate::queue::lemma_pushed_is_rearrangement;
use crate::queue::lemma_pushed_keeps_order;
use crate::queue::pop_node;
use crate::queue::popped;
use crate::queue::push_node;
use crate::queue::pushed;
use crate::shape::heap_ordered;
use crate::shape::is_extreme;
use crate::shape::lemma_root_is_extreme;
use vstd::prelude::*;

verus! {

/// A binary heap whose `pop` returns the payload with the smallest priority.
///
/// Its view is the backing sequence of nodes, read as a complete binary tree:
/// the node at index `i` has its children at `2i + 1` and `2i + 2`. In every
/// `MinHeap` that sequence is heap-ordered for [`Orientation::Min`].
pub struct MinHeap<T> {
    heap: Vec<HeapNode<T>>,
}

impl<T> View for MinHeap<T> {
    type V = Seq<HeapNode<T>>;

    closed spec fn view(&self) -> Seq<HeapNode<T>> {
        self.heap@
    }
}

impl<T> MinHeap<T> {
    #[verifier::type_invariant]
    spec fn well_formed(&self) -> bool {
        heap_ordered(Orientation::Min, self.heap@)
    }

    /// An empty heap.
    pub fn new() -> (heap: Self)
        ensures
            heap@ == Seq::<HeapNode<T>>::empty(),
    {
        Self { heap: Vec::new() }
    }

    /// Inserts `data` with `priority`.
    pub fn push(&mut self, data: T, priority: i32)
        ensures
            final(self)@ == pushed(Orientation::Min, old(self)@, (HeapNode { data, priority })),
            heap_ordered(Orientation::Min, final(self)@),
            final(self)@.len() == old(self)@.len() + 1,
            final(self)@.to_multiset() == old(self)@.to_multiset().insert(
                (HeapNode { data, priority }),
            ),
    {
        proof {
            use_type_invariant(&*self);
            lemma_pushed_keeps_order(Orientation::Min, self@, HeapNode { data, priority });
            lemma_pushed_is_rearrangement(Orientation::Min, self@, HeapNode { data, priority });
        }
        let mut nodes = Vec::new();
        core::mem::swap(&mut nodes, &mut self.heap);
        push_node(&mut nodes, HeapNode { data, priority }, Orientation::Min);
        self.heap = nodes;
    }

    /// Removes the root and returns its payload: one of smallest priority.
    /// Returns `None`, and changes nothing, where the heap is empty.
    pub fn pop(&mut self) -> (out: Option<T>)
        ensures
            old(self)@.len() == 0 ==> out is None && final(self)@ == old(self)@,
            old(self)@.len() > 0 ==> {
                &&& out == Some(old(self)@[0].data)
                &&& final(self)@ == popped(Orientation::Min, old(self)@)
                &&& is_extreme(Orientation::Min, old(self)@[0].priority, old(self)@)
                &&& final(self)@.len() == old(self)@.len() - 1
                &&& final(self)@.to_multiset() == old(self)@.to_multiset().remove(old(self)@[0])
            },
            heap_ordered(Orientation::Min, final(self)@),
    {
        proof {
            use_type_invariant(&*self);
            lemma_popped_keeps_order(Orientation::Min, self@);
            if self@.len() > 0 {
                lemma_root_is_extreme(Orientation::Min, self@);
                lemma_popped_is_rearrangement(Orientation::Min, self@);
            }
        }
        let mut nodes = Vec::new();
        core::mem::swap(&mut nodes, &mut self.heap);
        let node = pop_node(&mut nodes, Orientation::Min);
        self.heap = nodes;
        match node {
            Some(node) => Some(node.data),
            None => None,
        }
    }

    /// Turns the heap into the sequence of its payloads, smallest priority
    /// first. The heap is consumed.
    pub fn into_iter(self) -> (iter: IntoIter<T>)
        ensures
            iter@ == self@,
            heap_ordered(Orientation::Min, iter@),
    {
        proof {
            use_type_invariant(&self);
        }
        IntoIter { heap: self }
    }
}

/// The payloads of a [`MinHeap`], handed out one by one in the order in which
/// [`MinHeap::pop`] returns them.
///
/// Its view is the backing sequence of the heap that is left.
pub struct IntoIter<T> {
    heap: MinHeap<T>,
}

impl<T> View for IntoIter<T> {
    type V = Seq<HeapNode<T>>;

    closed spec fn view(&self) -> Seq<HeapNode<T>> {
        self.heap@
    }
}

impl<T> IntoIter<T> {
    /// The next payload: what [`MinHeap::pop`] returns on the heap that is
    /// left. Once it has returned `None` it does so ever after.
    pub fn next(&mut self) -> (out: Option<T>)
        ensures
            old(self)@.len() == 0 ==> out is None && final(self)@ == old(self)@,
            old(self)@.len() > 0 ==> {
                &&& out == Some(old(self)@[0].data)
                &&& final(self)@ == popped(Orientation::Min, old(self)@)
                &&& is_extreme(Orientation::Min, old(self)@[0].priority, old(self)@)
                &&& final(self)@.len() == old(self)@.len() - 1
                &&& final(self)@.to_multiset() == old(self)@.to_multiset().remove(old(self)@[0])
            },
            heap_ordered(Orientation::Min, final(self)@),
    {
        self.heap.pop()
    }

    /// All payloads that are left, in the order in which repeated calls of
    /// [`IntoIter::next`] hand them out.
    pub fn collect(self) -> (out: Vec<T>)
        ensures
            out@ == payloads(drained(Orientation::Min, self@)),
            out@.len() == self@.len(),
            out@.to_multiset() == payloads(self@).to_multiset(),
            in_extraction_order(Orientation::Min, drained(Orientation::Min, self@)),
    {
        proof {
            use_type_invariant(&self.heap);
            lemma_drained_holds_all(Orientation::Min, self@);
            lemma_drained_in_order(Orientation::Min, self@);
            lemma_same_nodes_same_payloads(drained(Orientation::Min, self@), self@);
        }
        drain_nodes(self.heap.heap, Orientation::Min)
    }
}

} // verus!
