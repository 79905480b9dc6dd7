//! Consuming a heap: what repeated pops hand out, and in which order.

use crate::node::HeapNode;
use crate::order::Orientation;
use crate::queue::lemma_popped_is_rearrangement;
use crate::queue::pop_node;
use crate::queue::popped;
use vstd::prelude::*;

verus! {

/// The payloads of `s`, in its order.
pub open spec fn payloads<T>(s: Seq<HeapNode<T>>) -> Seq<T> {
    s.map_values(|node: HeapNode<T>| node.data)
}

/// The nodes that the first `k` pops take out of a heap backed by `s`, in the
/// order in which they leave. Pops of an empty heap take nothing out.
pub open spec fn extracted<T>(o: Orientation, s: Seq<HeapNode<T>>, k: nat) -> Seq<HeapNode<T>>
    decreases k,
{
    if k == 0 || s.len() == 0 {
        Seq::empty()
    } else {
        seq![s[0]] + extracted(o, popped(o, s), (k - 1) as nat)
    }
}

/// The backing sequence that `k` pops leave of `s`.
pub open spec fn after_pops<T>(o: Orientation, s: Seq<HeapNode<T>>, k: nat) -> Seq<HeapNode<T>>
    decreases k,
{
    if k == 0 {
        s
    } else {
        after_pops(o, popped(o, s), (k - 1) as nat)
    }
}

/// The nodes of a heap backed by `s` in the order in which popping until the
/// heap is empty takes them out.
pub open spec fn drained<T>(o: Orientation, s: Seq<HeapNode<T>>) -> Seq<HeapNode<T>> {
    extracted(o, s, s.len())
}

/// `out` runs from the most extreme priority to the least: no node is
/// strictly more extreme than one that stands before it. Nodes of one
/// priority may stand in either order.
pub open spec fn in_extraction_order<T>(o: Orientation, out: Seq<HeapNode<T>>) -> bool {
    forall|i: int, j: int|
        0 <= i < j < out.len() ==> !o.outranks(#[trigger] out[j].priority, #[trigger] out[i].priority)
}

/// Pops until the heap is empty and returns the payloads in that order.
pub(crate) fn drain_nodes<T>(v: Vec<HeapNode<T>>, o: Orientation) -> (out: Vec<T>)
    ensures
        out@ == payloads(drained(o, v@)),
{
    let mut rest = v;
    let mut out: Vec<T> = Vec::new();
    loop
        invariant
            out@ + payloads(drained(o, rest@)) == payloads(drained(o, v@)),
        ensures
            out@ == payloads(drained(o, v@)),
        decreases rest@.len(),
    {
        let ghost before = rest@;
        match pop_node(&mut rest, o) {
            Some(node) => {
                out.push(node.data);
                proof {
                    lemma_popped_is_rearrangement(o, before);
                }
            },
            None => {
                break ;
            },
        }
    }
    out
}

} // verus!
