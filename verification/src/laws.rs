//! What holds of every heap, whatever was pushed and popped.

use crate::drain::after_pops;
use crate::drain::drained;
use crate::drain::extracted;
use crate::drain::in_extraction_order;
use crate::drain::payloads;
use crate::node::HeapNode;
use crate::order::Orientation;
use crate::queue::lemma_popped_is_rearrangement;
use crate::queue::lemma_popped_keeps_order;
use crate::queue::lemma_pushed_is_rearrangement;
use crate::queue::lemma_pushed_keeps_order;
use crate::queue::popped;
use crate::queue::pushed;
use crate::shape::heap_ordered;
use crate::shape::lemma_root_is_extreme;
use vstd::prelude::*;

verus! {

/// One call on a heap: a push of a node, or a pop.
pub enum Call<T> {
    Push(HeapNode<T>),
    Pop,
}

/// The backing sequence of a heap that started empty and took `calls` in
/// their order.
pub open spec fn replayed<T>(o: Orientation, calls: Seq<Call<T>>) -> Seq<HeapNode<T>>
    decreases calls.len(),
{
    if calls.len() == 0 {
        Seq::empty()
    } else {
        let before = replayed(o, calls.drop_last());
        match calls.last() {
            Call::Push(node) => pushed(o, before, node),
            Call::Pop => popped(o, before),
        }
    }
}

/// The backing sequence of a heap that started empty and had `items` pushed
/// in their order.
pub open spec fn built<T>(o: Orientation, items: Seq<HeapNode<T>>) -> Seq<HeapNode<T>>
    decreases items.len(),
{
    if items.len() == 0 {
        Seq::empty()
    } else {
        pushed(o, built(o, items.drop_last()), items.last())
    }
}

/// After any sequence of pushes and pops on an empty heap the heap order
/// holds over the whole backing sequence.
pub proof fn lemma_replayed_is_heap_ordered<T>(o: Orientation, calls: Seq<Call<T>>)
    ensures
        heap_ordered(o, replayed(o, calls)),
    decreases calls.len(),
{
    if calls.len() > 0 {
        let before = replayed(o, calls.drop_last());
        lemma_replayed_is_heap_ordered(o, calls.drop_last());
        match calls.last() {
            Call::Push(node) => lemma_pushed_keeps_order(o, before, node),
            Call::Pop => lemma_popped_keeps_order(o, before),
        }
    }
}

/// In any sequence of pushes and pops on an empty heap the heap order holds
/// after each call: after the first `n` of them, for every `n`.
pub proof fn lemma_order_holds_after_every_call<T>(o: Orientation, calls: Seq<Call<T>>)
    ensures
        forall|n: int|
            0 <= n <= calls.len() ==> heap_ordered(o, #[trigger] replayed(o, calls.take(n))),
{
    assert forall|n: int| 0 <= n <= calls.len() implies heap_ordered(
        o,
        #[trigger] replayed(o, calls.take(n)),
    ) by {
        lemma_replayed_is_heap_ordered(o, calls.take(n));
    }
}

/// Pushing `items` in any order gives a heap-ordered sequence that holds
/// exactly those items.
pub proof fn lemma_built_holds_what_was_pushed<T>(o: Orientation, items: Seq<HeapNode<T>>)
    ensures
        heap_ordered(o, built(o, items)),
        built(o, items).len() == items.len(),
        built(o, items).to_multiset() == items.to_multiset(),
    decreases items.len(),
{
    if items.len() > 0 {
        let front = items.drop_last();
        lemma_built_holds_what_was_pushed(o, front);
        lemma_pushed_keeps_order(o, built(o, front), items.last());
        lemma_pushed_is_rearrangement(o, built(o, front), items.last());
        vstd::seq_lib::to_multiset_build(front, items.last());
        assert(front.push(items.last()) =~= items);
    } else {
        assert(items =~= Seq::<HeapNode<T>>::empty());
    }
}

/// Pops keep the heap order.
pub proof fn lemma_after_pops_keeps_order<T>(o: Orientation, s: Seq<HeapNode<T>>, k: nat)
    requires
        heap_ordered(o, s),
    ensures
        heap_ordered(o, after_pops(o, s, k)),
    decreases k,
{
    if k > 0 {
        lemma_popped_keeps_order(o, s);
        lemma_after_pops_keeps_order(o, popped(o, s), (k - 1) as nat);
    }
}

/// Of a heap of `n` nodes, `k` pops take out `k` nodes, or all `n` where
/// `k > n`, and leave the others: what was taken out and what is left are
/// together what the heap held.
pub proof fn lemma_pops_conserve_nodes<T>(o: Orientation, s: Seq<HeapNode<T>>, k: nat)
    ensures
        k <= s.len() ==> extracted(o, s, k).len() == k && after_pops(o, s, k).len() == s.len() - k,
        k > s.len() ==> extracted(o, s, k).len() == s.len() && after_pops(o, s, k).len() == 0,
        extracted(o, s, k).to_multiset().add(after_pops(o, s, k).to_multiset()) == s.to_multiset(),
    decreases k,
{
    if k == 0 || s.len() == 0 {
        lemma_after_pops_of_empty::<T>(o, k);
        assert(s.len() == 0 ==> s =~= Seq::<HeapNode<T>>::empty());
        lemma_empty_holds_nothing::<HeapNode<T>>();
    } else {
        let rest = popped(o, s);
        let tail = extracted(o, rest, (k - 1) as nat);
        lemma_popped_is_rearrangement(o, s);
        lemma_pops_conserve_nodes(o, rest, (k - 1) as nat);
        assert(extracted(o, s, k) =~= tail.insert(0, s[0]));
        vstd::seq_lib::to_multiset_insert(tail, 0, s[0]);
        vstd::seq_lib::to_multiset_contains(s, s[0]);
        assert(s.to_multiset().remove(s[0]).insert(s[0]) =~= s.to_multiset());
    }
}

/// Pops of an empty heap leave it empty.
pub proof fn lemma_after_pops_of_empty<T>(o: Orientation, k: nat)
    ensures
        after_pops(o, Seq::<HeapNode<T>>::empty(), k) == Seq::<HeapNode<T>>::empty(),
        extracted(o, Seq::<HeapNode<T>>::empty(), k) == Seq::<HeapNode<T>>::empty(),
    decreases k,
{
    if k > 0 {
        lemma_after_pops_of_empty::<T>(o, (k - 1) as nat);
    }
}

proof fn lemma_empty_holds_nothing<T>()
    ensures
        Seq::<T>::empty().to_multiset() == vstd::multiset::Multiset::<T>::empty(),
{
    let none = Seq::<T>::empty();
    assert forall|x: T| none.to_multiset().count(x) == 0 by {
        vstd::seq_lib::to_multiset_contains(none, x);
    }
}

/// Every node that pops take out was in the heap.
proof fn lemma_extracted_was_held<T>(o: Orientation, s: Seq<HeapNode<T>>, k: nat, i: int)
    requires
        0 <= i < extracted(o, s, k).len(),
    ensures
        s.contains(extracted(o, s, k)[i]),
{
    let out = extracted(o, s, k);
    lemma_pops_conserve_nodes(o, s, k);
    out.to_multiset_ensures();
    s.to_multiset_ensures();
    assert(s.to_multiset().count(out[i]) > 0);
}

/// Successive pops of a heap-ordered sequence hand out priorities from the
/// most extreme to the least: never increasing for `Max`, never decreasing for
/// `Min`.
pub proof fn lemma_pops_come_in_order<T>(o: Orientation, s: Seq<HeapNode<T>>, k: nat)
    requires
        heap_ordered(o, s),
    ensures
        in_extraction_order(o, extracted(o, s, k)),
    decreases k,
{
    if k > 0 && s.len() > 0 {
        let rest = popped(o, s);
        let out = extracted(o, s, k);
        lemma_popped_keeps_order(o, s);
        lemma_pops_come_in_order(o, rest, (k - 1) as nat);
        lemma_root_is_extreme(o, s);
        lemma_popped_is_rearrangement(o, s);
        assert forall|i: int, j: int| 0 <= i < j < out.len() implies !o.outranks(
            #[trigger] out[j].priority,
            #[trigger] out[i].priority,
        ) by {
            if i == 0 {
                lemma_extracted_was_held(o, rest, (k - 1) as nat, j - 1);
                rest.to_multiset_ensures();
                s.to_multiset_ensures();
                assert(rest.to_multiset().count(out[j]) > 0);
                let at = choose|at: int| 0 <= at < s.len() && s[at] == out[j];
                assert(!o.outranks(s[at].priority, s[0].priority));
            }
        }
    }
}

/// Popping until the heap is empty hands out every node that it held, each
/// as often as it was held, and leaves nothing.
pub proof fn lemma_drained_holds_all<T>(o: Orientation, s: Seq<HeapNode<T>>)
    ensures
        drained(o, s).len() == s.len(),
        drained(o, s).to_multiset() == s.to_multiset(),
        after_pops(o, s, s.len()) == Seq::<HeapNode<T>>::empty(),
{
    lemma_pops_conserve_nodes(o, s, s.len());
    assert(after_pops(o, s, s.len()) =~= Seq::<HeapNode<T>>::empty());
    lemma_empty_holds_nothing::<HeapNode<T>>();
}

/// Popping a heap-ordered sequence until it is empty hands out the nodes
/// from the most extreme priority to the least.
pub proof fn lemma_drained_in_order<T>(o: Orientation, s: Seq<HeapNode<T>>)
    requires
        heap_ordered(o, s),
    ensures
        in_extraction_order(o, drained(o, s)),
{
    lemma_pops_come_in_order(o, s, s.len());
}

/// Popping until the heap is empty hands out the root, as one pop does, and
/// then what popping the heap that this pop leaves until it is empty hands
/// out.
pub proof fn lemma_drained_is_repeated_pop<T>(o: Orientation, s: Seq<HeapNode<T>>)
    ensures
        s.len() == 0 ==> drained(o, s) == Seq::<HeapNode<T>>::empty(),
        s.len() > 0 ==> drained(o, s) == seq![s[0]] + drained(o, popped(o, s)),
{
    if s.len() > 0 {
        lemma_popped_is_rearrangement(o, s);
    }
}

/// Two sequences that hold the same nodes hold the same payloads.
pub proof fn lemma_same_nodes_same_payloads<T>(a: Seq<HeapNode<T>>, b: Seq<HeapNode<T>>)
    requires
        a.to_multiset() == b.to_multiset(),
    ensures
        payloads(a).to_multiset() == payloads(b).to_multiset(),
    decreases a.len(),
{
    vstd::seq_lib::to_multiset_len(a);
    vstd::seq_lib::to_multiset_len(b);
    if a.len() == 0 {
        assert(payloads(a) =~= payloads(b));
    } else {
        let x = a.last();
        let front = a.drop_last();
        vstd::seq_lib::to_multiset_contains(a, x);
        vstd::seq_lib::to_multiset_contains(b, x);
        let at = choose|at: int| 0 <= at < b.len() && b[at] == x;
        let others = b.remove(at);
        vstd::seq_lib::to_multiset_remove(a, a.len() - 1);
        vstd::seq_lib::to_multiset_remove(b, at);
        lemma_same_nodes_same_payloads(front, others);
        assert(payloads(a) =~= payloads(front).push(x.data));
        assert(payloads(b) =~= payloads(others).insert(at, x.data));
        vstd::seq_lib::to_multiset_build(payloads(front), x.data);
        vstd::seq_lib::to_multiset_insert(payloads(others), at, x.data);
    }
}

/// Pushing any items in any order and then popping until the heap is empty
/// hands out as many nodes as were pushed, the same nodes and so the same
/// payloads, none lost and none twice, from the most extreme priority to the
/// least.
pub proof fn lemma_push_all_then_drain<T>(o: Orientation, items: Seq<HeapNode<T>>)
    ensures
        drained(o, built(o, items)).len() == items.len(),
        drained(o, built(o, items)).to_multiset() == items.to_multiset(),
        payloads(drained(o, built(o, items))).to_multiset() == payloads(items).to_multiset(),
        in_extraction_order(o, drained(o, built(o, items))),
{
    let heap = built(o, items);
    lemma_built_holds_what_was_pushed(o, items);
    lemma_drained_holds_all(o, heap);
    lemma_drained_in_order(o, heap);
    lemma_same_nodes_same_payloads(drained(o, heap), items);
}

/// After `n` pushes and `k <= n` pops, `n - k` nodes are left to pop, and
/// the nodes that the `k` pops took out together with those that popping the
/// rest hands out are the nodes that were pushed, and so are their payloads.
pub proof fn lemma_count_after_pushes_and_pops<T>(o: Orientation, items: Seq<HeapNode<T>>, k: nat)
    requires
        k <= items.len(),
    ensures
        extracted(o, built(o, items), k).len() == k,
        after_pops(o, built(o, items), k).len() == items.len() - k,
        drained(o, after_pops(o, built(o, items), k)).len() == items.len() - k,
        (extracted(o, built(o, items), k) + drained(
            o,
            after_pops(o, built(o, items), k),
        )).to_multiset() == items.to_multiset(),
        payloads(
            extracted(o, built(o, items), k) + drained(o, after_pops(o, built(o, items), k)),
        ).to_multiset() == payloads(items).to_multiset(),
{
    let heap = built(o, items);
    let first = extracted(o, heap, k);
    let left = after_pops(o, heap, k);
    lemma_built_holds_what_was_pushed(o, items);
    lemma_pops_conserve_nodes(o, heap, k);
    lemma_drained_holds_all(o, left);
    vstd::seq_lib::lemma_multiset_commutative(first, drained(o, left));
    lemma_same_nodes_same_payloads(first + drained(o, left), items);
}

/// A heap that holds one node hands out that node and is empty afterwards.
pub proof fn lemma_single_node<T>(o: Orientation, node: HeapNode<T>)
    ensures
        pushed(o, Seq::<HeapNode<T>>::empty(), node) == seq![node],
        popped(o, seq![node]) == Seq::<HeapNode<T>>::empty(),
        drained(o, seq![node]) == seq![node],
{
    lemma_after_pops_of_empty::<T>(o, 0);
}

} // verus!
