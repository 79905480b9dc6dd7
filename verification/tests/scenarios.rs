use priority_heap::MaxHeap;
use priority_heap::MinHeap;

struct Opaque(u8);

#[test]
fn max_heap_pops_largest_priority_first() {
    let mut heap = MaxHeap::<i32>::new();
    heap.push(3, 0);
    heap.push(2, 1);
    heap.push(1, 2);
    assert_eq!(heap.pop(), Some(1));
    assert_eq!(heap.pop(), Some(2));
    assert_eq!(heap.pop(), Some(3));
    assert_eq!(heap.pop(), None);
}

#[test]
fn min_heap_pops_smallest_priority_first() {
    let mut heap = MinHeap::<i32>::new();
    heap.push(3, 2);
    heap.push(2, 1);
    heap.push(1, 0);
    heap.push(0, -1);
    assert_eq!(heap.pop(), Some(0));
    assert_eq!(heap.pop(), Some(1));
    assert_eq!(heap.pop(), Some(2));
    assert_eq!(heap.pop(), Some(3));
    assert_eq!(heap.pop(), None);
}

#[test]
fn max_heap_push_order_does_not_matter() {
    let orders: [[(i32, i32); 3]; 6] = [
        [(3, 0), (2, 1), (1, 2)],
        [(3, 0), (1, 2), (2, 1)],
        [(2, 1), (3, 0), (1, 2)],
        [(2, 1), (1, 2), (3, 0)],
        [(1, 2), (3, 0), (2, 1)],
        [(1, 2), (2, 1), (3, 0)],
    ];
    for order in orders {
        let mut heap = MaxHeap::<i32>::new();
        for (data, priority) in order {
            heap.push(data, priority);
        }
        assert_eq!(heap.pop(), Some(1));
        assert_eq!(heap.pop(), Some(2));
        assert_eq!(heap.pop(), Some(3));
        assert_eq!(heap.pop(), None);
    }
}

#[test]
fn min_heap_push_order_does_not_matter() {
    let orders: [[(i32, i32); 4]; 4] = [
        [(0, -1), (1, 0), (2, 1), (3, 2)],
        [(3, 2), (2, 1), (1, 0), (0, -1)],
        [(1, 0), (3, 2), (0, -1), (2, 1)],
        [(2, 1), (0, -1), (3, 2), (1, 0)],
    ];
    for order in orders {
        let mut heap = MinHeap::<i32>::new();
        for (data, priority) in order {
            heap.push(data, priority);
        }
        assert_eq!(heap.pop(), Some(0));
        assert_eq!(heap.pop(), Some(1));
        assert_eq!(heap.pop(), Some(2));
        assert_eq!(heap.pop(), Some(3));
        assert_eq!(heap.pop(), None);
    }
}

#[test]
fn max_heap_pop_on_new_heap_is_none_every_time() {
    let mut heap = MaxHeap::<String>::new();
    for _ in 0..5 {
        assert_eq!(heap.pop(), None);
    }
}

#[test]
fn min_heap_pop_on_new_heap_is_none_every_time() {
    let mut heap = MinHeap::<String>::new();
    for _ in 0..5 {
        assert_eq!(heap.pop(), None);
    }
}

#[test]
fn max_heap_pop_after_last_item_is_none_every_time() {
    let mut heap = MaxHeap::<char>::new();
    heap.push('x', 4);
    heap.push('y', 9);
    assert_eq!(heap.pop(), Some('y'));
    assert_eq!(heap.pop(), Some('x'));
    for _ in 0..5 {
        assert_eq!(heap.pop(), None);
    }
}

#[test]
fn min_heap_pop_after_last_item_is_none_every_time() {
    let mut heap = MinHeap::<char>::new();
    heap.push('x', 4);
    heap.push('y', 9);
    assert_eq!(heap.pop(), Some('x'));
    assert_eq!(heap.pop(), Some('y'));
    for _ in 0..5 {
        assert_eq!(heap.pop(), None);
    }
}

#[test]
fn max_heap_single_item_comes_back_once() {
    let mut heap = MaxHeap::<&str>::new();
    heap.push("only", -7);
    assert_eq!(heap.pop(), Some("only"));
    assert_eq!(heap.pop(), None);
}

#[test]
fn min_heap_single_item_comes_back_once() {
    let mut heap = MinHeap::<&str>::new();
    heap.push("only", -7);
    assert_eq!(heap.pop(), Some("only"));
    assert_eq!(heap.pop(), None);
}

#[test]
fn heap_is_usable_again_after_it_ran_empty() {
    let mut heap = MaxHeap::<u8>::new();
    heap.push(1, 1);
    assert_eq!(heap.pop(), Some(1));
    assert_eq!(heap.pop(), None);
    heap.push(2, 5);
    heap.push(3, 6);
    assert_eq!(heap.pop(), Some(3));
    assert_eq!(heap.pop(), Some(2));
    assert_eq!(heap.pop(), None);
}

#[test]
fn payload_needs_no_order_of_its_own() {
    let mut heap = MinHeap::<Opaque>::new();
    heap.push(Opaque(7), 2);
    heap.push(Opaque(8), 1);
    assert_eq!(heap.pop().map(|x| x.0), Some(8));
    assert_eq!(heap.pop().map(|x| x.0), Some(7));
    assert!(heap.pop().is_none());
}
