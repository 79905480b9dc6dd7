use priority_heap::MaxHeap;
use priority_heap::MinHeap;

const ITEMS: [(u16, i32); 9] =
    [(0, 4), (1, -3), (2, 4), (3, 0), (4, 12), (5, -3), (6, 7), (7, 4), (8, 1)];

#[test]
fn max_heap_collect_equals_pop_in_a_loop() {
    let mut popped_from = MaxHeap::<u16>::new();
    let mut collected_from = MaxHeap::<u16>::new();
    for (data, priority) in ITEMS {
        popped_from.push(data, priority);
        collected_from.push(data, priority);
    }
    let mut by_pop = Vec::new();
    while let Some(data) = popped_from.pop() {
        by_pop.push(data);
    }
    assert_eq!(collected_from.collect(), by_pop);
    assert_eq!(by_pop, vec![4, 6, 0, 7, 2, 8, 3, 5, 1]);
}

#[test]
fn max_heap_next_equals_pop() {
    let mut popped_from = MaxHeap::<u16>::new();
    let mut stepped = MaxHeap::<u16>::new();
    for (data, priority) in ITEMS {
        popped_from.push(data, priority);
        stepped.push(data, priority);
    }
    for _ in 0..ITEMS.len() + 2 {
        assert_eq!(stepped.next(), popped_from.pop());
    }
}

#[test]
fn min_heap_collect_equals_pop_in_a_loop() {
    let mut popped_from = MinHeap::<u16>::new();
    let mut collected_from = MinHeap::<u16>::new();
    for (data, priority) in ITEMS {
        popped_from.push(data, priority);
        collected_from.push(data, priority);
    }
    let mut by_pop = Vec::new();
    while let Some(data) = popped_from.pop() {
        by_pop.push(data);
    }
    assert_eq!(collected_from.into_iter().collect(), by_pop);
    assert_eq!(by_pop, vec![1, 5, 3, 8, 2, 7, 0, 6, 4]);
}

#[test]
fn min_heap_iterator_steps_equal_pop() {
    let mut popped_from = MinHeap::<u16>::new();
    let mut source = MinHeap::<u16>::new();
    for (data, priority) in ITEMS {
        popped_from.push(data, priority);
        source.push(data, priority);
    }
    let mut iter = source.into_iter();
    for _ in 0..ITEMS.len() + 2 {
        assert_eq!(iter.next(), popped_from.pop());
    }
}

#[test]
fn iterator_collects_what_is_left() {
    let mut heap = MinHeap::<u16>::new();
    for (data, priority) in ITEMS {
        heap.push(data, priority);
    }
    let mut iter = heap.into_iter();
    assert_eq!(iter.next(), Some(1));
    assert_eq!(iter.next(), Some(5));
    assert_eq!(iter.collect(), vec![3, 8, 2, 7, 0, 6, 4]);
}

#[test]
fn collect_of_an_empty_heap_is_empty() {
    assert_eq!(MaxHeap::<u16>::new().collect(), Vec::<u16>::new());
    assert_eq!(MinHeap::<u16>::new().into_iter().collect(), Vec::<u16>::new());
    let mut iter = MinHeap::<u16>::new().into_iter();
    assert_eq!(iter.next(), None);
    assert_eq!(iter.next(), None);
}
