use priority_heap::HeapNode;
use priority_heap::Orientation;
use std::cmp::Ordering;

#[test]
fn nodes_compare_by_priority_alone() {
    let low = HeapNode { data: "z", priority: -4 };
    let high = HeapNode { data: "a", priority: 9 };
    let other_high = HeapNode { data: "m", priority: 9 };
    assert!(low < high);
    assert!(high > low);
    assert!(high == other_high);
    assert!(low != high);
    assert!(high >= other_high);
    assert!(high <= other_high);
    assert_eq!(low.partial_cmp(&high), Some(Ordering::Less));
    assert_eq!(high.partial_cmp(&low), Some(Ordering::Greater));
    assert_eq!(high.partial_cmp(&other_high), Some(Ordering::Equal));
}

#[test]
fn nodes_compare_at_the_ends_of_the_range() {
    let least = HeapNode { data: (), priority: i32::MIN };
    let most = HeapNode { data: (), priority: i32::MAX };
    assert!(least < most);
    assert_eq!(most.partial_cmp(&least), Some(Ordering::Greater));
}

#[test]
fn max_orientation_prefers_the_larger_priority() {
    let low = HeapNode { data: 0u8, priority: 1 };
    let high = HeapNode { data: 0u8, priority: 2 };
    assert!(Orientation::Max.prefers(&high, &low));
    assert!(!Orientation::Max.prefers(&low, &high));
    assert!(!Orientation::Max.prefers(&low, &low));
}

#[test]
fn min_orientation_prefers_the_smaller_priority() {
    let low = HeapNode { data: 0u8, priority: 1 };
    let high = HeapNode { data: 0u8, priority: 2 };
    assert!(Orientation::Min.prefers(&low, &high));
    assert!(!Orientation::Min.prefers(&high, &low));
    assert!(!Orientation::Min.prefers(&high, &high));
}
