//! The unit a heap stores: a payload and the priority it was pushed with.

use core::cmp::Ordering;
use vstd::prelude::*;
use vstd::std_specs::cmp::PartialEqSpecImpl;
use vstd::std_specs::cmp::PartialOrdSpecImpl;

verus! {

/// A payload together with its priority.
///
/// In executable code nodes compare by priority alone: two nodes with the
/// same priority are `==` whatever their payloads, and `<` never looks at a
/// payload. In contracts `==` between nodes means that both fields are equal.
pub struct HeapNode<T> {
    pub data: T,
    pub priority: i32,
}

impl<T> PartialEq for HeapNode<T> {
    fn eq(&self, other: &HeapNode<T>) -> (r: bool) {
        self.priority == other.priority
    }
}

impl<T> PartialEqSpecImpl for HeapNode<T> {
    open spec fn obeys_eq_spec() -> bool {
        true
    }

    open spec fn eq_spec(&self, other: &HeapNode<T>) -> bool {
        self.priority == other.priority
    }
}

impl<T> PartialOrd for HeapNode<T> {
    fn partial_cmp(&self, other: &HeapNode<T>) -> (r: Option<Ordering>) {
        Some(self.priority.cmp(&other.priority))
    }
}

impl<T> PartialOrdSpecImpl for HeapNode<T> {
    open spec fn obeys_partial_cmp_spec() -> bool {
        true
    }

    open spec fn partial_cmp_spec(&self, other: &HeapNode<T>) -> Option<Ordering> {
        if self.priority < other.priority {
            Some(Ordering::Less)
        } else if self.priority == other.priority {
            Some(Ordering::Equal)
        } else {
            Some(Ordering::Greater)
        }
    }
}

} // verus!
