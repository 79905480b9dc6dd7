//! The direction in which a heap compares priorities.

use crate::node::HeapNode;
use vstd::prelude::*;

verus! {

/// Which end of the priority range a heap keeps at its root.
#[derive(Clone, Copy, Debug)]
pub enum Orientation {
    /// The largest priority is the most extreme.
    Max,
    /// The smallest priority is the most extreme.
    Min,
}

impl Orientation {
    /// Priority `a` is strictly more extreme than priority `b`.
    pub open spec fn outranks(self, a: i32, b: i32) -> bool {
        match self {
            Orientation::Max => a > b,
            Orientation::Min => a < b,
        }
    }

    /// Whether node `a` has to stand above node `b`.
    pub fn prefers<T>(self, a: &HeapNode<T>, b: &HeapNode<T>) -> (r: bool)
        ensures
            r == self.outranks(a.priority, b.priority),
    {
        match self {
            Orientation::Max => *a > *b,
            Orientation::Min => *a < *b,
        }
    }
}

} // verus!
