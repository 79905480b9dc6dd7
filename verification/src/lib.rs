//! Binary heaps over payloads with an explicit `i32` priority.
//!
//! [`MaxHeap`] hands out the payload with the largest priority first,
//! [`MinHeap`] the one with the smallest. Both are the same array-backed
//! algorithm, told which way to compare by an [`Orientation`]. The contracts
//! state, over the sequence of nodes that backs a heap, where each node stands
//! after a call, and with it the heap order, the extremity of what leaves, and
//! that nothing is lost or duplicated.

pub mod drain;
pub mod laws;
pub mod max_heap;
pub mod min_heap;
pub mod node;
pub mod order;
pub mod queue;
pub mod shape;
pub mod sift;

pub use max_heap::MaxHeap;
pub use min_heap::IntoIter;
pub use min_heap::MinHeap;
pub use node::HeapNode;
pub use order::Orientation;
