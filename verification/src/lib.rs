//! Persistent (immutable, structure-sharing) collections: a reference-counted
//! singly-linked list and an amortized-O(1) FIFO queue built from two lists.

pub mod amortized_queue;
pub mod linked_list;
