//! Queues over a linked list of nodes that starts with an empty sentinel.
pub mod list;
pub mod mpmc;
pub mod spsc;
