//! Queues over a fixed power-of-two ring of slots.
pub mod mpmc;
pub mod spsc;
