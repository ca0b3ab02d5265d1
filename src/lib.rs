//! Single- and multi-producer FIFO channels over bounded rings and unbounded linked lists.
//!
//! Each variant has a `Queue`: the ring or list state with the variant's protocol (cursors,
//! cached cursors, slot sequence numbers, a sentinel node), whose `produce` and `consume` are
//! proved to behave as the FIFO queue of `model`. A `channel` shares one `Queue` between a
//! `Producer` and a `Consumer` through a lock; each side counts its live handles, and a side
//! whose count reaches zero is reported to the other as `Disconnected`.
use vstd::prelude::*;

pub mod model;
pub mod ring;
pub mod buffer;
mod counter;
pub mod bounded;
pub mod unbounded;

verus! {

/// Indicates the reason a `consume` operation could not return an item.
#[derive(Clone, Copy, Debug, PartialEq, Eq, Structural)]
pub enum ConsumeError {
    /// The queue was empty and had no remaining producers.
    Disconnected,
    /// The queue was empty.
    Empty,
}

impl ConsumeError {
    /// Returns a short description of this error.
    pub fn description(&self) -> (r: &'static str)
        ensures
            *self is Disconnected ==> r@ == "the queue was empty and had no remaining producers"@,
            *self is Empty ==> r@ == "the queue was empty"@,
    {
        match self {
            ConsumeError::Disconnected => "the queue was empty and had no remaining producers",
            ConsumeError::Empty => "the queue was empty",
        }
    }
}

/// Indicates the reason a `produce` operation rejected an item.
///
/// Two errors are equal when they are of the same kind, whatever items they carry.
#[derive(Clone, Copy, Debug, Eq)]
pub enum ProduceError<T> {
    /// The queue had no remaining consumers.
    Disconnected(T),
    /// The queue was full.
    Full(T),
}

impl<T> PartialEq for ProduceError<T> {
    fn eq(&self, other: &Self) -> (r: bool) {
        match (self, other) {
            (ProduceError::Disconnected(_), ProduceError::Disconnected(_)) => true,
            (ProduceError::Full(_), ProduceError::Full(_)) => true,
            _ => false,
        }
    }
}

impl<T> vstd::std_specs::cmp::PartialEqSpecImpl for ProduceError<T> {
    open spec fn obeys_eq_spec() -> bool {
        true
    }

    open spec fn eq_spec(&self, other: &ProduceError<T>) -> bool {
        (*self is Disconnected && *other is Disconnected) || (*self is Full && *other is Full)
    }
}

impl<T> ProduceError<T> {
    /// The rejected item.
    pub open spec fn spec_item(self) -> T {
        match self {
            ProduceError::Disconnected(item) => item,
            ProduceError::Full(item) => item,
        }
    }

    /// Returns the rejected item.
    pub fn item(self) -> (r: T)
        ensures
            r == self.spec_item(),
    {
        match self {
            ProduceError::Disconnected(item) => item,
            ProduceError::Full(item) => item,
        }
    }

    /// Returns a short description of this error.
    pub fn description(&self) -> (r: &'static str)
        ensures
            *self is Disconnected ==> r@ == "the queue had no remaining consumers"@,
            *self is Full ==> r@ == "the queue was full"@,
    {
        match self {
            ProduceError::Disconnected(_) => "the queue had no remaining consumers",
            ProduceError::Full(_) => "the queue was full",
        }
    }
}

} // verus!
