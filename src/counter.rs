//! Live-handle and free-slot counts shared by the handles of a channel.
use vstd::prelude::*;
use std::sync::atomic::{AtomicUsize, Ordering};

verus! {

/// Relies on `AtomicUsize::store`: records that the only handle of a side is gone.
/// A store neither unwinds nor opens an invariant, so a destructor may call it.
#[verifier::external_body]
pub(crate) fn disconnect(count: &AtomicUsize)
    opens_invariants none
    no_unwind
{
    count.store(0, Ordering::Release);
}

/// Relies on `AtomicUsize::fetch_sub`: records that one handle of a side is gone.
/// The subtraction neither unwinds nor opens an invariant, so a destructor may call it.
#[verifier::external_body]
pub(crate) fn leave(count: &AtomicUsize)
    opens_invariants none
    no_unwind
{
    count.fetch_sub(1, Ordering::Release);
}

/// Relies on `AtomicUsize::fetch_add`: gives one slot back to a count of free slots.
/// The addition neither unwinds nor opens an invariant, so a destructor may call it.
#[verifier::external_body]
pub(crate) fn give_back(count: &AtomicUsize)
    opens_invariants none
    no_unwind
{
    count.fetch_add(1, Ordering::Release);
}

} // verus!
