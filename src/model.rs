//! The FIFO queue that every variant implements, and the laws it obeys.
use vstd::prelude::*;

use crate::{ConsumeError, ProduceError};

verus! {

/// The outcome of `produce(item)` on a queue holding `items`: the result and the items after.
///
/// `consumers` is the observed number of live consumers; `room` says whether a slot is free.
pub open spec fn produced<T>(items: Seq<T>, item: T, consumers: usize, room: bool) -> (
    Result<(), ProduceError<T>>,
    Seq<T>,
) {
    if consumers == 0 {
        (Err(ProduceError::Disconnected(item)), items)
    } else if !room {
        (Err(ProduceError::Full(item)), items)
    } else {
        (Ok(()), items.push(item))
    }
}

/// The outcome of `consume()` on a queue holding `items`: the result and the items after.
///
/// `producers` is the observed number of live producers.
pub open spec fn consumed<T>(items: Seq<T>, producers: usize) -> (Result<T, ConsumeError>, Seq<T>) {
    if items.len() == 0 {
        (
            Err(
                if producers == 0 {
                    ConsumeError::Disconnected
                } else {
                    ConsumeError::Empty
                },
            ),
            items,
        )
    } else {
        (Ok(items[0]), items.drop_first())
    }
}

/// Whether a queue holding `items` has a free slot; `capacity` is `None` for an unbounded one.
pub open spec fn has_room<T>(items: Seq<T>, capacity: Option<nat>) -> bool {
    match capacity {
        Some(c) => items.len() < c,
        None => true,
    }
}

/// One call on a queue whose two sides are both connected.
pub enum Step<T> {
    Produce(T),
    Consume,
}

/// What a run of `steps` does to a queue holding `items`: the items after, the items that
/// `produce` accepted, and the items that `consume` returned, each in call order.
pub open spec fn run<T>(items: Seq<T>, capacity: Option<nat>, steps: Seq<Step<T>>) -> (
    Seq<T>,
    Seq<T>,
    Seq<T>,
)
    decreases steps.len(),
{
    if steps.len() == 0 {
        (items, Seq::empty(), Seq::empty())
    } else {
        match steps[0] {
            Step::Produce(x) => {
                let (r, after) = produced(items, x, 1, has_room(items, capacity));
                let (rest, accepted, returned) = run(after, capacity, steps.drop_first());
                if r is Ok {
                    (rest, seq![x] + accepted, returned)
                } else {
                    (rest, accepted, returned)
                }
            },
            Step::Consume => {
                let (r, after) = consumed(items, 1);
                let (rest, accepted, returned) = run(after, capacity, steps.drop_first());
                match r {
                    Ok(x) => (rest, accepted, seq![x] + returned),
                    Err(_) => (rest, accepted, returned),
                }
            },
        }
    }
}

/// Conservation: what was in the queue and what it accepted equals, in order, what it returned
/// followed by what it still holds. Nothing is lost, duplicated or reordered.
pub proof fn lemma_conservation<T>(items: Seq<T>, capacity: Option<nat>, steps: Seq<Step<T>>)
    ensures
        ({
            let (rest, accepted, returned) = run(items, capacity, steps);
            returned + rest == items + accepted
        }),
    decreases steps.len(),
{
    if steps.len() > 0 {
        match steps[0] {
            Step::Produce(x) => {
                let (r, after) = produced(items, x, 1, has_room(items, capacity));
                lemma_conservation(after, capacity, steps.drop_first());
                let (rest, accepted, returned) = run(after, capacity, steps.drop_first());
                if r is Ok {
                    assert(items + (seq![x] + accepted) =~= after + accepted);
                }
            },
            Step::Consume => {
                let (r, after) = consumed(items, 1);
                lemma_conservation(after, capacity, steps.drop_first());
                let (rest, accepted, returned) = run(after, capacity, steps.drop_first());
                if r is Ok {
                    let head = seq![items[0]];
                    assert(returned + rest == after + accepted);
                    assert(head + returned + rest =~= head + (returned + rest));
                    assert(head + (after + accepted) =~= items + accepted);
                }
            },
        }
    }
}

/// Lossless FIFO: once a queue that started empty has been drained, the items came out
/// exactly as they were accepted, so the items of any one producer keep their order.
pub proof fn lemma_fifo<T>(capacity: Option<nat>, steps: Seq<Step<T>>)
    requires
        run(Seq::<T>::empty(), capacity, steps).0.len() == 0,
    ensures
        run(Seq::<T>::empty(), capacity, steps).2 == run(Seq::<T>::empty(), capacity, steps).1,
{
    lemma_conservation(Seq::<T>::empty(), capacity, steps);
    let (rest, accepted, returned) = run(Seq::<T>::empty(), capacity, steps);
    assert(returned =~= returned + rest);
    assert(accepted =~= Seq::<T>::empty() + accepted);
}

/// No duplication: every item is returned at most as often as it was in the queue or accepted.
pub proof fn lemma_no_duplication<T>(items: Seq<T>, capacity: Option<nat>, steps: Seq<Step<T>>)
    ensures
        ({
            let (rest, accepted, returned) = run(items, capacity, steps);
            returned.to_multiset().subset_of((items + accepted).to_multiset())
        }),
{
    lemma_conservation(items, capacity, steps);
    let (rest, accepted, returned) = run(items, capacity, steps);
    vstd::seq_lib::lemma_multiset_commutative(returned, rest);
}

/// Bounded capacity: a bounded queue never holds more items than it has slots.
pub proof fn lemma_bounded<T>(items: Seq<T>, capacity: nat, steps: Seq<Step<T>>)
    requires
        items.len() <= capacity,
    ensures
        run(items, Some(capacity), steps).0.len() <= capacity,
    decreases steps.len(),
{
    if steps.len() > 0 {
        match steps[0] {
            Step::Produce(x) => {
                let (r, after) = produced(items, x, 1, has_room(items, Some(capacity)));
                lemma_bounded(after, capacity, steps.drop_first());
            },
            Step::Consume => {
                let (r, after) = consumed(items, 1);
                lemma_bounded(after, capacity, steps.drop_first());
            },
        }
    }
}

/// Disconnection is terminal: once `consume` has reported `Disconnected`, the queue is empty and
/// unchanged, so every later `consume` while no producer is left reports it again.
pub proof fn lemma_disconnected_terminal<T>(items: Seq<T>)
    requires
        consumed(items, 0).0 == Err::<T, ConsumeError>(ConsumeError::Disconnected),
    ensures
        consumed(items, 0).1 == items,
        consumed(consumed(items, 0).1, 0).0 == Err::<T, ConsumeError>(ConsumeError::Disconnected),
{
}

/// Disconnection is terminal for producers too: with no consumer left, `produce` hands every
/// item back as `Disconnected` and leaves the queue as it was.
pub proof fn lemma_disconnected_producer<T>(items: Seq<T>, item: T, room: bool)
    ensures
        produced(items, item, 0, room) == (
            Err::<(), ProduceError<T>>(ProduceError::Disconnected(item)),
            items,
        ),
{
}

} // verus!
