//! Unbounded single-producer, single-consumer queue.
use vstd::prelude::*;
use vstd::rwlock::RwLock;
use std::sync::Arc;
use std::sync::atomic::{AtomicUsize, Ordering};

use crate::counter::disconnect;
use crate::unbounded::list::List;
use crate::model::{consumed, produced};
use crate::{ConsumeError, ProduceError};

verus! {

/// The list state of an unbounded SPSC queue.
pub struct Queue<T> {
    list: List<T>,
}

impl<T> Queue<T> {
    /// The items in the queue, front first.
    pub closed spec fn view(&self) -> Seq<T> {
        self.list.view()
    }

    /// The list of nodes.
    pub closed spec fn list(&self) -> List<T> {
        self.list
    }

    /// The list invariant.
    pub closed spec fn wf(&self) -> bool {
        self.list.wf()
    }

    /// Constructs an empty queue: a list of one sentinel node.
    pub fn new() -> (r: Self)
        ensures
            r.wf(),
            r.view() == Seq::<T>::empty(),
            r.list().read_spec() == r.list().write_spec(),
            r.list().node(r.list().read_spec() as int).item_spec() is None,
            r.list().node(r.list().read_spec() as int).next_spec() is None,
    {
        Queue { list: List::new() }
    }

    /// Adds `item` at the back, unless the consumer is gone (`consumers == 0`).
    pub fn produce(&mut self, item: T, consumers: usize) -> (r: Result<(), ProduceError<T>>)
        requires
            old(self).wf(),
        ensures
            final(self).wf(),
            (r, final(self).view()) == produced(old(self).view(), item, consumers, true),
            consumers == 0 ==> *final(self) == *old(self),
            r is Ok ==> {
                let (before, after) = (old(self).list(), final(self).list());
                &&& after.read_spec() == before.read_spec()
                &&& after.node(before.write_spec() as int).next_spec() == Some(after.write_spec())
                &&& after.node(after.write_spec() as int).item_spec() == Some(item)
                &&& after.node(after.write_spec() as int).next_spec() is None
            },
    {
        if consumers == 0 {
            return Err(ProduceError::Disconnected(item));
        }
        self.list.push(item);
        Ok(())
    }

    /// Removes and returns the item at the front. An empty queue reports `Disconnected` when
    /// the producer is gone (`producers == 0`), and `Empty` otherwise.
    pub fn consume(&mut self, producers: usize) -> (r: Result<T, ConsumeError>)
        requires
            old(self).wf(),
        ensures
            final(self).wf(),
            (r, final(self).view()) == consumed(old(self).view(), producers),
            r is Err ==> *final(self) == *old(self),
            r is Ok ==> {
                let (before, after) = (old(self).list(), final(self).list());
                &&& before.node(before.read_spec() as int).next_spec() == Some(after.read_spec())
                &&& after.node(after.read_spec() as int).item_spec() is None
                &&& after.released(before.read_spec())
                &&& after.write_spec() == before.write_spec()
            },
    {
        if self.list.is_empty() {
            if producers == 0 {
                return Err(ConsumeError::Disconnected);
            } else {
                return Err(ConsumeError::Empty);
            }
        }
        Ok(self.list.pop())
    }
}

/// What the lock guards: a well-formed list.
pub open spec fn guarded<T>() -> spec_fn(Queue<T>) -> bool {
    |q: Queue<T>| q.wf()
}

/// The state that a producer and a consumer share.
#[verifier::reject_recursive_types(T)]
struct Shared<T> {
    queue: RwLock<Queue<T>, spec_fn(Queue<T>) -> bool>,
    producer: AtomicUsize,
    consumer: AtomicUsize,
}

impl<T> Shared<T> {
    spec fn inv(&self) -> bool {
        self.queue.pred() == guarded::<T>()
    }
}

impl<T> Drop for Shared<T> {
    /// Drops the items still in the queue once no handle is left. vstd's lock keeps its value
    /// in a cell that never drops it, so the queue is taken out of the lock, as
    /// `RwLock::into_inner` does. With no handle left, no one holds the lock or is inside one of
    /// its operations, so the only invariants it opens are closed, and taking it cannot wait.
    #[verifier::external_body]
    fn drop(&mut self)
        opens_invariants none
        no_unwind
    {
        let (queue, _handle) = self.queue.acquire_write();
        drop(queue);
    }
}

/// A consumer for an unbounded SPSC queue.
#[verifier::reject_recursive_types(T)]
pub struct Consumer<T> {
    shared: Arc<Shared<T>>,
}

impl<T> Consumer<T> {
    #[verifier::type_invariant]
    spec fn inv(&self) -> bool {
        self.shared.inv()
    }

    /// `other` is a consumer of the same channel.
    pub closed spec fn same_channel(&self, other: &Self) -> bool {
        self.shared == other.shared
    }

    /// Attempts to remove and return the item at the front of the queue.
    ///
    /// This returns `Err` if the queue is empty: `Disconnected` once the producer is gone.
    pub fn consume(&self) -> (r: Result<T, ConsumeError>) {
        proof {
            use_type_invariant(self);
        }
        let producers = self.shared.producer.load(Ordering::Acquire);
        let (mut q, handle) = self.shared.queue.acquire_write();
        let r = q.consume(producers);
        handle.release_write(q);
        r
    }
}

impl<T> Drop for Consumer<T> {
    fn drop(&mut self)
        opens_invariants none
        no_unwind
    {
        disconnect(&self.shared.consumer);
    }
}

/// A producer for an unbounded SPSC queue.
#[verifier::reject_recursive_types(T)]
pub struct Producer<T> {
    shared: Arc<Shared<T>>,
}

impl<T> Producer<T> {
    #[verifier::type_invariant]
    spec fn inv(&self) -> bool {
        self.shared.inv()
    }

    /// `other` is a producer of the same channel.
    pub closed spec fn same_channel(&self, other: &Self) -> bool {
        self.shared == other.shared
    }

    /// `consumer` takes the items of this producer's channel.
    pub closed spec fn feeds(&self, consumer: &Consumer<T>) -> bool {
        self.shared == consumer.shared
    }

    /// Attempts to add the supplied item to the back of the queue.
    ///
    /// This returns `Err`, with the item, if the consumer is gone; the queue is never full.
    pub fn produce(&self, item: T) -> (r: Result<(), ProduceError<T>>)
        ensures
            r matches Err(e) ==> e == ProduceError::Disconnected(item),
    {
        proof {
            use_type_invariant(self);
        }
        let consumers = self.shared.consumer.load(Ordering::Acquire);
        let (mut q, handle) = self.shared.queue.acquire_write();
        let r = q.produce(item, consumers);
        handle.release_write(q);
        r
    }
}

impl<T> Drop for Producer<T> {
    fn drop(&mut self)
        opens_invariants none
        no_unwind
    {
        disconnect(&self.shared.producer);
    }
}

/// Returns a producer and consumer for an unbounded SPSC queue.
pub fn channel<T>() -> (r: (Producer<T>, Consumer<T>))
    ensures
        r.0.feeds(&r.1),
{
    let queue = RwLock::new(Queue::new(), Ghost(guarded::<T>()));
    let shared = Arc::new(
        Shared { queue, producer: AtomicUsize::new(1), consumer: AtomicUsize::new(1) },
    );
    (Producer { shared: shared.clone() }, Consumer { shared })
}

} // verus!
