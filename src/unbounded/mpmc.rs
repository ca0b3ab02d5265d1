//! Unbounded multi-producer, multi-consumer queue.
use vstd::prelude::*;
use vstd::rwlock::RwLock;
use std::sync::Arc;
use std::sync::atomic::{AtomicUsize, Ordering};

use crate::counter::{give_back, leave};
use crate::unbounded::list::List;
use crate::model::{consumed, produced};
use crate::{ConsumeError, ProduceError};

verus! {

/// The list state of an unbounded MPMC queue.
pub struct Queue<T> {
    list: List<T>,
}

impl<T> Queue<T> {
    /// The items in the queue, front first.
    pub closed spec fn view(&self) -> Seq<T> {
        self.list.view()
    }

    /// The list of nodes.
    pub closed spec fn list(&self) -> List<T> {
        self.list
    }

    /// The list invariant.
    pub closed spec fn wf(&self) -> bool {
        self.list.wf()
    }

    /// Constructs an empty queue: a list of one sentinel node.
    pub fn new() -> (r: Self)
        ensures
            r.wf(),
            r.view() == Seq::<T>::empty(),
            r.list().read_spec() == r.list().write_spec(),
            r.list().node(r.list().read_spec() as int).item_spec() is None,
            r.list().node(r.list().read_spec() as int).next_spec() is None,
    {
        Queue { list: List::new() }
    }

    /// Adds `item` at the back, unless the consumers are gone (`consumers == 0`).
    pub fn produce(&mut self, item: T, consumers: usize) -> (r: Result<(), ProduceError<T>>)
        requires
            old(self).wf(),
        ensures
            final(self).wf(),
            (r, final(self).view()) == produced(old(self).view(), item, consumers, true),
            consumers == 0 ==> *final(self) == *old(self),
            r is Ok ==> {
                let (before, after) = (old(self).list(), final(self).list());
                &&& after.read_spec() == before.read_spec()
                &&& after.node(before.write_spec() as int).next_spec() == Some(after.write_spec())
                &&& after.node(after.write_spec() as int).item_spec() == Some(item)
                &&& after.node(after.write_spec() as int).next_spec() is None
            },
    {
        if consumers == 0 {
            return Err(ProduceError::Disconnected(item));
        }
        self.list.push(item);
        Ok(())
    }

    /// Removes and returns the item at the front. An empty queue reports `Disconnected` when
    /// the producers are gone (`producers == 0`), and `Empty` otherwise.
    pub fn consume(&mut self, producers: usize) -> (r: Result<T, ConsumeError>)
        requires
            old(self).wf(),
        ensures
            final(self).wf(),
            (r, final(self).view()) == consumed(old(self).view(), producers),
            r is Err ==> *final(self) == *old(self),
            r is Ok ==> {
                let (before, after) = (old(self).list(), final(self).list());
                &&& before.node(before.read_spec() as int).next_spec() == Some(after.read_spec())
                &&& after.node(after.read_spec() as int).item_spec() is None
                &&& after.released(before.read_spec())
                &&& after.write_spec() == before.write_spec()
            },
    {
        if self.list.is_empty() {
            if producers == 0 {
                return Err(ConsumeError::Disconnected);
            } else {
                return Err(ConsumeError::Empty);
            }
        }
        Ok(self.list.pop())
    }
}

/// What the lock guards: a well-formed list.
pub open spec fn guarded<T>() -> spec_fn(Queue<T>) -> bool {
    |q: Queue<T>| q.wf()
}

/// The count of free clone slots after one is taken from `free`, or none if none is free.
pub open spec fn taken(free: usize) -> Option<usize> {
    if free > 0 {
        Some((free - 1) as usize)
    } else {
        None
    }
}

/// Takes one of `free` clone slots: the update that cloning applies to the count of free slots.
pub fn take_one(free: usize) -> (r: Option<usize>)
    ensures
        r == taken(free),
{
    if free > 0 {
        Some(free - 1)
    } else {
        None
    }
}

/// Relies on `AtomicUsize::fetch_update`: applies `take_one` to the count of free slots in one
/// atomic step. It returns `Ok` with the count it replaced when `take_one` gave a new count,
/// and `Err` with the count it read when `take_one` gave none.
#[verifier::external_body]
fn take_free_slot(free: &AtomicUsize) -> (r: Result<usize, usize>)
    ensures
        r matches Ok(before) ==> taken(before) is Some,
        r matches Err(before) ==> taken(before) is None,
{
    free.fetch_update(Ordering::AcqRel, Ordering::Acquire, take_one)
}

/// The clone budget: the live handles and the free slots of a channel that allows `clones`
/// clones add up to `clones + 2`. A clone takes a slot and keeps the sum, and none can be taken
/// once `clones + 2` handles live, so at most `clones + 2` handles live at once.
pub proof fn lemma_clone_budget(free: usize, live: nat, clones: nat)
    requires
        free + live == clones + 2,
    ensures
        live <= clones + 2,
        taken(free) matches Some(after) ==> after + (live + 1) == clones + 2,
        taken(free) is None ==> live == clones + 2,
{
}

/// The state that the producers and consumers share.
#[verifier::reject_recursive_types(T)]
struct Shared<T> {
    queue: RwLock<Queue<T>, spec_fn(Queue<T>) -> bool>,
    producers: AtomicUsize,
    consumers: AtomicUsize,
    free: AtomicUsize,
    slots: usize,
}

impl<T> Shared<T> {
    spec fn inv(&self) -> bool {
        self.queue.pred() == guarded::<T>()
    }
}

impl<T> Drop for Shared<T> {
    /// Drops the items still in the queue once no handle is left. vstd's lock keeps its value
    /// in a cell that never drops it, so the queue is taken out of the lock, as
    /// `RwLock::into_inner` does. With no handle left, no one holds the lock or is inside one of
    /// its operations, so the only invariants it opens are closed, and taking it cannot wait.
    #[verifier::external_body]
    fn drop(&mut self)
        opens_invariants none
        no_unwind
    {
        let (queue, _handle) = self.queue.acquire_write();
        drop(queue);
    }
}

/// A consumer for an unbounded MPMC queue.
///
/// It has no `Clone`, which would have to fail once every clone slot is taken: use `try_clone`.
#[verifier::reject_recursive_types(T)]
pub struct Consumer<T> {
    shared: Arc<Shared<T>>,
}

impl<T> Consumer<T> {
    #[verifier::type_invariant]
    spec fn inv(&self) -> bool {
        self.shared.inv()
    }

    /// The number of clone slots of the channel: the initial two handles' and the clones'.
    pub closed spec fn slots_spec(&self) -> nat {
        self.shared.slots as nat
    }

    /// `other` is a consumer of the same channel.
    pub closed spec fn same_channel(&self, other: &Self) -> bool {
        self.shared == other.shared
    }

    /// Attempts to remove and return the item at the front of the queue.
    ///
    /// This returns `Err` if the queue is empty: `Disconnected` once every producer is gone.
    pub fn consume(&self) -> (r: Result<T, ConsumeError>) {
        proof {
            use_type_invariant(self);
        }
        let producers = self.shared.producers.load(Ordering::Acquire);
        let (mut q, handle) = self.shared.queue.acquire_write();
        let r = q.consume(producers);
        handle.release_write(q);
        r
    }

    /// Attempts to clone this consumer: the clone takes a free clone slot, and there is
    /// none once every slot is held.
    pub fn try_clone(&self) -> (r: Option<Self>)
        ensures
            r matches Some(c) ==> c.same_channel(self) && c.slots_spec() == self.slots_spec(),
    {
        proof {
            use_type_invariant(self);
        }
        match take_free_slot(&self.shared.free) {
            Ok(_) => {
                self.shared.consumers.fetch_add(1, Ordering::Release);
                Some(Consumer { shared: self.shared.clone() })
            },
            Err(_) => None,
        }
    }
}

impl<T> Drop for Consumer<T> {
    /// Gives the clone slot back and leaves.
    fn drop(&mut self)
        opens_invariants none
        no_unwind
    {
        give_back(&self.shared.free);
        leave(&self.shared.consumers);
    }
}

/// A producer for an unbounded MPMC queue.
///
/// It has no `Clone`, which would have to fail once every clone slot is taken: use `try_clone`.
#[verifier::reject_recursive_types(T)]
pub struct Producer<T> {
    shared: Arc<Shared<T>>,
}

impl<T> Producer<T> {
    #[verifier::type_invariant]
    spec fn inv(&self) -> bool {
        self.shared.inv()
    }

    /// The number of clone slots of the channel: the initial two handles' and the clones'.
    pub closed spec fn slots_spec(&self) -> nat {
        self.shared.slots as nat
    }

    /// `other` is a producer of the same channel.
    pub closed spec fn same_channel(&self, other: &Self) -> bool {
        self.shared == other.shared
    }

    /// `consumer` takes the items of this producer's channel.
    pub closed spec fn feeds(&self, consumer: &Consumer<T>) -> bool {
        self.shared == consumer.shared
    }

    /// Attempts to add the supplied item to the back of the queue.
    ///
    /// This returns `Err`, with the item, if every consumer is gone; the queue is never full.
    pub fn produce(&self, item: T) -> (r: Result<(), ProduceError<T>>)
        ensures
            r matches Err(e) ==> e == ProduceError::Disconnected(item),
    {
        proof {
            use_type_invariant(self);
        }
        let consumers = self.shared.consumers.load(Ordering::Acquire);
        let (mut q, handle) = self.shared.queue.acquire_write();
        let r = q.produce(item, consumers);
        handle.release_write(q);
        r
    }

    /// Attempts to clone this producer: the clone takes a free clone slot, and there is
    /// none once every slot is held.
    pub fn try_clone(&self) -> (r: Option<Self>)
        ensures
            r matches Some(p) ==> p.same_channel(self) && p.slots_spec() == self.slots_spec(),
    {
        proof {
            use_type_invariant(self);
        }
        match take_free_slot(&self.shared.free) {
            Ok(_) => {
                self.shared.producers.fetch_add(1, Ordering::Release);
                Some(Producer { shared: self.shared.clone() })
            },
            Err(_) => None,
        }
    }
}

impl<T> Drop for Producer<T> {
    /// Gives the clone slot back and leaves.
    fn drop(&mut self)
        opens_invariants none
        no_unwind
    {
        give_back(&self.shared.free);
        leave(&self.shared.producers);
    }
}

/// Returns a producer and consumer for an unbounded MPMC queue.
///
/// At most `clones` further handles, clones of either kind, live beside the first two; a dropped
/// handle frees its slot, the first two included.
pub fn channel<T>(clones: usize) -> (r: (Producer<T>, Consumer<T>))
    requires
        clones + 2 <= usize::MAX,
    ensures
        r.0.feeds(&r.1),
        r.0.slots_spec() == clones + 2,
        r.1.slots_spec() == clones + 2,
{
    let queue = RwLock::new(Queue::new(), Ghost(guarded::<T>()));
    let shared = Arc::new(
        Shared {
            queue,
            producers: AtomicUsize::new(1),
            consumers: AtomicUsize::new(1),
            free: AtomicUsize::new(clones),
            slots: clones + 2,
        },
    );
    (Producer { shared: shared.clone() }, Consumer { shared })
}

} // verus!
