//! Bounded single-producer, single-consumer queue.
use vstd::prelude::*;
use vstd::rwlock::RwLock;
use std::sync::Arc;
use std::sync::atomic::{AtomicUsize, Ordering};

use crate::buffer::Buffer;
use crate::counter::disconnect;
use crate::ring::{
    advance, dist, distance, lemma_dist_next_from, lemma_dist_next_to, lemma_mask_bound,
    lemma_mask_next, lemma_offset_distinct, lemma_offset_full, lemma_offset_shift,
    lemma_power_of_two_half, mask, power_of_two, slot_index,
};
use crate::model::{consumed, produced};
use crate::{ConsumeError, ProduceError};

verus! {

/// The ring state of a bounded SPSC queue.
///
/// `write` and `read` are the producer's and the consumer's cursors. Each side also keeps
/// a copy of the other side's cursor (`read_copy`, `write_copy`) that it refreshes only when
/// the copy makes the queue look full or empty.
pub struct Queue<T> {
    write: u64,
    read_copy: u64,
    read: u64,
    write_copy: u64,
    buffer: Buffer<T>,
}

impl<T> Queue<T> {
    /// The number of slots.
    pub closed spec fn capacity_spec(&self) -> nat {
        self.buffer@.len()
    }

    closed spec fn head(&self) -> int {
        mask(self.read, self.buffer@.len() as usize)
    }

    closed spec fn count(&self) -> nat {
        dist(self.read, self.write)
    }

    /// The items in the queue, front first.
    pub closed spec fn view(&self) -> Seq<T> {
        Seq::new(
            self.count(),
            |i: int| self.buffer@[(self.head() + i) % (self.capacity_spec() as int)]->Some_0,
        )
    }

    /// The ring invariant.
    pub closed spec fn wf(&self) -> bool {
        let size = self.capacity_spec() as int;
        &&& self.buffer.wf()
        &&& self.count() <= size
        &&& mask(self.write, size as usize) == (self.head() + self.count()) % size
        &&& forall|i: int|
            0 <= i < size ==> (#[trigger] self.buffer@[(self.head() + i) % size] is Some <==> i
                < self.count())
        &&& dist(self.read_copy, self.read) + self.count() == dist(self.read_copy, self.write)
        &&& dist(self.read_copy, self.write) <= size
        &&& dist(self.read, self.write_copy) + dist(self.write_copy, self.write) == self.count()
    }

    /// Constructs an empty queue of `size` slots.
    pub fn new(size: usize) -> (r: Self)
        requires
            power_of_two(size),
        ensures
            r.wf(),
            r.view() == Seq::<T>::empty(),
            r.capacity_spec() == size,
    {
        let buffer = Buffer::new(size);
        let r = Queue { write: 0, read_copy: 0, read: 0, write_copy: 0, buffer };
        proof {
            lemma_mask_bound(0, size);
            assert(0u64 & ((size - 1) as u64) == 0) by (bit_vector);
            assert(r.head() == 0);
            assert(r.count() == 0);
            vstd::arithmetic::div_mod::lemma_small_mod(0, size as nat);
            assert forall|i: int| 0 <= i < size implies !(#[trigger] r.buffer@[(r.head() + i) % (
            size as int)] is Some) by {
                vstd::arithmetic::div_mod::lemma_small_mod(i as nat, size as nat);
            }
            assert(r.view() =~= Seq::<T>::empty());
        }
        r
    }

    /// Returns the number of items in the queue.
    pub fn len(&self) -> (r: usize)
        requires
            self.wf(),
        ensures
            r == self.view().len(),
    {
        distance_within(self.read, self.write, self.buffer.size())
    }

    /// Returns whether the queue holds no item.
    pub fn is_empty(&self) -> (r: bool)
        requires
            self.wf(),
        ensures
            r == (self.view().len() == 0),
    {
        self.read == self.write
    }

    /// Returns the number of slots.
    pub fn capacity(&self) -> (r: usize)
        requires
            self.wf(),
        ensures
            r == self.capacity_spec(),
    {
        self.buffer.size()
    }

    /// Adds `item` at the back, unless the consumer is gone (`consumers == 0`) or every slot
    /// is taken.
    pub fn produce(&mut self, item: T, consumers: usize) -> (r: Result<(), ProduceError<T>>)
        requires
            old(self).wf(),
        ensures
            final(self).wf(),
            final(self).capacity_spec() == old(self).capacity_spec(),
            (r, final(self).view()) == produced(
                old(self).view(),
                item,
                consumers,
                old(self).view().len() < old(self).capacity_spec(),
            ),
            final(self).view().len() <= final(self).capacity_spec(),
            consumers == 0 ==> *final(self) == *old(self),
    {
        if consumers == 0 {
            return Err(ProduceError::Disconnected(item));
        }
        let size = self.buffer.size();
        let write = self.write;
        if distance(self.read_copy, write) == size as u64 {
            self.read_copy = self.read;
            if distance(self.read_copy, write) == size as u64 {
                return Err(ProduceError::Full(item));
            }
        }
        let ghost old_q = *self;
        let ghost s = size as int;
        let ghost h = self.head();
        let ghost n = self.count();
        proof {
            lemma_power_of_two_half(size);
            lemma_mask_bound(write, size);
            vstd::arithmetic::div_mod::lemma_small_mod(n as nat, size as nat);
            assert(self.buffer@[(h + n) % s] is None);
        }
        let index = slot_index(write, size);
        self.buffer.set(index, item);
        self.write = advance(write);
        proof {
            lemma_mask_next(write, size);
            lemma_dist_next_to(self.read, write);
            lemma_dist_next_to(self.read_copy, write);
            lemma_dist_next_to(self.write_copy, write);
            assert(self.head() == h);
            assert(self.count() == n + 1);
            assert forall|i: int| 0 <= i < s implies (#[trigger] self.buffer@[(h + i) % s] is Some
                <==> i < n + 1) by {
                if i != n {
                    lemma_offset_distinct(h, i, n as int, s);
                }
            }
            vstd::arithmetic::div_mod::lemma_add_mod_noop_right(1, h + n, s);
            assert forall|i: int| 0 <= i < n implies #[trigger] self.buffer@[(h + i) % s]
                == old_q.buffer@[(h + i) % s] by {
                lemma_offset_distinct(h, i, n as int, s);
            }
            assert(self.view() =~= old_q.view().push(item));
        }
        Ok(())
    }

    /// Removes and returns the item at the front. An empty queue reports `Disconnected` when
    /// the producer is gone (`producers == 0`), and `Empty` otherwise.
    pub fn consume(&mut self, producers: usize) -> (r: Result<T, ConsumeError>)
        requires
            old(self).wf(),
        ensures
            final(self).wf(),
            final(self).capacity_spec() == old(self).capacity_spec(),
            (r, final(self).view()) == consumed(old(self).view(), producers),
            final(self).view().len() <= final(self).capacity_spec(),
    {
        let read = self.read;
        if read == self.write_copy {
            self.write_copy = self.write;
            if read == self.write_copy {
                proof {
                    assert(self.view() =~= Seq::<T>::empty());
                }
                if producers == 0 {
                    return Err(ConsumeError::Disconnected);
                } else {
                    return Err(ConsumeError::Empty);
                }
            }
        }
        let size = self.buffer.size();
        let ghost old_q = *self;
        let ghost s = size as int;
        let ghost h = self.head();
        let ghost n = self.count();
        proof {
            lemma_mask_bound(read, size);
            vstd::arithmetic::div_mod::lemma_small_mod(h as nat, size as nat);
            assert(h + 0 == h);
            assert(self.buffer@[(h + 0) % s] is Some);
        }
        let index = slot_index(read, size);
        let item = self.buffer.get(index);
        self.read = advance(read);
        proof {
            lemma_mask_next(read, size);
            lemma_dist_next_from(read, self.write);
            lemma_dist_next_from(read, self.write_copy);
            lemma_dist_next_to(self.read_copy, read);
            assert(self.head() == (h + 1) % s);
            assert(self.count() == n - 1);
            assert forall|i: int| 0 <= i < s implies (#[trigger] self.buffer@[(self.head() + i) % s]
                is Some <==> i < n - 1) by {
                lemma_offset_shift(h, i, s);
                if i + 1 < s {
                    lemma_offset_distinct(h, i + 1, 0, s);
                    assert(old_q.buffer@[(h + (i + 1)) % s] is Some <==> i + 1 < n);
                } else {
                    lemma_offset_full(h, s);
                }
            }
            lemma_offset_shift(h, n - 1, s);
            assert(mask(self.write, size) == (self.head() + self.count()) % s);
            assert forall|i: int| 0 <= i < n - 1 implies #[trigger] self.buffer@[(self.head() + i)
                % s] == old_q.buffer@[(h + (i + 1)) % s] by {
                lemma_offset_shift(h, i, s);
                lemma_offset_distinct(h, i + 1, 0, s);
            }
            assert(self.view() =~= old_q.view().drop_first());
        }
        Ok(item)
    }
}

/// What the lock guards: a well-formed ring of `size` slots.
pub open spec fn guarded<T>(size: usize) -> spec_fn(Queue<T>) -> bool {
    |q: Queue<T>| q.wf() && q.capacity_spec() == size
}

/// The state that a producer and a consumer share.
#[verifier::reject_recursive_types(T)]
struct Shared<T> {
    queue: RwLock<Queue<T>, spec_fn(Queue<T>) -> bool>,
    size: usize,
    producer: AtomicUsize,
    consumer: AtomicUsize,
}

impl<T> Shared<T> {
    spec fn inv(&self) -> bool {
        self.queue.pred() == guarded::<T>(self.size)
    }

    /// Returns the number of items in the queue at this instant.
    fn len(&self) -> (r: usize)
        requires
            self.inv(),
        ensures
            r <= self.size,
    {
        let (q, handle) = self.queue.acquire_write();
        let r = q.len();
        handle.release_write(q);
        r
    }

    /// Returns whether the queue holds no item at this instant.
    fn is_empty(&self) -> (r: bool)
        requires
            self.inv(),
    {
        let (q, handle) = self.queue.acquire_write();
        let r = q.is_empty();
        handle.release_write(q);
        r
    }
}

impl<T> Drop for Shared<T> {
    /// Drops the items still in the queue once no handle is left. vstd's lock keeps its value
    /// in a cell that never drops it, so the queue is taken out of the lock, as
    /// `RwLock::into_inner` does. With no handle left, no one holds the lock or is inside one of
    /// its operations, so the only invariants it opens are closed, and taking it cannot wait.
    #[verifier::external_body]
    fn drop(&mut self)
        opens_invariants none
        no_unwind
    {
        let (queue, _handle) = self.queue.acquire_write();
        drop(queue);
    }
}

/// A consumer for a bounded SPSC queue.
#[verifier::reject_recursive_types(T)]
pub struct Consumer<T> {
    shared: Arc<Shared<T>>,
}

impl<T> Consumer<T> {
    #[verifier::type_invariant]
    spec fn inv(&self) -> bool {
        self.shared.inv()
    }

    /// `other` is a consumer of the same channel.
    pub closed spec fn same_channel(&self, other: &Self) -> bool {
        self.shared == other.shared
    }

    /// The number of slots of the queue.
    pub closed spec fn capacity_spec(&self) -> nat {
        self.shared.size as nat
    }

    /// Attempts to remove and return the item at the front of the queue.
    ///
    /// This returns `Err` if the queue is empty: `Disconnected` once the producer is gone.
    pub fn consume(&self) -> (r: Result<T, ConsumeError>) {
        proof {
            use_type_invariant(self);
        }
        let producers = self.shared.producer.load(Ordering::Acquire);
        let (mut q, handle) = self.shared.queue.acquire_write();
        let r = q.consume(producers);
        handle.release_write(q);
        r
    }

    /// Returns the number of items currently in the queue.
    pub fn len(&self) -> (r: usize)
        ensures
            r <= self.capacity_spec(),
    {
        proof {
            use_type_invariant(self);
        }
        self.shared.len()
    }

    /// Returns whether the queue is currently empty, as `Queue::is_empty` finds the queue at
    /// one instant; the other side may change it at any time.
    pub fn is_empty(&self) -> (r: bool) {
        proof {
            use_type_invariant(self);
        }
        self.shared.is_empty()
    }

    /// Returns the maximum number of items the queue can contain.
    pub fn capacity(&self) -> (r: usize)
        ensures
            r == self.capacity_spec(),
    {
        self.shared.size
    }
}

impl<T> Drop for Consumer<T> {
    fn drop(&mut self)
        opens_invariants none
        no_unwind
    {
        disconnect(&self.shared.consumer);
    }
}

/// A producer for a bounded SPSC queue.
#[verifier::reject_recursive_types(T)]
pub struct Producer<T> {
    shared: Arc<Shared<T>>,
}

impl<T> Producer<T> {
    #[verifier::type_invariant]
    spec fn inv(&self) -> bool {
        self.shared.inv()
    }

    /// `other` is a producer of the same channel.
    pub closed spec fn same_channel(&self, other: &Self) -> bool {
        self.shared == other.shared
    }

    /// `consumer` takes the items of this producer's channel.
    pub closed spec fn feeds(&self, consumer: &Consumer<T>) -> bool {
        self.shared == consumer.shared
    }

    /// The number of slots of the queue.
    pub closed spec fn capacity_spec(&self) -> nat {
        self.shared.size as nat
    }

    /// Attempts to add the supplied item to the back of the queue.
    ///
    /// This returns `Err`, with the item, if the queue is full or the consumer is gone.
    pub fn produce(&self, item: T) -> (r: Result<(), ProduceError<T>>)
        ensures
            r matches Err(e) ==> e.spec_item() == item,
    {
        proof {
            use_type_invariant(self);
        }
        let consumers = self.shared.consumer.load(Ordering::Acquire);
        let (mut q, handle) = self.shared.queue.acquire_write();
        let r = q.produce(item, consumers);
        handle.release_write(q);
        r
    }

    /// Returns the number of items currently in the queue.
    pub fn len(&self) -> (r: usize)
        ensures
            r <= self.capacity_spec(),
    {
        proof {
            use_type_invariant(self);
        }
        self.shared.len()
    }

    /// Returns whether the queue is currently empty, as `Queue::is_empty` finds the queue at
    /// one instant; the other side may change it at any time.
    pub fn is_empty(&self) -> (r: bool) {
        proof {
            use_type_invariant(self);
        }
        self.shared.is_empty()
    }

    /// Returns the maximum number of items the queue can contain.
    pub fn capacity(&self) -> (r: usize)
        ensures
            r == self.capacity_spec(),
    {
        self.shared.size
    }
}

impl<T> Drop for Producer<T> {
    fn drop(&mut self)
        opens_invariants none
        no_unwind
    {
        disconnect(&self.shared.producer);
    }
}

/// Returns a producer and consumer for a bounded SPSC queue of `size` slots.
pub fn channel<T>(size: usize) -> (r: (Producer<T>, Consumer<T>))
    requires
        power_of_two(size),
    ensures
        r.0.feeds(&r.1),
        r.0.capacity_spec() == size,
        r.1.capacity_spec() == size,
{
    let queue = RwLock::new(Queue::new(size), Ghost(guarded::<T>(size)));
    let shared = Arc::new(
        Shared { queue, size, producer: AtomicUsize::new(1), consumer: AtomicUsize::new(1) },
    );
    (Producer { shared: shared.clone() }, Consumer { shared })
}

/// Returns how far `to` is ahead of `from`, where that distance is known to be at most `size`.
fn distance_within(from: u64, to: u64, size: usize) -> (r: usize)
    requires
        dist(from, to) <= size,
    ensures
        r == dist(from, to),
{
    distance(from, to) as usize
}

} // verus!
