//! Bounded multi-producer, multi-consumer queue with a sequence number in every slot.
use vstd::prelude::*;
use vstd::rwlock::RwLock;
use std::sync::Arc;
use std::sync::atomic::{AtomicUsize, Ordering};

use crate::counter::leave;
use crate::ring::{
    advance, advance_by, ahead, lemma_ahead_dist, lemma_offset_inverse, dist, lemma_ahead_next, lemma_dist_next_from, lemma_dist_next_to,
    lemma_mask_bound, lemma_mask_next, lemma_offset_distinct, lemma_offset_full,
    lemma_offset_shift, lemma_power_of_two_half, mask, next, power_of_two, slot_index, word,
};
use crate::model::{consumed, produced};
use crate::{ConsumeError, ProduceError};

verus! {

/// One cell of the ring and the ticket it waits for.
///
/// A slot that waits for the producer of ticket `k` has sequence `k`; once that producer has
/// filled it, the sequence is `k + 1`, which the consumer of ticket `k` waits for.
pub struct Slot<T> {
    item: Option<T>,
    sequence: u64,
}

impl<T> Slot<T> {
    /// The item in the slot, if any.
    pub closed spec fn item_spec(&self) -> Option<T> {
        self.item
    }

    /// The slot's sequence number.
    pub closed spec fn sequence_spec(&self) -> u64 {
        self.sequence
    }

    /// Constructs an empty slot that waits for ticket `index`.
    pub fn new(index: u64) -> (r: Self)
        ensures
            r.item_spec() is None,
            r.sequence_spec() == index,
    {
        Slot { item: None, sequence: index }
    }

    /// Moves the item out of the slot.
    pub fn get(&mut self) -> (r: T)
        requires
            old(self).item_spec() is Some,
        ensures
            old(self).item_spec() == Some(r),
            final(self).item_spec() is None,
            final(self).sequence_spec() == old(self).sequence_spec(),
    {
        let mut item: Option<T> = None;
        std::mem::swap(&mut item, &mut self.item);
        item.unwrap()
    }

    /// Puts `item` into the empty slot.
    pub fn set(&mut self, item: T)
        requires
            old(self).item_spec() is None,
        ensures
            final(self).item_spec() == Some(item),
            final(self).sequence_spec() == old(self).sequence_spec(),
    {
        self.item = Some(item);
    }
}

/// The signed distance from `b` to `a` on the wrapping cursor line.
pub open spec fn signed_dist(a: u64, b: u64) -> int {
    let d = dist(b, a) as int;
    if d < word() / 2 {
        d
    } else {
        d - word()
    }
}

/// Returns `a - b` read as a signed number, wrapping at the word size.
pub fn difference(a: u64, b: u64) -> (r: i64)
    ensures
        r as int == signed_dist(a, b),
{
    let d = a.wrapping_sub(b);
    if d <= 0x7fff_ffff_ffff_ffff {
        d as i64
    } else {
        -((0xffff_ffff_ffff_ffffu64 - d) as i64) - 1
    }
}

/// Replaces `cursor` by `new` if it holds `current`, and returns whether it did.
pub fn exchange(cursor: &mut u64, current: u64, new: u64) -> (r: bool)
    ensures
        r == (*old(cursor) == current),
        *final(cursor) == if r {
            new
        } else {
            *old(cursor)
        },
{
    if *cursor == current {
        *cursor = new;
        true
    } else {
        false
    }
}

/// The ring state of a bounded MPMC queue: a writer ticket, a reader ticket and the slots.
pub struct Queue<T> {
    write: u64,
    read: u64,
    buffer: Vec<Slot<T>>,
}

impl<T> Queue<T> {
    /// The number of slots.
    pub closed spec fn capacity_spec(&self) -> nat {
        self.buffer@.len()
    }

    /// The writer ticket: the ticket of the next producer.
    pub closed spec fn write_spec(&self) -> u64 {
        self.write
    }

    /// The reader ticket: the ticket of the next consumer.
    pub closed spec fn read_spec(&self) -> u64 {
        self.read
    }

    /// The slot at physical index `p`.
    pub closed spec fn slot(&self, p: int) -> Slot<T> {
        self.buffer@[p]
    }

    closed spec fn head(&self) -> int {
        mask(self.read, self.buffer@.len() as usize)
    }

    closed spec fn count(&self) -> nat {
        dist(self.read, self.write)
    }

    /// How many tickets the slot at physical index `p` lies past the reader ticket.
    closed spec fn offset(&self, p: int) -> int {
        (p - self.head()) % (self.capacity_spec() as int)
    }

    /// The slot at physical index `p` holds an item and waits for the consumer of its ticket.
    pub closed spec fn slot_full(&self, p: int) -> bool {
        &&& self.buffer@[p].item is Some
        &&& self.buffer@[p].sequence == ahead(self.read, self.offset(p) + 1)
    }

    /// The slot at physical index `p` is empty and waits for the producer of its ticket.
    pub closed spec fn slot_empty(&self, p: int) -> bool {
        &&& self.buffer@[p].item is None
        &&& self.buffer@[p].sequence == ahead(self.read, self.offset(p))
    }

    /// The items in the queue, front first.
    pub closed spec fn view(&self) -> Seq<T> {
        Seq::new(
            self.count(),
            |i: int| self.buffer@[(self.head() + i) % (self.capacity_spec() as int)].item->Some_0,
        )
    }

    /// The ring invariant: the `count` slots from the head are full, the others empty.
    pub closed spec fn wf(&self) -> bool {
        let size = self.capacity_spec() as int;
        &&& size <= usize::MAX
        &&& power_of_two(size as usize)
        &&& self.count() <= size
        &&& mask(self.write, size as usize) == (self.head() + self.count()) % size
        &&& forall|i: int|
            0 <= i < size ==> {
                let slot = #[trigger] self.buffer@[(self.head() + i) % size];
                &&& i < self.count() ==> slot.item is Some && slot.sequence == ahead(
                    self.read,
                    i + 1,
                )
                &&& i >= self.count() ==> slot.item is None && slot.sequence == ahead(self.read, i)
            }
    }

    /// Every slot holds an item and waits for the consumer of its ticket.
    pub open spec fn all_full(&self) -> bool {
        forall|p: int| 0 <= p < self.capacity_spec() ==> #[trigger] self.slot_full(p)
    }

    /// Every slot is empty and waits for the producer of its ticket.
    pub open spec fn all_empty(&self) -> bool {
        forall|p: int| 0 <= p < self.capacity_spec() ==> #[trigger] self.slot_empty(p)
    }

    proof fn lemma_slots(&self)
        requires
            self.wf(),
        ensures
            self.count() == self.capacity_spec() ==> self.all_full(),
            self.count() == 0 ==> self.all_empty(),
    {
        let size = self.capacity_spec() as int;
        if self.count() == size {
            assert forall|p: int| 0 <= p < size implies #[trigger] self.slot_full(p) by {
                lemma_offset_inverse(self.head(), p, size);
                let i = self.offset(p);
                assert(self.buffer@[(self.head() + i) % size] == self.buffer@[p]);
            }
        }
        if self.count() == 0 {
            assert forall|p: int| 0 <= p < size implies #[trigger] self.slot_empty(p) by {
                lemma_offset_inverse(self.head(), p, size);
                let i = self.offset(p);
                assert(self.buffer@[(self.head() + i) % size] == self.buffer@[p]);
            }
        }
    }

    /// Constructs an empty queue of `size` slots; slot `i` waits for ticket `i`.
    pub fn new(size: usize) -> (r: Self)
        requires
            power_of_two(size),
        ensures
            r.wf(),
            r.view() == Seq::<T>::empty(),
            r.capacity_spec() == size,
            r.write_spec() == 0,
            r.read_spec() == 0,
            forall|i: int|
                0 <= i < size ==> (#[trigger] r.slot(i)).item_spec() is None && r.slot(
                    i,
                ).sequence_spec() == i,
    {
        let mut buffer: Vec<Slot<T>> = Vec::with_capacity(size);
        let mut i: usize = 0;
        while i < size
            invariant
                i <= size,
                buffer@.len() == i,
                forall|j: int|
                    0 <= j < i ==> (#[trigger] buffer@[j]).item is None && buffer@[j].sequence
                        == j,
            decreases size - i,
        {
            buffer.push(Slot::new(i as u64));
            i = i + 1;
        }
        let r = Queue { write: 0, read: 0, buffer };
        proof {
            lemma_power_of_two_half(size);
            lemma_mask_bound(0, size);
            assert(0u64 & ((size - 1) as u64) == 0) by (bit_vector);
            assert(r.head() == 0);
            vstd::arithmetic::div_mod::lemma_small_mod(0, size as nat);
            assert forall|j: int| 0 <= j < size implies (#[trigger] r.buffer@[(r.head() + j) % (
            size as int)]).item is None && r.buffer@[(r.head() + j) % (size as int)].sequence
                == ahead(r.read, j) by {
                vstd::arithmetic::div_mod::lemma_small_mod(j as nat, size as nat);
                vstd::arithmetic::div_mod::lemma_small_mod(j as nat, word() as nat);
            }
            assert(r.view() =~= Seq::<T>::empty());
        }
        r
    }

    /// Returns the number of slots.
    pub fn capacity(&self) -> (r: usize)
        requires
            self.wf(),
        ensures
            r == self.capacity_spec(),
    {
        self.buffer.len()
    }

    /// Adds `item` at the back, unless the consumers are gone (`consumers == 0`) or the slot of
    /// the writer ticket still waits for a consumer.
    #[verifier::rlimit(40)]
    pub fn produce(&mut self, item: T, consumers: usize) -> (r: Result<(), ProduceError<T>>)
        requires
            old(self).wf(),
        ensures
            final(self).wf(),
            final(self).capacity_spec() == old(self).capacity_spec(),
            (r, final(self).view()) == produced(
                old(self).view(),
                item,
                consumers,
                old(self).view().len() < old(self).capacity_spec(),
            ),
            final(self).view().len() <= final(self).capacity_spec(),
            r matches Err(ProduceError::Full(_)) ==> final(self).all_full(),
            consumers == 0 ==> *final(self) == *old(self),
            r is Ok ==> {
                let w = old(self).write_spec();
                let p = mask(w, old(self).capacity_spec() as usize);
                &&& old(self).slot(p).sequence_spec() == w
                &&& final(self).write_spec() == next(w)
                &&& final(self).slot(p).sequence_spec() == next(w)
                &&& final(self).slot(p).item_spec() == Some(item)
                &&& final(self).read_spec() == old(self).read_spec()
            },
    {
        if consumers == 0 {
            return Err(ProduceError::Disconnected(item));
        }
        let size = self.buffer.len();
        let write = self.write;
        let ghost old_q = *self;
        let ghost s = size as int;
        let ghost h = self.head();
        let ghost n = self.count();
        proof {
            lemma_power_of_two_half(size);
            lemma_mask_bound(write, size);
            lemma_mask_bound(self.read, size);
            lemma_ahead_dist(self.read, write);
            self.lemma_slots();
            let slot = self.buffer@[(h + n) % s];
            if n == s {
                lemma_offset_full(h, s);
                vstd::arithmetic::div_mod::lemma_small_mod(h as nat, size as nat);
                assert(self.buffer@[(h + 0) % s] == slot);
                assert(slot.sequence == ahead(self.read, 1));
                if s >= 2 {
                    assert(signed_dist(slot.sequence, write) < 0);
                } else {
                    assert(write != self.read);
                }
            } else {
                vstd::arithmetic::div_mod::lemma_small_mod(n as nat, size as nat);
                assert(slot.sequence == write);
                assert(signed_dist(slot.sequence, write) == 0);
                assert(s == 1 ==> write == self.read);
            }
        }
        let index = slot_index(write, size);
        let sequence = self.buffer[index].sequence;
        let difference = difference(sequence, write);
        // A single slot waits for the writer ticket both when empty and when still full from the
        // ticket before; its count tells the two apart.
        if difference < 0 || (size == 1 && write != self.read) {
            return Err(ProduceError::Full(item));
        }
        // With the ring to itself, the slot of the writer ticket waits for exactly that ticket.
        let next = advance(write);
        let claimed = exchange(&mut self.write, write, next);
        assert(claimed);
        self.buffer[index].set(item);
        self.buffer[index].sequence = next;
        proof {
            lemma_mask_next(write, size);
            lemma_dist_next_to(self.read, write);
            lemma_ahead_dist(self.read, self.write);
            assert(self.head() == h);
            assert(self.count() == n + 1);
            vstd::arithmetic::div_mod::lemma_add_mod_noop_right(1, h + n, s);
            assert forall|i: int| 0 <= i < s implies {
                let slot = #[trigger] self.buffer@[(h + i) % s];
                &&& i < n + 1 ==> slot.item is Some && slot.sequence == ahead(self.read, i + 1)
                &&& i >= n + 1 ==> slot.item is None && slot.sequence == ahead(self.read, i)
            } by {
                if i != n {
                    lemma_offset_distinct(h, i, n as int, s);
                    assert(self.buffer@[(h + i) % s] == old_q.buffer@[(h + i) % s]);
                }
            }
            assert forall|i: int| 0 <= i < n implies #[trigger] self.buffer@[(h + i) % s]
                == old_q.buffer@[(h + i) % s] by {
                lemma_offset_distinct(h, i, n as int, s);
            }
            assert(self.view() =~= old_q.view().push(item));
        }
        Ok(())
    }

    /// Removes and returns the item at the front. An empty queue reports `Disconnected` when
    /// the producers are gone (`producers == 0`), and `Empty` otherwise.
    pub fn consume(&mut self, producers: usize) -> (r: Result<T, ConsumeError>)
        requires
            old(self).wf(),
        ensures
            final(self).wf(),
            final(self).capacity_spec() == old(self).capacity_spec(),
            (r, final(self).view()) == consumed(old(self).view(), producers),
            final(self).view().len() <= final(self).capacity_spec(),
            r is Err ==> final(self).all_empty() && *final(self) == *old(self),
            r is Ok ==> {
                let rd = old(self).read_spec();
                let p = mask(rd, old(self).capacity_spec() as usize);
                &&& old(self).slot(p).sequence_spec() == next(rd)
                &&& final(self).read_spec() == next(rd)
                &&& final(self).slot(p).sequence_spec() == ahead(rd, old(self).capacity_spec() as int)
                &&& final(self).slot(p).item_spec() is None
                &&& final(self).write_spec() == old(self).write_spec()
            },
    {
        let size = self.buffer.len();
        let read = self.read;
        let ghost old_q = *self;
        let ghost s = size as int;
        let ghost h = self.head();
        let ghost n = self.count();
        proof {
            lemma_power_of_two_half(size);
            lemma_mask_bound(read, size);
            vstd::arithmetic::div_mod::lemma_small_mod(h as nat, size as nat);
            assert(h + 0 == h);
            assert(self.buffer@[(h + 0) % s] == self.buffer@[h]);
            self.lemma_slots();
        }
        let index = slot_index(read, size);
        let sequence = self.buffer[index].sequence;
        let next = advance(read);
        let difference = difference(sequence, next);
        if difference < 0 {
            proof {
                assert(self.view() =~= Seq::<T>::empty());
            }
            if producers == 0 {
                return Err(ConsumeError::Disconnected);
            } else {
                return Err(ConsumeError::Empty);
            }
        }
        // With the ring to itself, the slot of the reader ticket holds that ticket's item.
        let claimed = exchange(&mut self.read, read, next);
        assert(claimed);
        let item = self.buffer[index].get();
        self.buffer[index].sequence = advance_by(next, (size - 1) as u64);
        proof {
            lemma_mask_next(read, size);
            lemma_dist_next_from(read, self.write);
            lemma_ahead_next(read, (size - 1) as int);
            assert(self.head() == (h + 1) % s);
            assert(self.count() == n - 1);
            assert forall|i: int| 0 <= i < s implies {
                let slot = #[trigger] self.buffer@[(self.head() + i) % s];
                &&& i < n - 1 ==> slot.item is Some && slot.sequence == ahead(self.read, i + 1)
                &&& i >= n - 1 ==> slot.item is None && slot.sequence == ahead(self.read, i)
            } by {
                lemma_offset_shift(h, i, s);
                lemma_ahead_next(read, i);
                lemma_ahead_next(read, i + 1);
                if i + 1 < s {
                    lemma_offset_distinct(h, i + 1, 0, s);
                    assert(self.buffer@[(h + (i + 1)) % s] == old_q.buffer@[(h + (i + 1)) % s]);
                } else {
                    lemma_offset_full(h, s);
                }
            }
            lemma_offset_shift(h, n - 1, s);
            assert(mask(self.write, size) == (self.head() + self.count()) % s);
            assert forall|i: int| 0 <= i < n - 1 implies #[trigger] self.buffer@[(self.head() + i)
                % s] == old_q.buffer@[(h + (i + 1)) % s] by {
                lemma_offset_shift(h, i, s);
                lemma_offset_distinct(h, i + 1, 0, s);
            }
            assert(self.view() =~= old_q.view().drop_first());
        }
        Ok(item)
    }
}

/// What the lock guards: a well-formed ring of `size` slots.
pub open spec fn guarded<T>(size: usize) -> spec_fn(Queue<T>) -> bool {
    |q: Queue<T>| q.wf() && q.capacity_spec() == size
}

/// The state that the producers and consumers share.
#[verifier::reject_recursive_types(T)]
struct Shared<T> {
    queue: RwLock<Queue<T>, spec_fn(Queue<T>) -> bool>,
    size: usize,
    producers: AtomicUsize,
    consumers: AtomicUsize,
}

impl<T> Shared<T> {
    spec fn inv(&self) -> bool {
        self.queue.pred() == guarded::<T>(self.size)
    }
}

impl<T> Drop for Shared<T> {
    /// Drops the items still in the queue once no handle is left. vstd's lock keeps its value
    /// in a cell that never drops it, so the queue is taken out of the lock, as
    /// `RwLock::into_inner` does. With no handle left, no one holds the lock or is inside one of
    /// its operations, so the only invariants it opens are closed, and taking it cannot wait.
    #[verifier::external_body]
    fn drop(&mut self)
        opens_invariants none
        no_unwind
    {
        let (queue, _handle) = self.queue.acquire_write();
        drop(queue);
    }
}

/// A consumer for a bounded MPMC queue.
#[verifier::reject_recursive_types(T)]
pub struct Consumer<T> {
    shared: Arc<Shared<T>>,
}

impl<T> Consumer<T> {
    #[verifier::type_invariant]
    spec fn inv(&self) -> bool {
        self.shared.inv()
    }

    /// The number of slots of the queue.
    pub closed spec fn capacity_spec(&self) -> nat {
        self.shared.size as nat
    }

    /// `other` is a consumer of the same channel.
    pub closed spec fn same_channel(&self, other: &Self) -> bool {
        self.shared == other.shared
    }

    /// Attempts to remove and return the item at the front of the queue.
    ///
    /// This returns `Err` if the queue is empty: `Disconnected` once every producer is gone.
    pub fn consume(&self) -> (r: Result<T, ConsumeError>) {
        proof {
            use_type_invariant(self);
        }
        let producers = self.shared.producers.load(Ordering::Acquire);
        let (mut q, handle) = self.shared.queue.acquire_write();
        let r = q.consume(producers);
        handle.release_write(q);
        r
    }
}

impl<T> Clone for Consumer<T> {
    fn clone(&self) -> (r: Self)
        ensures
            r.same_channel(self),
    {
        proof {
            use_type_invariant(self);
        }
        self.shared.consumers.fetch_add(1, Ordering::Release);
        Consumer { shared: self.shared.clone() }
    }
}

impl<T> Drop for Consumer<T> {
    fn drop(&mut self)
        opens_invariants none
        no_unwind
    {
        leave(&self.shared.consumers);
    }
}

/// A producer for a bounded MPMC queue.
#[verifier::reject_recursive_types(T)]
pub struct Producer<T> {
    shared: Arc<Shared<T>>,
}

impl<T> Producer<T> {
    #[verifier::type_invariant]
    spec fn inv(&self) -> bool {
        self.shared.inv()
    }

    /// The number of slots of the queue.
    pub closed spec fn capacity_spec(&self) -> nat {
        self.shared.size as nat
    }

    /// `other` is a producer of the same channel.
    pub closed spec fn same_channel(&self, other: &Self) -> bool {
        self.shared == other.shared
    }

    /// `consumer` takes the items of this producer's channel.
    pub closed spec fn feeds(&self, consumer: &Consumer<T>) -> bool {
        self.shared == consumer.shared
    }

    /// Attempts to add the supplied item to the back of the queue.
    ///
    /// This returns `Err`, with the item, if the queue is full or every consumer is gone.
    pub fn produce(&self, item: T) -> (r: Result<(), ProduceError<T>>)
        ensures
            r matches Err(e) ==> e.spec_item() == item,
    {
        proof {
            use_type_invariant(self);
        }
        let consumers = self.shared.consumers.load(Ordering::Acquire);
        let (mut q, handle) = self.shared.queue.acquire_write();
        let r = q.produce(item, consumers);
        handle.release_write(q);
        r
    }
}

impl<T> Clone for Producer<T> {
    fn clone(&self) -> (r: Self)
        ensures
            r.same_channel(self),
    {
        proof {
            use_type_invariant(self);
        }
        self.shared.producers.fetch_add(1, Ordering::Release);
        Producer { shared: self.shared.clone() }
    }
}

impl<T> Drop for Producer<T> {
    fn drop(&mut self)
        opens_invariants none
        no_unwind
    {
        leave(&self.shared.producers);
    }
}

/// Returns a producer and consumer for a bounded MPMC queue of `size` slots.
pub fn channel<T>(size: usize) -> (r: (Producer<T>, Consumer<T>))
    requires
        power_of_two(size),
    ensures
        r.0.feeds(&r.1),
        r.0.capacity_spec() == size,
        r.1.capacity_spec() == size,
{
    let queue = RwLock::new(Queue::new(size), Ghost(guarded::<T>(size)));
    let shared = Arc::new(
        Shared { queue, size, producers: AtomicUsize::new(1), consumers: AtomicUsize::new(1) },
    );
    (Producer { shared: shared.clone() }, Consumer { shared })
}

} // verus!
