//! A fixed power-of-two number of cells, each empty or holding one item.
use vstd::prelude::*;
use crate::ring::{index_mask, lemma_index_mask_bound, power_of_two};

verus! {

/// A fixed size buffer.
///
/// Its view is the sequence of cells; `None` is an empty cell.
pub struct Buffer<T> {
    data: Vec<Option<T>>,
    size: usize,
}

impl<T> View for Buffer<T> {
    type V = Seq<Option<T>>;

    closed spec fn view(&self) -> Seq<Option<T>> {
        self.data@
    }
}

impl<T> Buffer<T> {
    /// The stored size agrees with the cells.
    pub closed spec fn inv(&self) -> bool {
        self.data@.len() == self.size
    }

    /// A well-formed buffer: its number of cells is a power of two.
    pub open spec fn wf(&self) -> bool {
        &&& self.inv()
        &&& self@.len() <= usize::MAX
        &&& power_of_two(self@.len() as usize)
    }

    /// Constructs a new `Buffer` of `size` empty cells.
    pub fn new(size: usize) -> (r: Self)
        requires
            power_of_two(size),
        ensures
            r.wf(),
            r@ == Seq::new(size as nat, |i: int| None::<T>),
    {
        let mut data: Vec<Option<T>> = Vec::with_capacity(size);
        let mut i: usize = 0;
        while i < size
            invariant
                i <= size,
                data@ == Seq::new(i as nat, |j: int| None::<T>),
            decreases size - i,
        {
            data.push(None);
            i = i + 1;
        }
        Buffer { data, size }
    }

    /// Returns the size of this buffer.
    pub fn size(&self) -> (r: usize)
        requires
            self.wf(),
        ensures
            r == self@.len(),
    {
        self.size
    }

    /// Moves the item out of the cell at `index`, leaving it empty.
    pub fn get(&mut self, index: usize) -> (r: T)
        requires
            old(self).wf(),
            index < old(self)@.len(),
            old(self)@[index as int] is Some,
        ensures
            final(self).wf(),
            old(self)@[index as int] == Some(r),
            final(self)@ == old(self)@.update(index as int, None),
    {
        let mut item: Option<T> = None;
        std::mem::swap(&mut item, &mut self.data[index]);
        assert(self.data@ =~= old(self)@.update(index as int, None));
        item.unwrap()
    }

    /// Moves the item out of the cell at `index` after wrapping the index.
    pub fn wrapping_get(&mut self, index: usize) -> (r: T)
        requires
            old(self).wf(),
            old(self)@[index_mask(index, old(self)@.len() as usize)] is Some,
        ensures
            final(self).wf(),
            old(self)@[index_mask(index, old(self)@.len() as usize)] == Some(r),
            final(self)@ == old(self)@.update(index_mask(index, old(self)@.len() as usize), None),
    {
        proof {
            lemma_index_mask_bound(index, self@.len() as usize);
        }
        self.get(index & (self.size - 1))
    }

    /// Puts `item` into the empty cell at `index`.
    pub fn set(&mut self, index: usize, item: T)
        requires
            old(self).wf(),
            index < old(self)@.len(),
            old(self)@[index as int] is None,
        ensures
            final(self).wf(),
            final(self)@ == old(self)@.update(index as int, Some(item)),
    {
        self.data.set(index, Some(item));
    }

    /// Puts `item` into the empty cell at `index` after wrapping the index.
    pub fn wrapping_set(&mut self, index: usize, item: T)
        requires
            old(self).wf(),
            old(self)@[index_mask(index, old(self)@.len() as usize)] is None,
        ensures
            final(self).wf(),
            final(self)@ == old(self)@.update(
                index_mask(index, old(self)@.len() as usize),
                Some(item),
            ),
    {
        proof {
            lemma_index_mask_bound(index, self@.len() as usize);
        }
        self.set(index & (self.size - 1), item);
    }
}

} // verus!
