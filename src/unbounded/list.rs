//! A linked list of nodes whose first node, the sentinel, holds no item.
//!
//! Nodes live in an arena and link to each other by index; the indices of released nodes
//! are kept for reuse.
use vstd::prelude::*;

verus! {

/// A node of the list: an item (none in the sentinel) and the index of the next node.
pub struct Node<T> {
    item: Option<T>,
    next: Option<usize>,
}

impl<T> Node<T> {
    /// The item in the node, if any.
    pub closed spec fn item_spec(&self) -> Option<T> {
        self.item
    }

    /// The index of the next node, if any.
    pub closed spec fn next_spec(&self) -> Option<usize> {
        self.next
    }

    /// Constructs a node that holds `item` and links to nothing.
    pub fn new(item: Option<T>) -> (r: Self)
        ensures
            r.item_spec() == item,
            r.next_spec() is None,
    {
        Node { item, next: None }
    }
}

/// The list: `read` is the sentinel, `write` the last node.
pub struct List<T> {
    write: usize,
    read: usize,
    nodes: Vec<Node<T>>,
    free: Vec<usize>,
    chain: Ghost<Seq<usize>>,
}

impl<T> List<T> {
    /// The index of the sentinel node.
    pub closed spec fn read_spec(&self) -> usize {
        self.read
    }

    /// The index of the last node.
    pub closed spec fn write_spec(&self) -> usize {
        self.write
    }

    /// The node at index `i` of the arena.
    pub closed spec fn node(&self, i: int) -> Node<T> {
        self.nodes@[i]
    }

    /// Node `i` has been released and waits for reuse.
    pub closed spec fn released(&self, i: usize) -> bool {
        self.free@.contains(i)
    }

    /// The items of the nodes after the sentinel, front first.
    pub closed spec fn view(&self) -> Seq<T> {
        Seq::new(
            (self.chain@.len() - 1) as nat,
            |i: int| self.nodes@[self.chain@[i + 1] as int].item->Some_0,
        )
    }

    /// The list invariant: `chain` runs from the sentinel to the last node along `next`,
    /// visits each node once, and shares no node with the released ones.
    pub closed spec fn wf(&self) -> bool {
        let chain = self.chain@;
        let nodes = self.nodes@;
        &&& chain.len() >= 1
        &&& chain[0] == self.read
        &&& chain.last() == self.write
        &&& chain.no_duplicates()
        &&& forall|i: int| 0 <= i < chain.len() ==> #[trigger] chain[i] < nodes.len()
        &&& forall|i: int|
            0 <= i < chain.len() - 1 ==> nodes[#[trigger] chain[i] as int].next == Some(
                chain[i + 1],
            )
        &&& nodes[self.write as int].next is None
        &&& nodes[self.read as int].item is None
        &&& forall|i: int| 1 <= i < chain.len() ==> nodes[#[trigger] chain[i] as int].item is Some
        &&& self.free@.no_duplicates()
        &&& forall|i: int| 0 <= i < self.free@.len() ==> #[trigger] self.free@[i] < nodes.len()
        &&& forall|i: int, j: int|
            0 <= i < self.free@.len() && 0 <= j < chain.len() ==> #[trigger] self.free@[i]
                != #[trigger] chain[j]
    }

    /// Constructs a list that holds only a sentinel.
    pub fn new() -> (r: Self)
        ensures
            r.wf(),
            r.view() == Seq::<T>::empty(),
            r.read_spec() == r.write_spec(),
            r.node(r.read_spec() as int).item_spec() is None,
            r.node(r.read_spec() as int).next_spec() is None,
    {
        let mut nodes: Vec<Node<T>> = Vec::new();
        nodes.push(Node::new(None));
        let chain: Ghost<Seq<usize>> = Ghost(Seq::empty().push(0usize));
        let r = List { write: 0, read: 0, nodes, free: Vec::new(), chain };
        proof {
            assert(r.view() =~= Seq::<T>::empty());
        }
        r
    }

    /// Returns whether the sentinel is the last node, so that the list holds no item.
    pub fn is_empty(&self) -> (r: bool)
        requires
            self.wf(),
        ensures
            r == (self.view().len() == 0),
    {
        self.nodes[self.read].next.is_none()
    }

    /// Stores `node` in a released slot of the arena, or in a new one.
    fn allocate(&mut self, node: Node<T>) -> (r: usize)
        requires
            old(self).wf(),
        ensures
            final(self).wf(),
            final(self).view() == old(self).view(),
            final(self).chain@ == old(self).chain@,
            final(self).read == old(self).read,
            final(self).write == old(self).write,
            r < final(self).nodes@.len(),
            final(self).nodes@[r as int] == node,
            !final(self).chain@.contains(r),
            forall|k: int| 0 <= k < final(self).free@.len() ==> #[trigger] final(self).free@[k] != r,
            forall|k: int|
                0 <= k < old(self).nodes@.len() && k != r ==> #[trigger] final(self).nodes@[k]
                    == old(self).nodes@[k],
    {
        let ghost chain = self.chain@;
        match self.free.pop() {
            Some(index) => {
                proof {
                    let last = old(self).free@.len() - 1;
                    assert(old(self).free@[last] == index);
                    assert forall|j: int| 0 <= j < chain.len() implies chain[j] != index by {
                        assert(old(self).free@[last] != chain[j]);
                    }
                    assert forall|k: int| 0 <= k < self.free@.len() implies #[trigger] self.free@[k]
                        != index by {
                        assert(self.free@[k] == old(self).free@[k]);
                    }
                }
                self.nodes.set(index, node);
                proof {
                    assert(self.view() =~= old(self).view());
                }
                index
            },
            None => {
                let index = self.nodes.len();
                self.nodes.push(node);
                proof {
                    assert(self.view() =~= old(self).view());
                }
                index
            },
        }
    }

    /// Adds `item` at the back: links a new node after the last one.
    pub fn push(&mut self, item: T)
        requires
            old(self).wf(),
        ensures
            final(self).wf(),
            final(self).view() == old(self).view().push(item),
            final(self).read_spec() == old(self).read_spec(),
            final(self).write_spec() != old(self).write_spec(),
            final(self).node(old(self).write_spec() as int).next_spec() == Some(
                final(self).write_spec(),
            ),
            final(self).node(final(self).write_spec() as int).item_spec() == Some(item),
            final(self).node(final(self).write_spec() as int).next_spec() is None,
    {
        let node = self.allocate(Node::new(Some(item)));
        let ghost chain = self.chain@;
        let write = self.write;
        proof {
            assert(chain[chain.len() - 1] == write);
            assert(node != write);
        }
        self.nodes[write].next = Some(node);
        self.write = node;
        self.chain = Ghost(chain.push(node));
        proof {
            let c = self.chain@;
            assert forall|i: int| 0 <= i < c.len() - 1 implies self.nodes@[#[trigger] c[i] as int].next
                == Some(c[i + 1]) by {
                if i < chain.len() - 1 {
                    assert(c[i] != write) by {
                        assert(chain[i] != chain[chain.len() - 1]);
                    }
                }
            }
            assert forall|i: int| 1 <= i < c.len() implies self.nodes@[#[trigger] c[i] as int].item
                is Some by {
                if i < chain.len() {
                    assert(c[i] == chain[i]);
                }
            }
            assert(self.nodes@[self.read as int].item is None) by {
                assert(chain[0] == self.read);
            }
            assert forall|k: int, j: int|
                0 <= k < self.free@.len() && 0 <= j < c.len() implies #[trigger] self.free@[k]
                != #[trigger] c[j] by {
                if j < chain.len() {
                    assert(c[j] == chain[j]);
                }
            }
            assert(self.view() =~= old(self).view().push(item));
        }
    }

    /// Removes and returns the item at the front: the first node after the sentinel gives up
    /// its item and becomes the sentinel, and the old sentinel is released.
    pub fn pop(&mut self) -> (r: T)
        requires
            old(self).wf(),
            old(self).view().len() > 0,
        ensures
            final(self).wf(),
            r == old(self).view()[0],
            final(self).view() == old(self).view().drop_first(),
            old(self).node(old(self).read_spec() as int).next_spec() == Some(
                final(self).read_spec(),
            ),
            final(self).node(final(self).read_spec() as int).item_spec() is None,
            final(self).released(old(self).read_spec()),
            final(self).write_spec() == old(self).write_spec(),
    {
        let ghost chain = self.chain@;
        let read = self.read;
        let next = self.nodes[read].next.unwrap();
        let mut item: Option<T> = None;
        std::mem::swap(&mut item, &mut self.nodes[next].item);
        self.free.push(read);
        proof {
            assert(self.free@[self.free@.len() - 1] == read);
        }
        self.read = next;
        self.chain = Ghost(chain.drop_first());
        proof {
            let c = self.chain@;
            assert(chain[0] == read);
            assert(chain[1] == next);
            assert forall|i: int| 0 <= i < c.len() implies #[trigger] c[i] == chain[i + 1] by {}
            assert forall|i: int| 0 <= i < c.len() - 1 implies self.nodes@[#[trigger] c[i] as int].next
                == Some(c[i + 1]) by {
                assert(c[i] == chain[i + 1]);
            }
            assert forall|i: int| 1 <= i < c.len() implies self.nodes@[#[trigger] c[i] as int].item
                is Some by {
                assert(c[i] == chain[i + 1]);
                assert(chain[i + 1] != chain[1]);
            }
            assert(self.nodes@[self.write as int].next is None) by {
                assert(chain.last() == c.last());
            }
            assert forall|k: int, j: int|
                0 <= k < self.free@.len() && 0 <= j < c.len() implies #[trigger] self.free@[k]
                != #[trigger] c[j] by {
                assert(c[j] == chain[j + 1]);
                if k == self.free@.len() - 1 {
                    assert(chain[0] != chain[j + 1]);
                } else {
                    assert(self.free@[k] == old(self).free@[k]);
                }
            }
            assert(self.free@.no_duplicates()) by {
                assert forall|k: int| 0 <= k < old(self).free@.len() implies old(self).free@[k]
                    != read by {
                    assert(old(self).free@[k] != chain[0]);
                }
            }
            assert forall|i: int| 0 <= i < old(self).view().len() - 1 implies #[trigger] self.nodes@[c[i
                + 1] as int] == old(self).nodes@[chain[i + 2] as int] by {
                assert(chain[i + 2] != chain[1]);
            }
            assert(self.view() =~= old(self).view().drop_first());
        }
        item.unwrap()
    }
}

} // verus!
