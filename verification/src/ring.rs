//! Sliding-window matcher: a fixed-capacity circular buffer that retains the
//! most recently inserted items, used to detect a multi-character terminator
//! without re-scanning consumed input.

use vstd::prelude::*;
use vstd::pervasive::VecAdditionalExecFns;

verus! {

/// Fixed-capacity circular buffer.  Once `insert` has been called at least
/// `capacity` times, the buffer holds exactly the last `capacity` inserted
/// items; `unroll` reads them back in insertion order.
pub struct Ring<T: Copy> {
    buffer: Vec<T>,
    capacity: usize,
    playhead: usize,
}

impl<T: Copy> View for Ring<T> {
    type V = Seq<T>;

    /// The buffered items in chronological order, oldest first.
    closed spec fn view(&self) -> Seq<T> {
        if self.playhead <= self.buffer@.len() {
            self.buffer@.subrange(self.playhead as int, self.buffer@.len() as int)
                + self.buffer@.subrange(0, self.playhead as int)
        } else {
            self.buffer@
        }
    }
}

impl<T: Copy> Ring<T> {
    /// The capacity the ring was created with.
    pub closed spec fn spec_capacity(&self) -> nat {
        self.capacity as nat
    }

    /// Physical position the next insertion writes to.
    pub closed spec fn spec_playhead(&self) -> nat {
        self.playhead as nat
    }

    /// Structural invariant: the storage never outgrows the capacity, and the
    /// playhead trails the logical end of the buffer while it is filling up.
    pub closed spec fn wf(&self) -> bool {
        &&& self.buffer@.len() <= self.capacity
        &&& (self.buffer@.len() < self.capacity ==> self.playhead == self.buffer@.len())
        &&& (self.capacity > 0 ==> self.playhead < self.capacity)
        &&& (self.capacity == 0 ==> self.playhead == 0)
    }

    /// A fresh ring of the given capacity, holding nothing.
    pub fn new(capacity: usize) -> (r: Ring<T>)
        ensures
            r.wf(),
            r@ == Seq::<T>::empty(),
            r.spec_capacity() == capacity,
            r.spec_playhead() == 0,
    {
        let r = Ring { buffer: Vec::new(), capacity, playhead: 0 };
        proof {
            assert(r@ =~= Seq::<T>::empty());
        }
        r
    }

    /// Append an item while the ring is filling up; thereafter overwrite the
    /// logically oldest slot, so the ring keeps exactly the last
    /// `capacity` items in insertion order.  A capacity of zero is degenerate:
    /// nothing is ever retained.
    pub fn insert(&mut self, item: T)
        requires
            old(self).wf(),
        ensures
            final(self).wf(),
            final(self).spec_capacity() == old(self).spec_capacity(),
            old(self).spec_capacity() == 0 ==> final(self)@ == old(self)@,
            old(self)@.len() < old(self).spec_capacity() ==> final(self)@ == old(self)@.push(
                item,
            ),
            old(self)@.len() >= old(self).spec_capacity() > 0 ==> final(self)@ == old(
                self,
            )@.subrange(1, old(self)@.len() as int).push(item),
            final(self).spec_playhead() == (if old(self).spec_playhead() + 1 == old(
                self,
            ).spec_capacity() || old(self).spec_capacity() == 0 {
                0int
            } else {
                old(self).spec_playhead() + 1int
            }),
    {
        if self.capacity == 0 {
            return ;
        }
        let ghost pre = *self;
        if self.buffer.len() == self.capacity {
            self.buffer.set(self.playhead, item);
        } else {
            self.buffer.push(item);
        }
        self.playhead = self.playhead + 1;
        if self.playhead == self.capacity {
            self.playhead = 0;
        }
        proof {
            if pre.buffer@.len() < pre.capacity {
                assert(final(self)@ =~= pre@.push(item));
            } else {
                assert(final(self)@ =~= pre@.subrange(1, pre@.len() as int).push(item));
            }
        }
    }

    /// The buffered items in chronological order, oldest first, regardless of
    /// where they physically sit.
    pub fn unroll(&self) -> (r: Vec<T>)
        requires
            self.wf(),
        ensures
            r@ == self@,
    {
        let mut result: Vec<T> = Vec::new();
        let mut i: usize = self.playhead;
        while i < self.buffer.len()
            invariant
                self.wf(),
                self.playhead <= i <= self.buffer@.len(),
                result@ =~= self.buffer@.subrange(self.playhead as int, i as int),
            decreases self.buffer@.len() - i,
        {
            result.push(self.buffer[i]);
            i = i + 1;
        }
        let mut j: usize = 0;
        while j < self.playhead
            invariant
                self.wf(),
                0 <= j <= self.playhead <= self.buffer@.len(),
                result@ =~= self.buffer@.subrange(
                    self.playhead as int,
                    self.buffer@.len() as int,
                ) + self.buffer@.subrange(0, j as int),
            decreases self.playhead - j,
        {
            result.push(self.buffer[j]);
            j = j + 1;
        }
        proof {
            assert(result@ =~= self@);
        }
        result
    }

    /// Physical position the next insertion writes to, exposed for
    /// inspection.
    pub fn playhead(&self) -> (r: usize)
        ensures
            r == self.spec_playhead(),
    {
        self.playhead
    }
}

/// The contents of a ring of capacity `cap` after the items of `items` have
/// been inserted, in order, into a fresh ring.
pub open spec fn ring_after_inserts<T>(cap: nat, items: Seq<T>) -> Seq<T>
    decreases items.len(),
{
    if items.len() == 0 {
        Seq::<T>::empty()
    } else {
        let prev = ring_after_inserts(cap, items.drop_last());
        if cap == 0 {
            prev
        } else if prev.len() < cap {
            prev.push(items.last())
        } else {
            prev.subrange(1, prev.len() as int).push(items.last())
        }
    }
}

/// The ring never holds more than `cap` items, and while fewer than `cap`
/// have been inserted it holds all of them.
pub proof fn lemma_ring_after_inserts_len<T>(cap: nat, items: Seq<T>)
    ensures
        ring_after_inserts(cap, items).len() == if items.len() <= cap {
            items.len()
        } else {
            cap
        },
    decreases items.len(),
{
    if items.len() > 0 {
        lemma_ring_after_inserts_len(cap, items.drop_last());
    }
}

/// While the ring is filling up it retains every inserted item, in order.
pub proof fn lemma_ring_keeps_all_while_filling<T>(cap: nat, items: Seq<T>)
    requires
        items.len() <= cap,
    ensures
        ring_after_inserts(cap, items) =~= items,
    decreases items.len(),
{
    if items.len() > 0 {
        lemma_ring_keeps_all_while_filling(cap, items.drop_last());
    }
}

/// Law of the sliding window: for any capacity `cap >= 1`, after inserting at
/// least `cap` items into a fresh ring, the ring holds exactly the last `cap`
/// inserted items, in insertion order.
pub proof fn lemma_ring_keeps_last_items<T>(cap: nat, items: Seq<T>)
    requires
        cap >= 1,
        items.len() >= cap,
    ensures
        ring_after_inserts(cap, items) =~= items.subrange(
            items.len() - cap,
            items.len() as int,
        ),
    decreases items.len(),
{
    lemma_ring_after_inserts_len(cap, items.drop_last());
    if items.len() == cap {
        lemma_ring_keeps_all_while_filling(cap, items.drop_last());
        assert(ring_after_inserts(cap, items) =~= items.subrange(
            items.len() - cap,
            items.len() as int,
        ));
    } else {
        lemma_ring_keeps_last_items(cap, items.drop_last());
        assert(ring_after_inserts(cap, items) =~= items.subrange(
            items.len() - cap,
            items.len() as int,
        ));
    }
}

} // verus!
