//! The circular buffer: a vector of `capacity + 1` slots and two cursors.

use vstd::prelude::*;
use vstd::arithmetic::div_mod::lemma_fundamental_div_mod_converse;
use crate::fifo::Fifo;

verus! {

/// The text that a refused `put` carries.
pub const BUFFER_FULL: &'static str = "Buffer is full";

/// The slot `steps` places after slot `from` in a circular store of `slots`
/// slots.
pub open spec fn slot_after(from: int, steps: int, slots: int) -> int {
    (from + steps) % slots
}

/// The number of places from slot `from` forward to slot `to` in a circular
/// store of `slots` slots.
pub open spec fn distance(from: int, to: int, slots: int) -> int {
    (to - from) % slots
}

/// Remainders of numbers that are at most one lap away from `[0, n)`.
proof fn lemma_one_lap(x: int, n: int)
    requires
        0 < n,
        -n <= x < 2 * n,
    ensures
        x % n == if x < 0 {
            x + n
        } else if x < n {
            x
        } else {
            x - n
        },
{
    if x < 0 {
        lemma_fundamental_div_mod_converse(x, n, -1, x + n);
    } else if x < n {
        lemma_fundamental_div_mod_converse(x, n, 0, x);
    } else {
        lemma_fundamental_div_mod_converse(x, n, 1, x - n);
    }
}

/// One step on from a slot leads to the next slot, or to slot 0 from the
/// last one.
pub proof fn lemma_next_slot(from: int, slots: int)
    requires
        0 <= from < slots,
    ensures
        slot_after(from, 1, slots) == if from + 1 == slots {
            0
        } else {
            from + 1
        },
{
    lemma_one_lap(from + 1, slots);
}

/// A first-in-first-out queue of at most `capacity` elements, held in a
/// store of `capacity + 1` slots that is allocated once. One slot always
/// stays unused, so that two cursors alone tell an empty queue (the cursors
/// meet) from a full one (the write cursor stands one slot behind the read
/// cursor). A queue made with capacity 0 is full from the start and never
/// holds anything.
pub struct RingBuffer<T> {
    buffer: Vec<T>,
    write_index: usize,
    read_index: usize,
    capacity: usize,
}

impl<T> RingBuffer<T> {
    /// What every buffer satisfies: the store has one slot more than the
    /// capacity, and both cursors point into it.
    #[verifier::type_invariant]
    pub closed spec fn well_formed(&self) -> bool {
        &&& self.buffer.len() == self.capacity + 1
        &&& self.read_index < self.buffer.len()
        &&& self.write_index < self.buffer.len()
    }

    /// The backing store, live and stale slots alike.
    pub closed spec fn store(&self) -> Seq<T> {
        self.buffer@
    }

    /// The slot that the next read takes from.
    pub closed spec fn read_cursor(&self) -> int {
        self.read_index as int
    }

    /// The slot that the next put writes to.
    pub closed spec fn write_cursor(&self) -> int {
        self.write_index as int
    }

    /// The largest number of elements that the buffer holds at once.
    pub closed spec fn capacity(&self) -> nat {
        self.capacity as nat
    }

    /// The number of slots of the backing store.
    pub open spec fn slots(&self) -> int {
        self.store().len() as int
    }

    /// The number of elements held: the distance from the read cursor
    /// forward to the write cursor.
    pub open spec fn occupancy(&self) -> int {
        distance(self.read_cursor(), self.write_cursor(), self.slots())
    }
}

impl<T> View for RingBuffer<T> {
    type V = Fifo<T>;

    /// The queue that the buffer stands for: the slots from the read cursor
    /// up to, and without, the write cursor, walked circularly.
    open spec fn view(&self) -> Fifo<T> {
        Fifo {
            items: Seq::new(
                self.occupancy() as nat,
                |k: int| self.store()[slot_after(self.read_cursor(), k, self.slots())],
            ),
            capacity: self.capacity(),
        }
    }
}

impl<T> RingBuffer<T> {
    /// The cursors stay inside the store, the queue never exceeds its
    /// capacity, and the cursors alone tell whether it is empty or full.
    pub proof fn lemma_well_formed(self)
        requires
            self.well_formed(),
        ensures
            self.slots() == self@.capacity + 1,
            0 <= self.read_cursor() < self.slots(),
            0 <= self.write_cursor() < self.slots(),
            self@.items.len() == self.occupancy(),
            self@.within_capacity(),
            self@.is_empty() <==> self.read_cursor() == self.write_cursor(),
            self@.is_full() <==> slot_after(self.write_cursor(), 1, self.slots())
                == self.read_cursor(),
    {
        let n = self.slots();
        lemma_one_lap(self.write_cursor() - self.read_cursor(), n);
        lemma_next_slot(self.write_cursor(), n);
    }
}

/// What a slot holds right after construction: a copy of a value that
/// `T::default()` returned.
pub open spec fn default_copy<T: Default + Copy>(value: T) -> bool {
    exists|d: T| call_ensures(T::default, (), d) && cloned(d, value)
}

impl<T> RingBuffer<T> where T: Default, T: Copy {
    /// Makes an empty buffer that holds up to `capacity` elements. The store
    /// gets `capacity + 1` slots, each filled with the default value, and
    /// both cursors start at slot 0. The number of slots has to fit in a
    /// `usize`, so `capacity` must be less than `usize::MAX`.
    pub fn new(capacity: usize) -> (q: Self)
        requires
            capacity < usize::MAX,
        ensures
            q@ == Fifo::<T>::empty(capacity as nat),
            q.slots() == capacity + 1,
            q.read_cursor() == 0,
            q.write_cursor() == 0,
            forall|i: int| 0 <= i < q.slots() ==> default_copy(#[trigger] q.store()[i]),
    {
        let fill: T = T::default();
        let q = RingBuffer {
            capacity,
            buffer: vec![fill; capacity + 1],
            write_index: 0,
            read_index: 0,
        };
        proof {
            lemma_one_lap(0, q.slots());
            assert(q@.items =~= Seq::<T>::empty());
        }
        q
    }

    /// Takes the oldest element out of the buffer, or returns `None` and
    /// changes nothing when the buffer is empty. A read moves the read
    /// cursor one slot on and leaves the store as it is: the slot that was
    /// read keeps its value, out of reach until a later put overwrites it.
    pub fn read(&mut self) -> (r: Option<T>)
        ensures
            r == old(self)@.front(),
            final(self)@ == old(self)@.read(),
            old(self)@.is_empty() ==> *final(self) == *old(self),
            !old(self)@.is_empty() ==> final(self).read_cursor() == slot_after(
                old(self).read_cursor(),
                1,
                old(self).slots(),
            ),
            final(self).store() == old(self).store(),
            final(self).write_cursor() == old(self).write_cursor(),
    {
        proof {
            use_type_invariant(&*self);
            self.lemma_well_formed();
        }
        if self.read_index == self.write_index {
            return None;
        }
        let value: T = self.buffer[self.read_index];
        self.read_index = (self.read_index + 1) % self.buffer.len();
        proof {
            let n = self.slots();
            let from = old(self).read_cursor();
            lemma_one_lap(from, n);
            lemma_next_slot(from, n);
            lemma_one_lap(self.write_cursor() - from, n);
            lemma_one_lap(self.write_cursor() - self.read_cursor(), n);
            assert forall|k: int| 0 <= k < self.occupancy() implies slot_after(
                self.read_cursor(),
                k,
                n,
            ) == slot_after(from, k + 1, n) by {
                lemma_one_lap(self.read_cursor() + k, n);
                lemma_one_lap(from + k + 1, n);
            }
            assert(self@.items =~= old(self)@.items.drop_first());
        }
        Some(value)
    }

    /// Appends `arg` behind the elements already held. A full buffer
    /// refuses the element: nothing is written, nothing is overwritten, and
    /// the error carries the text [`BUFFER_FULL`]. An accepted element is
    /// stored in the slot under the write cursor, which then moves one slot
    /// on.
    pub fn put(&mut self, arg: T) -> (r: Result<(), &'static str>)
        ensures
            final(self)@ == old(self)@.put(arg),
            old(self)@.is_full() ==> r == Err::<(), &'static str>(BUFFER_FULL),
            old(self)@.is_full() ==> *final(self) == *old(self),
            !old(self)@.is_full() ==> r == Ok::<(), &'static str>(()),
            !old(self)@.is_full() ==> final(self).store() == old(self).store().update(
                old(self).write_cursor(),
                arg,
            ),
            !old(self)@.is_full() ==> final(self).write_cursor() == slot_after(
                old(self).write_cursor(),
                1,
                old(self).slots(),
            ),
            final(self).read_cursor() == old(self).read_cursor(),
    {
        proof {
            use_type_invariant(&*self);
            self.lemma_well_formed();
        }
        let next: usize = (self.write_index + 1) % (self.capacity + 1);
        if next == self.read_index {
            return Err(BUFFER_FULL);
        }
        self.buffer[self.write_index] = arg;
        self.write_index = next;
        proof {
            let n = self.slots();
            let from = self.read_cursor();
            let at = old(self).write_cursor();
            lemma_next_slot(at, n);
            lemma_one_lap(at - from, n);
            lemma_one_lap(self.write_cursor() - from, n);
            assert forall|k: int| 0 <= k < self.occupancy() implies (slot_after(from, k, n) == at
                <==> k == old(self).occupancy()) by {
                lemma_one_lap(from + k, n);
            }
            assert(self@.items =~= old(self)@.items.push(arg));
        }
        Ok(())
    }
}

} // verus!
