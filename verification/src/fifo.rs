//! The abstract bounded queue that the circular buffer is measured against.

use vstd::prelude::*;

verus! {

/// A bounded queue as a mathematical value: the elements it holds, oldest
/// first, and the largest number of elements it may hold at once.
pub struct Fifo<T> {
    pub items: Seq<T>,
    pub capacity: nat,
}

/// One operation on a queue.
pub enum Op<T> {
    /// An attempt to append the value.
    Put(T),
    /// An attempt to take the oldest element out.
    Read,
}

impl<T> Fifo<T> {
    /// The queue that holds nothing and may hold up to `capacity` elements.
    pub open spec fn empty(capacity: nat) -> Self {
        Fifo { items: Seq::empty(), capacity }
    }

    /// The queue never holds more than its capacity.
    pub open spec fn within_capacity(self) -> bool {
        self.items.len() <= self.capacity
    }

    /// No element can be read until one has been put.
    pub open spec fn is_empty(self) -> bool {
        self.items.len() == 0
    }

    /// No further element can be accepted until one has been read.
    pub open spec fn is_full(self) -> bool {
        self.items.len() >= self.capacity
    }

    /// The queue after an attempt to append `value`: a full queue refuses
    /// the element and stays as it is.
    pub open spec fn put(self, value: T) -> Self {
        if self.is_full() {
            self
        } else {
            Fifo { items: self.items.push(value), capacity: self.capacity }
        }
    }

    /// What a read hands out: the oldest element, or nothing when the queue
    /// is empty.
    pub open spec fn front(self) -> Option<T> {
        if self.is_empty() {
            None
        } else {
            Some(self.items[0])
        }
    }

    /// The queue after a read: the oldest element is gone, and an empty
    /// queue stays as it is.
    pub open spec fn read(self) -> Self {
        if self.is_empty() {
            self
        } else {
            Fifo { items: self.items.drop_first(), capacity: self.capacity }
        }
    }

    /// The queue after an attempt to put each of `values`, first to last.
    pub open spec fn put_all(self, values: Seq<T>) -> Self
        decreases values.len(),
    {
        if values.len() == 0 {
            self
        } else {
            self.put_all(values.drop_last()).put(values.last())
        }
    }

    /// Whether each of `values`, put one after another, finds room.
    pub open spec fn accepts_all(self, values: Seq<T>) -> bool
        decreases values.len(),
    {
        values.len() == 0 || (self.accepts_all(values.drop_last()) && !self.put_all(
            values.drop_last(),
        ).is_full())
    }

    /// The queue after `count` reads.
    pub open spec fn read_n(self, count: nat) -> Self
        decreases count,
    {
        if count == 0 {
            self
        } else {
            self.read_n((count - 1) as nat).read()
        }
    }

    /// The queue after one operation.
    pub open spec fn step(self, op: Op<T>) -> Self {
        match op {
            Op::Put(value) => self.put(value),
            Op::Read => self.read(),
        }
    }

    /// The queue after the operations `ops`, first to last.
    pub open spec fn run(self, ops: Seq<Op<T>>) -> Self
        decreases ops.len(),
    {
        if ops.len() == 0 {
            self
        } else {
            self.run(ops.drop_last()).step(ops.last())
        }
    }

    /// How many of the puts among `ops` are accepted when the operations
    /// are made one after another on this queue.
    pub open spec fn puts_accepted(self, ops: Seq<Op<T>>) -> nat
        decreases ops.len(),
    {
        if ops.len() == 0 {
            0
        } else if ops.last() is Put && !self.run(ops.drop_last()).is_full() {
            self.puts_accepted(ops.drop_last()) + 1
        } else {
            self.puts_accepted(ops.drop_last())
        }
    }

    /// How many of the reads among `ops` hand out an element when the
    /// operations are made one after another on this queue.
    pub open spec fn reads_served(self, ops: Seq<Op<T>>) -> nat
        decreases ops.len(),
    {
        if ops.len() == 0 {
            0
        } else if ops.last() is Read && !self.run(ops.drop_last()).is_empty() {
            self.reads_served(ops.drop_last()) + 1
        } else {
            self.reads_served(ops.drop_last())
        }
    }
}

} // verus!
