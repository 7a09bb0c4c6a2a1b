//! What holds of every bounded queue, proved from the definitions in
//! [`crate::fifo`]. The operations of [`crate::RingBuffer`] are proved to act
//! on its view exactly as [`Fifo::put`] and [`Fifo::read`] do, so each
//! statement here holds of the circular buffer wherever its cursors stand.

use vstd::prelude::*;
use crate::fifo::{Fifo, Op};

verus! {

/// Values that all find room are appended in the order in which they were
/// put, and none of them is refused.
pub proof fn lemma_put_all<T>(q: Fifo<T>, values: Seq<T>)
    requires
        q.items.len() + values.len() <= q.capacity,
    ensures
        q.accepts_all(values),
        q.put_all(values) == (Fifo { items: q.items + values, capacity: q.capacity }),
    decreases values.len(),
{
    if values.len() == 0 {
        assert(q.items + values =~= q.items);
    } else {
        lemma_put_all(q, values.drop_last());
        assert((q.items + values.drop_last()).push(values.last()) =~= q.items + values);
    }
}

/// Reads take the elements away from the front, one each, until none is
/// left.
pub proof fn lemma_read_n<T>(q: Fifo<T>, count: nat)
    ensures
        q.read_n(count).capacity == q.capacity,
        count <= q.items.len() ==> q.read_n(count).items == q.items.skip(count as int),
        count >= q.items.len() ==> q.read_n(count).is_empty(),
    decreases count,
{
    if count == 0 {
        assert(q.items.skip(0) =~= q.items);
    } else {
        lemma_read_n(q, (count - 1) as nat);
        if count <= q.items.len() {
            assert(q.items.skip(count - 1).drop_first() =~= q.items.skip(count as int));
        }
    }
}

/// A queue that was just made holds nothing: a read of it returns `None`
/// and leaves it as it is.
pub proof fn law_fresh_queue_is_empty<T>(capacity: nat)
    ensures
        Fifo::<T>::empty(capacity).front() is None,
        Fifo::<T>::empty(capacity).read() == Fifo::<T>::empty(capacity),
{
}

/// First in, first out: when at most `capacity` values are put into a fresh
/// queue, each is accepted, the reads that follow return them in the order
/// in which they were put, and the read after the last of them returns
/// `None`.
pub proof fn law_fifo_order<T>(capacity: nat, values: Seq<T>)
    requires
        values.len() <= capacity,
    ensures
        Fifo::<T>::empty(capacity).accepts_all(values),
        forall|i: nat|
            i < values.len() ==> (#[trigger] Fifo::<T>::empty(capacity).put_all(values).read_n(
                i,
            )).front() == Some(values[i as int]),
        Fifo::<T>::empty(capacity).put_all(values).read_n(values.len()).front() is None,
{
    let fresh = Fifo::<T>::empty(capacity);
    let q = fresh.put_all(values);
    lemma_put_all(fresh, values);
    assert(fresh.items + values =~= values);
    assert forall|i: nat| i < values.len() implies (#[trigger] q.read_n(i)).front() == Some(
        values[i as int],
    ) by {
        lemma_read_n(q, i);
    }
    lemma_read_n(q, values.len());
}

/// A queue that was filled to its capacity refuses the next value, and the
/// refused put changes nothing: the queue is the one it was, and its oldest
/// element is still the first that was put.
pub proof fn law_full_queue_rejects<T>(capacity: nat, values: Seq<T>, extra: T)
    requires
        values.len() == capacity,
    ensures
        Fifo::<T>::empty(capacity).accepts_all(values),
        Fifo::<T>::empty(capacity).put_all(values).is_full(),
        Fifo::<T>::empty(capacity).put_all(values).put(extra) == Fifo::<T>::empty(
            capacity,
        ).put_all(values),
        capacity > 0 ==> Fifo::<T>::empty(capacity).put_all(values).put(extra).front() == Some(
            values[0],
        ),
{
    let fresh = Fifo::<T>::empty(capacity);
    lemma_put_all(fresh, values);
    assert(fresh.items + values =~= values);
}

/// A full queue has room for one more value after one read, and the order
/// carries on: the reads that follow return what was left, oldest first,
/// then the value that was put last, then `None`.
pub proof fn law_refill_after_read<T>(capacity: nat, values: Seq<T>, extra: T)
    requires
        capacity >= 1,
        values.len() == capacity,
    ensures
        Fifo::<T>::empty(capacity).put_all(values).front() == Some(values[0]),
        !Fifo::<T>::empty(capacity).put_all(values).read().is_full(),
        Fifo::<T>::empty(capacity).put_all(values).read().put(extra).items
            == values.drop_first().push(extra),
        forall|i: nat|
            i < capacity ==> (#[trigger] Fifo::<T>::empty(capacity).put_all(
                values,
            ).read().put(extra).read_n(i)).front() == Some(
                values.drop_first().push(extra)[i as int],
            ),
        Fifo::<T>::empty(capacity).put_all(values).read().put(extra).read_n(
            capacity,
        ).front() is None,
{
    let fresh = Fifo::<T>::empty(capacity);
    lemma_put_all(fresh, values);
    assert(fresh.items + values =~= values);
    let q = fresh.put_all(values).read().put(extra);
    assert forall|i: nat| i < capacity implies (#[trigger] q.read_n(i)).front() == Some(
        q.items[i as int],
    ) by {
        lemma_read_n(q, i);
    }
    lemma_read_n(q, capacity);
}

/// Whatever is done to a queue that respects its capacity, it goes on
/// respecting it, and the number of elements it holds changes by the puts
/// that were accepted less the reads that handed out an element.
pub proof fn lemma_run_balance<T>(q: Fifo<T>, ops: Seq<Op<T>>)
    requires
        q.within_capacity(),
    ensures
        q.run(ops).within_capacity(),
        q.run(ops).capacity == q.capacity,
        q.run(ops).items.len() == q.items.len() + q.puts_accepted(ops) - q.reads_served(ops),
    decreases ops.len(),
{
    if ops.len() > 0 {
        lemma_run_balance(q, ops.drop_last());
    }
}

/// A queue never holds more than its capacity: after any operations on a
/// fresh queue, the puts that were accepted less the reads that handed out
/// an element are the number of elements held, and at most `capacity`.
pub proof fn law_capacity_conserved<T>(capacity: nat, ops: Seq<Op<T>>)
    ensures
        Fifo::<T>::empty(capacity).run(ops).within_capacity(),
        Fifo::<T>::empty(capacity).puts_accepted(ops) - Fifo::<T>::empty(capacity).reads_served(
            ops,
        ) == Fifo::<T>::empty(capacity).run(ops).items.len(),
        Fifo::<T>::empty(capacity).puts_accepted(ops) - Fifo::<T>::empty(capacity).reads_served(
            ops,
        ) <= capacity,
{
    lemma_run_balance(Fifo::<T>::empty(capacity), ops);
}

} // verus!
