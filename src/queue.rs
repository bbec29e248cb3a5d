//! The two bounded hand-off queues between the capture lanes and the flusher.
//!
//! Producers share the queues while capture runs and push without blocking;
//! a push onto a full queue fails and the item is dropped silently (the
//! engine's own drop reports are the only loss this pipeline counts). Once
//! every producer has stopped and released its handle, the flusher holds the
//! queues alone: the operations here take them by `&mut`, which is what lets
//! their contracts speak of the queue's contents.
use crate::record::PacketRecord;
use crossbeam_queue::ArrayQueue;
use vstd::prelude::*;

verus! {

#[verifier::external_type_specification]
#[verifier::external_body]
#[verifier::reject_recursive_types(T)]
pub struct ExArrayQueue<T>(ArrayQueue<T>);

/// The records held by a packet queue, oldest first.
pub uninterp spec fn packet_queue_items(q: ArrayQueue<PacketRecord>) -> Seq<PacketRecord>;

/// The capacity a packet queue was made with.
pub uninterp spec fn packet_queue_capacity(q: ArrayQueue<PacketRecord>) -> nat;

/// The miss increments held by a miss-count queue, oldest first.
pub uninterp spec fn miss_queue_items(q: ArrayQueue<u64>) -> Seq<u64>;

/// The capacity a miss-count queue was made with.
pub uninterp spec fn miss_queue_capacity(q: ArrayQueue<u64>) -> nat;

/// Whether a queue of capacity `cap` can be made: the capacity is not zero,
/// and the queue's slots (at most 64 bytes each here) fit in one buffer of
/// at most `isize::MAX` bytes.
pub open spec fn capacity_fits(cap: int) -> bool {
    0 < cap && cap * 64 <= isize::MAX
}

/// Relies on crossbeam_queue::ArrayQueue::new: an empty queue of the given
/// capacity (it panics on a capacity of zero, and when the slot buffer is
/// too large to allocate).
#[verifier::external_body]
fn packet_queue_new(cap: usize) -> (q: ArrayQueue<PacketRecord>)
    requires
        capacity_fits(cap as int),
    ensures
        packet_queue_items(q) == Seq::<PacketRecord>::empty(),
        packet_queue_capacity(q) == cap,
{
    ArrayQueue::new(cap)
}

/// Relies on crossbeam_queue::ArrayQueue::push: on a queue held alone, the
/// item goes to the back when the queue is below capacity; otherwise the
/// queue is unchanged and the item comes back.
#[verifier::external_body]
fn packet_queue_push(q: &mut ArrayQueue<PacketRecord>, item: PacketRecord) -> (r: Result<
    (),
    PacketRecord,
>)
    ensures
        packet_queue_capacity(*final(q)) == packet_queue_capacity(*old(q)),
        packet_queue_items(*old(q)).len() < packet_queue_capacity(*old(q)) ==> {
            &&& r is Ok
            &&& packet_queue_items(*final(q)) == packet_queue_items(*old(q)).push(item)
        },
        packet_queue_items(*old(q)).len() >= packet_queue_capacity(*old(q)) ==> {
            &&& r == Err::<(), PacketRecord>(item)
            &&& packet_queue_items(*final(q)) == packet_queue_items(*old(q))
        },
{
    q.push(item).map_err(|e| e.0)
}

/// Relies on crossbeam_queue::ArrayQueue::pop: on a queue held alone, the
/// oldest item leaves, or nothing when the queue is empty.
#[verifier::external_body]
fn packet_queue_pop(q: &mut ArrayQueue<PacketRecord>) -> (r: Option<PacketRecord>)
    ensures
        packet_queue_capacity(*final(q)) == packet_queue_capacity(*old(q)),
        packet_queue_items(*old(q)).len() == 0 ==> {
            &&& r is None
            &&& packet_queue_items(*final(q)) == packet_queue_items(*old(q))
        },
        packet_queue_items(*old(q)).len() > 0 ==> {
            &&& r == Some(packet_queue_items(*old(q))[0])
            &&& packet_queue_items(*final(q)) == packet_queue_items(*old(q)).drop_first()
        },
{
    q.pop().ok()
}

/// Relies on crossbeam_queue::ArrayQueue::new: an empty queue of the given
/// capacity (it panics on a capacity of zero, and when the slot buffer is
/// too large to allocate).
#[verifier::external_body]
fn miss_queue_new(cap: usize) -> (q: ArrayQueue<u64>)
    requires
        capacity_fits(cap as int),
    ensures
        miss_queue_items(q) == Seq::<u64>::empty(),
        miss_queue_capacity(q) == cap,
{
    ArrayQueue::new(cap)
}

/// Relies on crossbeam_queue::ArrayQueue::push: on a queue held alone, the
/// item goes to the back when the queue is below capacity; otherwise the
/// queue is unchanged and the item comes back.
#[verifier::external_body]
fn miss_queue_push(q: &mut ArrayQueue<u64>, item: u64) -> (r: Result<(), u64>)
    ensures
        miss_queue_capacity(*final(q)) == miss_queue_capacity(*old(q)),
        miss_queue_items(*old(q)).len() < miss_queue_capacity(*old(q)) ==> {
            &&& r is Ok
            &&& miss_queue_items(*final(q)) == miss_queue_items(*old(q)).push(item)
        },
        miss_queue_items(*old(q)).len() >= miss_queue_capacity(*old(q)) ==> {
            &&& r == Err::<(), u64>(item)
            &&& miss_queue_items(*final(q)) == miss_queue_items(*old(q))
        },
{
    q.push(item).map_err(|e| e.0)
}

/// Relies on crossbeam_queue::ArrayQueue::pop: on a queue held alone, the
/// oldest item leaves, or nothing when the queue is empty.
#[verifier::external_body]
fn miss_queue_pop(q: &mut ArrayQueue<u64>) -> (r: Option<u64>)
    ensures
        miss_queue_capacity(*final(q)) == miss_queue_capacity(*old(q)),
        miss_queue_items(*old(q)).len() == 0 ==> {
            &&& r is None
            &&& miss_queue_items(*final(q)) == miss_queue_items(*old(q))
        },
        miss_queue_items(*old(q)).len() > 0 ==> {
            &&& r == Some(miss_queue_items(*old(q))[0])
            &&& miss_queue_items(*final(q)) == miss_queue_items(*old(q)).drop_first()
        },
{
    q.pop().ok()
}

/// Capacity that bounds each queue: as many packets of the engine's maximum
/// size as fit in the system's memory. `None` when that is zero packets,
/// when the maximum packet size is zero, or when the queue's slots could not
/// be allocated in one buffer.
pub fn queue_capacity(total_memory: u64, max_packet_size: u32) -> (r: Option<usize>)
    ensures
        r is Some <==> (max_packet_size > 0 && capacity_fits(
            (total_memory / (max_packet_size as u64)) as int,
        )),
        r matches Some(c) ==> c == total_memory / (max_packet_size as u64),
{
    if max_packet_size == 0 {
        return None;
    }
    let q = total_memory / (max_packet_size as u64);
    if q == 0 || q > (isize::MAX as u64) / 64 {
        None
    } else {
        Some(q as usize)
    }
}

/// The packet queue and the miss-count queue of one capture session.
pub struct CaptureQueues {
    pub packets: ArrayQueue<PacketRecord>,
    pub misses: ArrayQueue<u64>,
}

impl CaptureQueues {
    pub open spec fn packet_items(&self) -> Seq<PacketRecord> {
        packet_queue_items(self.packets)
    }

    pub open spec fn miss_items(&self) -> Seq<u64> {
        miss_queue_items(self.misses)
    }

    pub open spec fn capacity(&self) -> nat {
        packet_queue_capacity(self.packets)
    }

    /// Both queues have the same capacity.
    pub open spec fn wf(&self) -> bool {
        miss_queue_capacity(self.misses) == packet_queue_capacity(self.packets)
    }

    /// Two empty queues of capacity `capacity` each.
    pub fn new(capacity: usize) -> (r: CaptureQueues)
        requires
            capacity_fits(capacity as int),
        ensures
            r.wf(),
            r.capacity() == capacity,
            r.packet_items() == Seq::<PacketRecord>::empty(),
            r.miss_items() == Seq::<u64>::empty(),
    {
        CaptureQueues { packets: packet_queue_new(capacity), misses: miss_queue_new(capacity) }
    }

    /// Offers a record without blocking. On a full queue nothing changes and
    /// the record is dropped; the result says whether it was queued.
    pub fn push_packet(&mut self, record: PacketRecord) -> (r: bool)
        requires
            old(self).wf(),
        ensures
            final(self).wf(),
            final(self).capacity() == old(self).capacity(),
            final(self).miss_items() == old(self).miss_items(),
            r == (old(self).packet_items().len() < old(self).capacity()),
            r ==> final(self).packet_items() == old(self).packet_items().push(record),
            !r ==> final(self).packet_items() == old(self).packet_items(),
    {
        packet_queue_push(&mut self.packets, record).is_ok()
    }

    /// Offers a miss increment without blocking. On a full queue nothing
    /// changes and the increment is dropped; the result says whether it was
    /// queued.
    pub fn push_missed(&mut self, count: u64) -> (r: bool)
        requires
            old(self).wf(),
        ensures
            final(self).wf(),
            final(self).capacity() == old(self).capacity(),
            final(self).packet_items() == old(self).packet_items(),
            r == (old(self).miss_items().len() < old(self).capacity()),
            r ==> final(self).miss_items() == old(self).miss_items().push(count),
            !r ==> final(self).miss_items() == old(self).miss_items(),
    {
        miss_queue_push(&mut self.misses, count).is_ok()
    }

    /// Takes the oldest record, if any.
    pub fn pop_packet(&mut self) -> (r: Option<PacketRecord>)
        requires
            old(self).wf(),
        ensures
            final(self).wf(),
            final(self).capacity() == old(self).capacity(),
            final(self).miss_items() == old(self).miss_items(),
            old(self).packet_items().len() == 0 ==> r is None && final(self).packet_items()
                == old(self).packet_items(),
            old(self).packet_items().len() > 0 ==> r == Some(old(self).packet_items()[0])
                && final(self).packet_items() == old(self).packet_items().drop_first(),
    {
        packet_queue_pop(&mut self.packets)
    }

    /// Takes the oldest miss increment, if any.
    pub fn pop_missed(&mut self) -> (r: Option<u64>)
        requires
            old(self).wf(),
        ensures
            final(self).wf(),
            final(self).capacity() == old(self).capacity(),
            final(self).packet_items() == old(self).packet_items(),
            old(self).miss_items().len() == 0 ==> r is None && final(self).miss_items()
                == old(self).miss_items(),
            old(self).miss_items().len() > 0 ==> r == Some(old(self).miss_items()[0])
                && final(self).miss_items() == old(self).miss_items().drop_first(),
    {
        miss_queue_pop(&mut self.misses)
    }
}

} // verus!
