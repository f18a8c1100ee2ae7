use vstd::prelude::*;

use crate::segment::SegmentObject;

verus! {

/// The ingestion boundary to the delivery transport: a bounded
/// first-in/first-out queue of finished segments. Request handlers submit
/// records; a single drain loop takes them out in submission order and
/// streams each one to the collector sink. A submission to a full queue is
/// refused and hands the record back: the caller decides whether to drop or
/// retry, so the policy is explicit rather than an accident of a channel
/// default.
pub struct Reporter {
    /// The queued records, oldest first.
    pub queue: Vec<SegmentObject>,
    /// The most records the queue ever holds.
    pub capacity: usize,
}

/// The queue contents after one submission: the record is appended when
/// there is room and the queue is unchanged when it is full.
pub open spec fn submit_model(
    q: Seq<SegmentObject>,
    capacity: nat,
    record: SegmentObject,
) -> Seq<SegmentObject> {
    if q.len() < capacity {
        q.push(record)
    } else {
        q
    }
}

/// The queue contents after a sequence of submissions, oldest first.
pub open spec fn submit_all_model(
    q: Seq<SegmentObject>,
    capacity: nat,
    records: Seq<SegmentObject>,
) -> Seq<SegmentObject>
    decreases records.len(),
{
    if records.len() == 0 {
        q
    } else {
        submit_all_model(submit_model(q, capacity, records.first()), capacity, records.drop_first())
    }
}

impl Reporter {
    /// An empty queue that will hold at most `capacity` records.
    pub fn new(capacity: usize) -> (r: Reporter)
        requires
            capacity >= 1,
        ensures
            r.queue@.len() == 0,
            r.capacity == capacity,
    {
        Reporter { queue: Vec::new(), capacity }
    }

    /// How many records wait in the queue.
    pub fn len(&self) -> (r: usize)
        ensures
            r == self.queue@.len(),
    {
        self.queue.len()
    }

    /// Enqueues one finished segment without blocking. The record is appended
    /// behind every earlier submission; when the queue is full it is refused
    /// and handed back unchanged.
    pub fn submit(&mut self, record: SegmentObject) -> (r: Result<(), SegmentObject>)
        ensures
            final(self).capacity == old(self).capacity,
            final(self).queue@ == submit_model(
                old(self).queue@,
                old(self).capacity as nat,
                record,
            ),
            r is Ok <==> old(self).queue@.len() < old(self).capacity,
            r matches Err(rejected) ==> rejected == record,
    {
        if self.queue.len() < self.capacity {
            self.queue.push(record);
            Ok(())
        } else {
            Err(record)
        }
    }

    /// Takes the oldest queued record, or nothing when the queue is empty.
    pub fn drain_next(&mut self) -> (r: Option<SegmentObject>)
        ensures
            final(self).capacity == old(self).capacity,
            old(self).queue@.len() == 0 ==> r is None && final(self).queue@ == old(self).queue@,
            old(self).queue@.len() > 0 ==> r == Some(old(self).queue@.first())
                && final(self).queue@ == old(self).queue@.drop_first(),
    {
        if self.queue.len() == 0 {
            None
        } else {
            let record = self.queue.remove(0);
            proof {
                assert(self.queue@ =~= old(self).queue@.drop_first());
            }
            Some(record)
        }
    }

    /// Takes every queued record at once, in submission order, leaving the
    /// queue empty.
    pub fn drain_all(&mut self) -> (r: Vec<SegmentObject>)
        ensures
            final(self).capacity == old(self).capacity,
            final(self).queue@.len() == 0,
            r@ == old(self).queue@,
    {
        let mut drained: Vec<SegmentObject> = Vec::new();
        std::mem::swap(&mut drained, &mut self.queue);
        drained
    }
}

/// Law: the reporter neither loses, duplicates nor reorders segments. As
/// long as the submissions fit within the queue's capacity, submitting them
/// to an empty reporter leaves exactly those records queued, in submission
/// order; draining then yields the same records unchanged (see the ensures
/// of `drain_all` and `drain_next`). Concurrent submitters interleave into
/// one arrival order, and this holds of every such order.
pub proof fn lemma_reporter_preserves_submission_order(
    capacity: nat,
    records: Seq<SegmentObject>,
)
    requires
        records.len() <= capacity,
    ensures
        submit_all_model(Seq::<SegmentObject>::empty(), capacity, records) == records,
{
    lemma_submit_all_appends(Seq::<SegmentObject>::empty(), capacity, records);
    assert(Seq::<SegmentObject>::empty() + records =~= records);
}

/// Submissions that fit within the capacity append in arrival order behind
/// what is already queued.
proof fn lemma_submit_all_appends(
    q: Seq<SegmentObject>,
    capacity: nat,
    records: Seq<SegmentObject>,
)
    requires
        q.len() + records.len() <= capacity,
    ensures
        submit_all_model(q, capacity, records) == q + records,
    decreases records.len(),
{
    if records.len() == 0 {
        assert(q + records =~= q);
    } else {
        lemma_submit_all_appends(q.push(records.first()), capacity, records.drop_first());
        assert(q.push(records.first()) + records.drop_first() =~= q + records);
    }
}

} // verus!
