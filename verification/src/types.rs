use vstd::prelude::*;
use crate::record::Record;
use crate::table::NamedTable;

verus! {

/// Wall-clock time at which an event was received.
#[verifier::external_type_specification]
#[verifier::external_body]
pub struct ExSystemTime(std::time::SystemTime);


/// Scalar type system of source attributes. A float is carried as its
/// IEEE-754 bit pattern.
#[derive(Debug)]
pub enum AttrValue {
    String(String),
    Bytes(Vec<u8>),
    Int(i64),
    Float(u64),
    Bool(bool),
    Array(Vec<AttrValue>),
    Dict(std::collections::HashMap<String, AttrValue>),
}

/// The unit a receiver emits into a pipeline. The record is shared, so a
/// clone of the event copies no rows.
#[derive(Debug)]
pub struct Event {
    /// Source attributes by key (see `attrs`).
    pub source: NamedTable<AttrValue>,
    pub record: std::sync::Arc<Record>,
    pub received_at: std::time::SystemTime,
}

/// The unit flushed by the batching processor and handed to every exporter.
/// Events of one source are not merged.
#[derive(Debug)]
pub struct Batch {
    pub events: Vec<Event>,
}

/// The number of rows over all events.
pub open spec fn total_rows(events: Seq<Event>) -> int
    decreases events.len(),
{
    if events.len() == 0 {
        0
    } else {
        total_rows(events.drop_last()) + events.last().record.num_rows
    }
}

/// A prefix never has more rows than the whole.
pub proof fn lemma_total_rows_prefix(events: Seq<Event>, k: int)
    requires
        0 <= k <= events.len(),
    ensures
        0 <= total_rows(events.take(k)) <= total_rows(events),
    decreases events.len() - k,
{
    if k < events.len() {
        lemma_total_rows_prefix(events, k + 1);
        assert(events.take(k + 1).drop_last() =~= events.take(k));
    } else {
        assert(events.take(k) =~= events);
    }
    lemma_total_rows_nonneg(events.take(k));
}

pub proof fn lemma_total_rows_nonneg(events: Seq<Event>)
    ensures
        total_rows(events) >= 0,
    decreases events.len(),
{
    if events.len() > 0 {
        lemma_total_rows_nonneg(events.drop_last());
    }
}

/// Rows add up over concatenation.
pub proof fn lemma_total_rows_concat(a: Seq<Event>, b: Seq<Event>)
    ensures
        total_rows(a + b) == total_rows(a) + total_rows(b),
    decreases b.len(),
{
    if b.len() > 0 {
        lemma_total_rows_concat(a, b.drop_last());
        assert((a + b).drop_last() =~= a + b.drop_last());
    } else {
        assert(a + b =~= a);
    }
}

/// An empty batch holds no rows; pushing an event adds its rows to the
/// total and one to the length.
pub proof fn lemma_push_row_count(events: Seq<Event>, e: Event)
    ensures
        total_rows(Seq::<Event>::empty()) == 0,
        total_rows(events.push(e)) == total_rows(events) + e.record.num_rows,
        events.push(e).len() == events.len() + 1,
{
    assert(events.push(e).drop_last() =~= events);
}

impl Batch {
    pub fn new() -> (r: Batch)
        ensures
            r.events@ == Seq::<Event>::empty(),
    {
        Batch { events: Vec::new() }
    }

    pub fn push(&mut self, event: Event)
        ensures
            final(self).events@ == old(self).events@.push(event),
    {
        self.events.push(event);
    }

    pub fn len(&self) -> (n: usize)
        ensures
            n == self.events@.len(),
    {
        self.events.len()
    }

    pub fn is_empty(&self) -> (b: bool)
        ensures
            b == (self.events@.len() == 0),
    {
        self.events.len() == 0
    }

    /// Total row count across all events, if it fits a `usize`.
    pub fn checked_row_count(&self) -> (r: Option<usize>)
        ensures
            r is Some <==> total_rows(self.events@) <= usize::MAX,
            r matches Some(n) ==> n == total_rows(self.events@),
    {
        let ghost all = self.events@;
        let mut sum: usize = 0;
        let mut i: usize = 0;
        assert(all.take(0) =~= Seq::<Event>::empty());
        while i < self.events.len()
            invariant
                0 <= i <= all.len(),
                all == self.events@,
                sum == total_rows(all.take(i as int)),
            decreases all.len() - i,
        {
            assert(all.take(i + 1).drop_last() =~= all.take(i as int));
            let rows = self.events[i].record.num_rows;
            if sum > usize::MAX - rows {
                proof {
                    lemma_total_rows_prefix(all, i + 1);
                }
                return None;
            }
            sum = sum + rows;
            i = i + 1;
        }
        assert(all.take(all.len() as int) =~= all);
        Some(sum)
    }

    /// Total row count across all events.
    pub fn row_count(&self) -> (n: usize)
        requires
            total_rows(self.events@) <= usize::MAX,
        ensures
            n == total_rows(self.events@),
    {
        let ghost all = self.events@;
        let mut sum: usize = 0;
        let mut i: usize = 0;
        assert(all.take(0) =~= Seq::<Event>::empty());
        while i < self.events.len()
            invariant
                0 <= i <= all.len(),
                all == self.events@,
                total_rows(all) <= usize::MAX,
                sum == total_rows(all.take(i as int)),
            decreases all.len() - i,
        {
            assert(all.take(i + 1).drop_last() =~= all.take(i as int));
            proof {
                lemma_total_rows_prefix(all, i + 1);
            }
            sum = sum + self.events[i].record.num_rows;
            i = i + 1;
        }
        assert(all.take(all.len() as int) =~= all);
        sum
    }
}

impl Default for Batch {
    fn default() -> (r: Batch)
        ensures
            r.events@ == Seq::<Event>::empty(),
    {
        Batch::new()
    }
}

} // verus!
