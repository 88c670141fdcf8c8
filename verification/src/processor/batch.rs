use vstd::prelude::*;
use crate::types::{Batch, Event, total_rows, lemma_total_rows_concat, lemma_total_rows_nonneg};

verus! {

/// Configuration of the batching processor.
#[derive(Clone, Copy, Debug)]
pub struct Config {
    /// Flush when the accumulated row count reaches this threshold.
    pub batch_size: usize,
    /// Flush when this many milliseconds have passed since the last flush.
    pub flush_interval_ms: u64,
}

impl Default for Config {
    fn default() -> (r: Config)
        ensures
            r.batch_size == 1000,
            r.flush_interval_ms == 5000,
    {
        Config { batch_size: 1000, flush_interval_ms: 5000 }
    }
}

/// Nanoseconds in a millisecond.
pub const NANOS_PER_MILLI: u64 = 1_000_000;

/// Time from `last` to `now` on a monotonic clock, in nanoseconds; zero if
/// `now` is earlier.
pub open spec fn elapsed(last_ns: u64, now_ns: u64) -> int {
    if now_ns >= last_ns {
        now_ns - last_ns
    } else {
        0
    }
}

/// The flush condition: enough rows, or enough time since the last flush.
pub open spec fn due(config: Config, events: Seq<Event>, last_ns: u64, now_ns: u64) -> bool {
    ||| total_rows(events) >= config.batch_size
    ||| elapsed(last_ns, now_ns) >= config.flush_interval_ms * NANOS_PER_MILLI
}

/// Accumulator without transformation. It collects incoming events and
/// hands them all on, in order, once the flush condition holds; otherwise it
/// hands on an empty batch, which the pipeline reads as "not yet". The
/// timer is read only when a batch arrives.
pub struct BatchingProcessor {
    config: Config,
    buffer: Batch,
    last_flush_ns: u64,
}

impl BatchingProcessor {
    pub closed spec fn config(&self) -> Config {
        self.config
    }

    /// The events held, in arrival order.
    pub closed spec fn buffered(&self) -> Seq<Event> {
        self.buffer.events@
    }

    /// Monotonic time of the last flush, in nanoseconds.
    pub closed spec fn last_flush_ns(&self) -> u64 {
        self.last_flush_ns
    }

    /// A processor with an empty buffer whose timer starts at `now_ns`.
    pub fn new(config: Config, now_ns: u64) -> (r: BatchingProcessor)
        ensures
            r.config() == config,
            r.buffered() == Seq::<Event>::empty(),
            r.last_flush_ns() == now_ns,
    {
        BatchingProcessor { config, buffer: Batch::new(), last_flush_ns: now_ns }
    }

    fn should_flush(&self, now_ns: u64) -> (r: bool)
        requires
            total_rows(self.buffered()) <= usize::MAX,
        ensures
            r == due(self.config(), self.buffered(), self.last_flush_ns(), now_ns),
    {
        let elapsed: u64 = if now_ns >= self.last_flush_ns {
            now_ns - self.last_flush_ns
        } else {
            0
        };
        self.buffer.row_count() >= self.config.batch_size
            || (elapsed as u128) >= (self.config.flush_interval_ms as u128) * 1_000_000u128
    }

    fn flush(&mut self, now_ns: u64) -> (r: Batch)
        ensures
            r.events@ == old(self).buffered(),
            final(self).buffered() == Seq::<Event>::empty(),
            final(self).last_flush_ns() == now_ns,
            final(self).config() == old(self).config(),
    {
        self.last_flush_ns = now_ns;
        let mut out = Batch::new();
        std::mem::swap(&mut out, &mut self.buffer);
        out
    }

    /// Hands on everything buffered, whatever the flush condition, and
    /// restarts the timer. Used at shutdown.
    pub fn drain(&mut self, now_ns: u64) -> (r: Batch)
        ensures
            r.events@ == old(self).buffered(),
            final(self).buffered() == Seq::<Event>::empty(),
            final(self).last_flush_ns() == now_ns,
            final(self).config() == old(self).config(),
    {
        self.flush(now_ns)
    }

    /// The buffer and `batch` together hold no more rows than a `usize` counts.
    pub fn can_take(&self, batch: &Batch) -> (r: bool)
        ensures
            r == (total_rows(self.buffered() + batch.events@) <= usize::MAX),
    {
        proof {
            lemma_total_rows_concat(self.buffered(), batch.events@);
            lemma_total_rows_nonneg(self.buffered());
            lemma_total_rows_nonneg(batch.events@);
        }
        match (self.buffer.checked_row_count(), batch.checked_row_count()) {
            (Some(a), Some(b)) => a <= usize::MAX - b,
            _ => false,
        }
    }

    /// Takes in a batch at time `now_ns`. Its events join the buffer; if the
    /// flush condition then holds, the whole buffer is handed on and the
    /// timer restarts, otherwise an empty batch is handed on. No event is
    /// lost, duplicated or reordered.
    pub fn process(&mut self, batch: Batch, now_ns: u64) -> (r: Batch)
        requires
            total_rows(old(self).buffered() + batch.events@) <= usize::MAX,
        ensures
            ({
                let all = old(self).buffered() + batch.events@;
                if due(old(self).config(), all, old(self).last_flush_ns(), now_ns) {
                    &&& r.events@ == all
                    &&& final(self).buffered() == Seq::<Event>::empty()
                    &&& final(self).last_flush_ns() == now_ns
                } else {
                    &&& r.events@ == Seq::<Event>::empty()
                    &&& final(self).buffered() == all
                    &&& final(self).last_flush_ns() == old(self).last_flush_ns()
                }
            }),
            r.events@ + final(self).buffered() == old(self).buffered() + batch.events@,
            final(self).config() == old(self).config(),
    {
        let mut batch = batch;
        self.buffer.events.append(&mut batch.events);
        if self.should_flush(now_ns) {
            let r = self.flush(now_ns);
            assert(r.events@ + Seq::<Event>::empty() =~= r.events@);
            r
        } else {
            let r = Batch::new();
            assert(Seq::<Event>::empty() + self.buffered() =~= self.buffered());
            r
        }
    }
}

/// The relation of one call of `process`, followed from the buffer before
/// it to the buffer after it, holds at every prefix: what the first `k`
/// calls handed on, then the buffer, is what they were given.
proof fn lemma_conserves_prefix(inputs: Seq<Seq<Event>>, outputs: Seq<Seq<Event>>, buffers: Seq<Seq<Event>>, k: int)
    requires
        inputs.len() == outputs.len(),
        buffers.len() == inputs.len() + 1,
        buffers[0] == Seq::<Event>::empty(),
        forall|i: int| 0 <= i < inputs.len() ==> #[trigger] outputs[i] + buffers[i + 1] == buffers[i] + inputs[i],
        0 <= k <= inputs.len(),
    ensures
        outputs.take(k).flatten_alt() + buffers[k] == inputs.take(k).flatten_alt(),
    decreases k,
{
    if k == 0 {
        assert(outputs.take(0).flatten_alt() + buffers[0] =~= Seq::<Event>::empty());
        assert(inputs.take(0).flatten_alt() =~= Seq::<Event>::empty());
    } else {
        lemma_conserves_prefix(inputs, outputs, buffers, k - 1);
        assert(outputs.take(k).drop_last() =~= outputs.take(k - 1));
        assert(inputs.take(k).drop_last() =~= inputs.take(k - 1));
        let o = outputs.take(k - 1).flatten_alt();
        let i = inputs.take(k - 1).flatten_alt();
        assert(outputs[k - 1] + buffers[k] == buffers[k - 1] + inputs[k - 1]);
        assert(o + outputs[k - 1] + buffers[k] =~= o + (outputs[k - 1] + buffers[k]));
        assert(o + (buffers[k - 1] + inputs[k - 1]) =~= (o + buffers[k - 1]) + inputs[k - 1]);
    }
}

/// No event is lost, duplicated, altered or reordered over any sequence of
/// calls of `process` on a fresh processor: what the calls handed on, in
/// order, followed by what is still buffered, is exactly what they were
/// given, in order. (Each call relates its output and the buffers before
/// and after it as its contract states.)
pub proof fn lemma_batching_conserves(inputs: Seq<Seq<Event>>, outputs: Seq<Seq<Event>>, buffers: Seq<Seq<Event>>)
    requires
        inputs.len() == outputs.len(),
        buffers.len() == inputs.len() + 1,
        buffers[0] == Seq::<Event>::empty(),
        forall|i: int| 0 <= i < inputs.len() ==> #[trigger] outputs[i] + buffers[i + 1] == buffers[i] + inputs[i],
    ensures
        outputs.flatten() + buffers.last() == inputs.flatten(),
{
    let n = inputs.len() as int;
    lemma_conserves_prefix(inputs, outputs, buffers, n);
    assert(outputs.take(n) =~= outputs);
    assert(inputs.take(n) =~= inputs);
    outputs.lemma_flatten_and_flatten_alt_are_equivalent();
    inputs.lemma_flatten_and_flatten_alt_are_equivalent();
}

} // verus!
