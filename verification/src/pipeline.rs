use vstd::prelude::*;

verus! {

/// Default capacity of the channel between a receiver and its processor chain.
/// A full channel makes the receiver wait: this is the pipeline's backpressure.
pub const DEFAULT_CHANNEL_CAPACITY: usize = 1024;

/// A group of exporters, as configured in a pipeline's exporter list.
pub enum ExporterGroup<E> {
    /// One mandatory exporter, retried with backoff until it succeeds or the
    /// attempts run out.
    Flat(E),
    /// Exporters tried in order; the first success wins. When all fail, the
    /// group is retried from its first exporter.
    OneOf(Vec<E>),
}


/// The shape of an exporter group: one exporter, or how many are tried in turn.
pub open spec fn group_width<E>(g: ExporterGroup<E>) -> Option<nat> {
    match g {
        ExporterGroup::Flat(_) => None,
        ExporterGroup::OneOf(v) => Some(v.len() as nat),
    }
}

/// A fully built pipeline, ready to be driven.
pub struct Pipeline<R, P, E> {
    pub name: String,
    pub receiver: R,
    pub processors: Vec<P>,
    pub exporter_groups: Vec<ExporterGroup<E>>,
    pub channel_capacity: usize,
}


// ---------------------------------------------------------------------------
// The processor chain of the pipeline loop
// ---------------------------------------------------------------------------

/// What a processor handed back for a batch.
#[derive(PartialEq, Eq, Structural, Clone, Copy, Debug)]
pub enum ProcessOutcome {
    /// It failed: the event is dropped.
    Failed,
    /// It returned an empty batch: "not yet", nothing goes further.
    Empty,
    /// It returned a non-empty batch, which goes on.
    Passed,
}

/// The next move of the pipeline loop for the batch of one event.
#[derive(PartialEq, Eq, Structural, Clone, Copy, Debug)]
pub enum ChainStep {
    /// Hand the batch to processor `i`.
    Process(usize),
    /// Hand the batch to the executor.
    Flush,
    /// A processor failed; the event is dropped.
    Drop,
    /// A processor is holding the events back.
    Hold,
}

pub open spec fn chain_next_spec(n: nat, i: nat, outcome: ProcessOutcome) -> ChainStep {
    match outcome {
        ProcessOutcome::Failed => ChainStep::Drop,
        ProcessOutcome::Empty => ChainStep::Hold,
        ProcessOutcome::Passed => if i + 1 < n {
            ChainStep::Process((i + 1) as usize)
        } else {
            ChainStep::Flush
        },
    }
}

/// The first move for a chain of `n` processors.
pub fn chain_start(n: usize) -> (s: ChainStep)
    ensures
        s == (if n == 0 { ChainStep::Flush } else { ChainStep::Process(0) }),
{
    if n == 0 {
        ChainStep::Flush
    } else {
        ChainStep::Process(0)
    }
}

/// The move after processor `i` of `n` answered with `outcome`.
pub fn chain_next(n: usize, i: usize, outcome: ProcessOutcome) -> (s: ChainStep)
    requires
        i < n,
    ensures
        s == chain_next_spec(n as nat, i as nat, outcome),
{
    match outcome {
        ProcessOutcome::Failed => ChainStep::Drop,
        ProcessOutcome::Empty => ChainStep::Hold,
        ProcessOutcome::Passed => if i + 1 < n {
            ChainStep::Process(i + 1)
        } else {
            ChainStep::Flush
        },
    }
}

/// Where the chain of `n` processors ends, from processor `i` on, when
/// processor `j` answers `outcomes[j]`.
pub open spec fn chain_from(n: nat, i: nat, outcomes: Seq<ProcessOutcome>) -> ChainStep
    decreases n - i,
{
    if i >= n {
        ChainStep::Flush
    } else {
        match outcomes[i as int] {
            ProcessOutcome::Failed => ChainStep::Drop,
            ProcessOutcome::Empty => ChainStep::Hold,
            ProcessOutcome::Passed => chain_from(n, i + 1, outcomes),
        }
    }
}

/// Each move of the loop agrees with where the chain ends: a move to the
/// next processor keeps the end, any other move is the end.
pub proof fn lemma_chain_step(n: usize, i: usize, outcomes: Seq<ProcessOutcome>)
    requires
        i < n,
        outcomes.len() == n,
    ensures
        chain_next_spec(n as nat, i as nat, outcomes[i as int]) matches ChainStep::Process(j)
            ==> j == i + 1 && chain_from(n as nat, j as nat, outcomes) == chain_from(n as nat, i as nat, outcomes),
        !(chain_next_spec(n as nat, i as nat, outcomes[i as int]) is Process)
            ==> chain_next_spec(n as nat, i as nat, outcomes[i as int]) == chain_from(n as nat, i as nat, outcomes),
{
    assert(chain_from(n as nat, (i + 1) as nat, outcomes) == ChainStep::Flush || i + 1 < n);
}

/// A batch reaches the executor when every processor passed it on.
pub proof fn lemma_chain_flushes(outcomes: Seq<ProcessOutcome>, i: nat)
    requires
        i <= outcomes.len(),
        forall|j: int| i <= j < outcomes.len() ==> outcomes[j] == ProcessOutcome::Passed,
    ensures
        chain_from(outcomes.len(), i, outcomes) == ChainStep::Flush,
    decreases outcomes.len() - i,
{
    if i < outcomes.len() {
        lemma_chain_flushes(outcomes, i + 1);
    }
}

/// Otherwise the first processor that did not pass the batch on decides: a
/// failure drops the event, an empty batch holds it, and no later processor
/// sees it.
pub proof fn lemma_chain_stops(outcomes: Seq<ProcessOutcome>, i: nat, k: nat)
    requires
        i <= k < outcomes.len(),
        outcomes[k as int] != ProcessOutcome::Passed,
        forall|j: int| i <= j < k ==> outcomes[j] == ProcessOutcome::Passed,
    ensures
        chain_from(outcomes.len(), i, outcomes) == (if outcomes[k as int] == ProcessOutcome::Failed {
            ChainStep::Drop
        } else {
            ChainStep::Hold
        }),
    decreases k - i,
{
    if i < k {
        lemma_chain_stops(outcomes, i + 1, k);
    }
}

} // verus!
