use vstd::prelude::*;
use crate::executor::{RetryConfig, GroupShape, width};
use crate::pipeline::{ExporterGroup, Pipeline, group_width};

verus! {

/// One step of bringing the pipelines up.
#[derive(PartialEq, Eq, Structural, Clone, Copy, Debug)]
pub enum StartStep {
    /// Start exporter `member` of group `group` of pipeline `pipeline`.
    StartExporter { pipeline: usize, group: usize, member: usize },
    /// Start processor `index` of pipeline `pipeline`.
    StartProcessor { pipeline: usize, index: usize },
    /// Wire the pipeline's channel, hand its exporters to an executor and its
    /// processors to a new pipeline loop.
    Launch { pipeline: usize },
    /// Start the pipeline's receiver, which may now emit.
    StartReceiver { pipeline: usize },
}

/// The exporters of one group, in order.
pub open spec fn group_steps(p: usize, g: usize, width: Option<nat>) -> Seq<StartStep> {
    match width {
        None => seq![StartStep::StartExporter { pipeline: p, group: g, member: 0 }],
        Some(n) => Seq::new(n, |m: int| StartStep::StartExporter { pipeline: p, group: g, member: m as usize }),
    }
}

/// The exporters of groups `0..k`, group by group.
pub open spec fn exporter_steps(p: usize, widths: Seq<Option<nat>>, k: nat) -> Seq<StartStep>
    decreases k,
{
    if k == 0 {
        Seq::empty()
    } else {
        exporter_steps(p, widths, (k - 1) as nat) + group_steps(p, (k - 1) as usize, widths[k - 1])
    }
}

/// Start order of one pipeline: exporters, then processors, then the loop,
/// then the receiver.
pub open spec fn pipeline_steps(p: usize, widths: Seq<Option<nat>>, processors: nat) -> Seq<StartStep> {
    exporter_steps(p, widths, widths.len())
        + Seq::new(processors, |i: int| StartStep::StartProcessor { pipeline: p, index: i as usize })
        + seq![StartStep::Launch { pipeline: p }, StartStep::StartReceiver { pipeline: p }]
}

/// The group widths of a pipeline.
pub open spec fn widths_of<R, P, E>(p: Pipeline<R, P, E>) -> Seq<Option<nat>> {
    p.exporter_groups@.map_values(|g: ExporterGroup<E>| group_width(g))
}

/// Start order of pipelines `0..k`, pipeline by pipeline.
pub open spec fn start_steps<R, P, E>(ps: Seq<Pipeline<R, P, E>>, k: nat) -> Seq<StartStep>
    decreases k,
{
    if k == 0 {
        Seq::empty()
    } else {
        start_steps(ps, (k - 1) as nat) + pipeline_steps((k - 1) as usize, widths_of(ps[k - 1]), ps[k - 1].processors.len() as nat)
    }
}

/// Order of a step within its pipeline.
pub open spec fn rank(s: StartStep) -> int {
    match s {
        StartStep::StartExporter { .. } => 0,
        StartStep::StartProcessor { .. } => 1,
        StartStep::Launch { .. } => 2,
        StartStep::StartReceiver { .. } => 3,
    }
}

pub open spec fn pipeline_of(s: StartStep) -> int {
    match s {
        StartStep::StartExporter { pipeline, .. } => pipeline as int,
        StartStep::StartProcessor { pipeline, .. } => pipeline as int,
        StartStep::Launch { pipeline } => pipeline as int,
        StartStep::StartReceiver { pipeline } => pipeline as int,
    }
}

/// Steps ordered by pipeline, then by rank.
pub open spec fn key(s: StartStep) -> int {
    4 * pipeline_of(s) + rank(s)
}

pub open spec fn in_start_order(s: Seq<StartStep>) -> bool {
    forall|i: int, j: int| 0 <= i < j < s.len() ==> key(#[trigger] s[i]) <= key(#[trigger] s[j])
}

proof fn lemma_concat_in_order(a: Seq<StartStep>, b: Seq<StartStep>)
    requires
        in_start_order(a),
        in_start_order(b),
        forall|i: int, j: int| 0 <= i < a.len() && 0 <= j < b.len() ==> key(#[trigger] a[i]) <= key(#[trigger] b[j]),
    ensures
        in_start_order(a + b),
{
    assert forall|i: int, j: int| 0 <= i < j < (a + b).len() implies key(#[trigger] (a + b)[i]) <= key(#[trigger] (a + b)[j]) by {
        if j < a.len() {
        } else if i >= a.len() {
            assert((a + b)[i] == b[i - a.len()]);
            assert((a + b)[j] == b[j - a.len()]);
        } else {
            assert((a + b)[j] == b[j - a.len()]);
        }
    }
}

proof fn lemma_exporter_steps(p: usize, widths: Seq<Option<nat>>, k: nat)
    requires
        k <= widths.len(),
    ensures
        forall|i: int| 0 <= i < exporter_steps(p, widths, k).len()
            ==> key(#[trigger] exporter_steps(p, widths, k)[i]) == 4 * p,
    decreases k,
{
    if k > 0 {
        lemma_exporter_steps(p, widths, (k - 1) as nat);
        let a = exporter_steps(p, widths, (k - 1) as nat);
        let b = group_steps(p, (k - 1) as usize, widths[k - 1]);
        assert forall|i: int| 0 <= i < (a + b).len() implies key(#[trigger] (a + b)[i]) == 4 * p by {
            if i >= a.len() {
                assert((a + b)[i] == b[i - a.len()]);
            }
        }
    }
}

proof fn lemma_pipeline_steps(p: usize, widths: Seq<Option<nat>>, n: nat)
    ensures
        in_start_order(pipeline_steps(p, widths, n)),
        forall|i: int| 0 <= i < pipeline_steps(p, widths, n).len() ==> {
            &&& 4 * p <= key(#[trigger] pipeline_steps(p, widths, n)[i])
            &&& key(pipeline_steps(p, widths, n)[i]) <= 4 * p + 3
        },
{
    lemma_exporter_steps(p, widths, widths.len());
    let e = exporter_steps(p, widths, widths.len());
    let q = Seq::new(n, |i: int| StartStep::StartProcessor { pipeline: p, index: i as usize });
    let t = seq![StartStep::Launch { pipeline: p }, StartStep::StartReceiver { pipeline: p }];
    lemma_concat_in_order(e, q);
    assert forall|i: int, j: int| 0 <= i < (e + q).len() && 0 <= j < t.len() implies key(#[trigger] (e + q)[i]) <= key(#[trigger] t[j]) by {
        if i >= e.len() {
            assert((e + q)[i] == q[i - e.len()]);
        }
    }
    lemma_concat_in_order(e + q, t);
    let s = e + q + t;
    assert forall|i: int| 0 <= i < s.len() implies 4 * p <= key(#[trigger] s[i]) <= 4 * p + 3 by {
        if i < e.len() {
            assert(s[i] == e[i]);
        } else if i < e.len() + q.len() {
            assert(s[i] == q[i - e.len()]);
        } else {
            assert(s[i] == t[i - e.len() - q.len()]);
        }
    }
}

/// Start order: pipeline by pipeline, and within a pipeline every exporter
/// starts before any processor, every processor before the loop is
/// launched, and the receiver last.
pub proof fn lemma_start_order<R, P, E>(ps: Seq<Pipeline<R, P, E>>, k: nat)
    requires
        k <= ps.len(),
        ps.len() <= usize::MAX,
    ensures
        in_start_order(start_steps(ps, k)),
        forall|i: int| 0 <= i < start_steps(ps, k).len() ==> key(#[trigger] start_steps(ps, k)[i]) < 4 * k,
    decreases k,
{
    if k > 0 {
        lemma_start_order(ps, (k - 1) as nat);
        let a = start_steps(ps, (k - 1) as nat);
        let p = (k - 1) as usize;
        let b = pipeline_steps(p, widths_of(ps[k - 1]), ps[k - 1].processors.len() as nat);
        lemma_pipeline_steps(p, widths_of(ps[k - 1]), ps[k - 1].processors.len() as nat);
        lemma_concat_in_order(a, b);
        assert forall|i: int| 0 <= i < (a + b).len() implies key(#[trigger] (a + b)[i]) < 4 * k by {
            if i >= a.len() {
                assert((a + b)[i] == b[i - a.len()]);
            }
        }
    }
}

// ---------------------------------------------------------------------------
// Every component is started exactly once
// ---------------------------------------------------------------------------

/// How many exporters a group of this width starts: one for a flat group.
pub open spec fn members(w: Option<nat>) -> nat {
    match w {
        None => 1,
        Some(n) => n,
    }
}

/// The step that starts exporter `m` of group `g` of pipeline `p`.
pub open spec fn exporter_step(p: usize, g: int, m: int) -> StartStep {
    StartStep::StartExporter { pipeline: p, group: g as usize, member: m as usize }
}

/// `s` starts a component of pipeline `p` whose groups have these widths and
/// which has `processors` processors: an exporter member of one of its
/// groups, one of its processors, its loop or its receiver.
pub open spec fn names_component(p: int, widths: Seq<Option<nat>>, processors: nat, s: StartStep) -> bool {
    match s {
        StartStep::StartExporter { pipeline, group, member } => pipeline == p && group < widths.len()
            && member < members(widths[group as int]),
        StartStep::StartProcessor { pipeline, index } => pipeline == p && index < processors,
        StartStep::Launch { pipeline } => pipeline == p,
        StartStep::StartReceiver { pipeline } => pipeline == p,
    }
}

/// `s` starts a component of one of the pipelines.
pub open spec fn is_start_step<R, P, E>(ps: Seq<Pipeline<R, P, E>>, s: StartStep) -> bool {
    &&& 0 <= pipeline_of(s) < ps.len()
    &&& names_component(pipeline_of(s), widths_of(ps[pipeline_of(s)]), ps[pipeline_of(s)].processors.len() as nat, s)
}

/// The widths that `Vec` lengths can give.
pub open spec fn widths_fit(widths: Seq<Option<nat>>) -> bool {
    &&& widths.len() <= usize::MAX
    &&& forall|g: int| 0 <= g < widths.len() ==> members(#[trigger] widths[g]) <= usize::MAX
}

proof fn lemma_exporter_steps_exact(p: usize, widths: Seq<Option<nat>>, k: nat)
    requires
        k <= widths.len(),
        widths_fit(widths),
    ensures
        ({
            let e = exporter_steps(p, widths, k);
            &&& forall|i: int, j: int| 0 <= i < j < e.len() ==> #[trigger] e[i] != #[trigger] e[j]
            &&& forall|i: int| 0 <= i < e.len() ==> (#[trigger] e[i] matches StartStep::StartExporter { pipeline, group, member }
                && pipeline == p && group < k && member < members(widths[group as int]))
            &&& forall|g: int, m: int| #![trigger exporter_step(p, g, m)] 0 <= g < k && 0 <= m < members(widths[g])
                ==> exists|i: int| 0 <= i < e.len() && #[trigger] e[i] == exporter_step(p, g, m)
        }),
    decreases k,
{
    if k > 0 {
        lemma_exporter_steps_exact(p, widths, (k - 1) as nat);
        let a = exporter_steps(p, widths, (k - 1) as nat);
        let gi = (k - 1) as int;
        let b = group_steps(p, (k - 1) as usize, widths[gi]);
        let e = a + b;
        assert(e == exporter_steps(p, widths, k));
        assert(members(widths[gi]) <= usize::MAX);
        assert forall|i: int| 0 <= i < b.len() implies (#[trigger] b[i] == (StartStep::StartExporter { pipeline: p, group: (k - 1) as usize, member: i as usize })
            && i < members(widths[gi])) by {
            match widths[gi] {
                None => {},
                Some(n) => {},
            }
        }
        assert(b.len() == members(widths[gi]));
        assert forall|i: int| 0 <= i < e.len() implies (#[trigger] e[i] matches StartStep::StartExporter { pipeline, group, member }
            && pipeline == p && group < k && member < members(widths[group as int])) by {
            if i >= a.len() {
                assert(e[i] == b[i - a.len()]);
            } else {
                assert(e[i] == a[i]);
            }
        }
        assert forall|i: int, j: int| 0 <= i < j < e.len() implies #[trigger] e[i] != #[trigger] e[j] by {
            if j < a.len() {
                assert(e[i] == a[i] && e[j] == a[j]);
            } else if i >= a.len() {
                assert(e[i] == b[i - a.len()] && e[j] == b[j - a.len()]);
            } else {
                assert(e[i] == a[i] && e[j] == b[j - a.len()]);
            }
        }
        assert forall|g: int, m: int| #![trigger exporter_step(p, g, m)] 0 <= g < k && 0 <= m < members(widths[g])
            implies exists|i: int| 0 <= i < e.len() && #[trigger] e[i] == exporter_step(p, g, m) by {
            if g < k - 1 {
                assert(exporter_step(p, g, m) == exporter_step(p, g, m));
                let i = choose|i: int| 0 <= i < a.len() && #[trigger] a[i] == exporter_step(p, g, m);
                assert(e[i] == a[i]);
            } else {
                assert(e[a.len() + m] == b[m]);
            }
        }
    }
}

proof fn lemma_pipeline_steps_exact(p: usize, widths: Seq<Option<nat>>, n: nat)
    requires
        widths_fit(widths),
        n <= usize::MAX,
    ensures
        ({
            let s = pipeline_steps(p, widths, n);
            &&& forall|i: int, j: int| 0 <= i < j < s.len() ==> #[trigger] s[i] != #[trigger] s[j]
            &&& forall|i: int| 0 <= i < s.len() ==> names_component(p as int, widths, n, #[trigger] s[i])
            &&& forall|x: StartStep| names_component(p as int, widths, n, x)
                ==> exists|i: int| 0 <= i < s.len() && #[trigger] s[i] == x
        }),
{
    lemma_exporter_steps_exact(p, widths, widths.len());
    let e = exporter_steps(p, widths, widths.len());
    let q = Seq::new(n, |i: int| StartStep::StartProcessor { pipeline: p, index: i as usize });
    let t = seq![StartStep::Launch { pipeline: p }, StartStep::StartReceiver { pipeline: p }];
    let s = e + q + t;
    assert(s == pipeline_steps(p, widths, n));
    assert forall|i: int| 0 <= i < s.len() implies names_component(p as int, widths, n, #[trigger] s[i]) by {
        if i < e.len() {
            assert(s[i] == e[i]);
        } else if i < e.len() + q.len() {
            assert(s[i] == q[i - e.len()]);
        } else {
            assert(s[i] == t[i - e.len() - q.len()]);
        }
    }
    assert forall|i: int, j: int| 0 <= i < j < s.len() implies #[trigger] s[i] != #[trigger] s[j] by {
        if j < e.len() {
            assert(s[i] == e[i] && s[j] == e[j]);
        } else if i < e.len() {
            assert(s[i] == e[i]);
            if j < e.len() + q.len() {
                assert(s[j] == q[j - e.len()]);
            } else {
                assert(s[j] == t[j - e.len() - q.len()]);
            }
        } else if j < e.len() + q.len() {
            assert(s[i] == q[i - e.len()] && s[j] == q[j - e.len()]);
        } else if i < e.len() + q.len() {
            assert(s[i] == q[i - e.len()] && s[j] == t[j - e.len() - q.len()]);
        } else {
            assert(s[i] == t[i - e.len() - q.len()] && s[j] == t[j - e.len() - q.len()]);
        }
    }
    assert forall|x: StartStep| names_component(p as int, widths, n, x)
        implies exists|i: int| 0 <= i < s.len() && #[trigger] s[i] == x by {
        match x {
            StartStep::StartExporter { pipeline, group, member } => {
                assert(exporter_step(p, group as int, member as int) == x);
                let i = choose|i: int| 0 <= i < e.len() && #[trigger] e[i] == exporter_step(p, group as int, member as int);
                assert(s[i] == e[i]);
            },
            StartStep::StartProcessor { pipeline, index } => {
                assert(s[e.len() + index] == q[index as int]);
            },
            StartStep::Launch { pipeline } => {
                assert(s[(e.len() + q.len()) as int] == t[0]);
            },
            StartStep::StartReceiver { pipeline } => {
                assert(s[(e.len() + q.len() + 1) as int] == t[1]);
            },
        }
    }
}

proof fn lemma_start_steps_exact<R, P, E>(ps: Seq<Pipeline<R, P, E>>, k: nat)
    requires
        k <= ps.len(),
        ps.len() <= usize::MAX,
    ensures
        ({
            let s = start_steps(ps, k);
            &&& forall|i: int, j: int| 0 <= i < j < s.len() ==> #[trigger] s[i] != #[trigger] s[j]
            &&& forall|i: int| 0 <= i < s.len() ==> is_start_step(ps, #[trigger] s[i]) && pipeline_of(s[i]) < k
            &&& forall|x: StartStep| is_start_step(ps, x) && pipeline_of(x) < k
                ==> exists|i: int| 0 <= i < s.len() && #[trigger] s[i] == x
        }),
    decreases k,
{
    if k > 0 {
        lemma_start_steps_exact(ps, (k - 1) as nat);
        let a = start_steps(ps, (k - 1) as nat);
        let pi = (k - 1) as int;
        let p = (k - 1) as usize;
        let widths = widths_of(ps[pi]);
        let n = ps[pi].processors.len() as nat;
        assert(widths_fit(widths)) by {
            assert(widths.len() == ps[pi].exporter_groups@.len());
            assert(ps[pi].exporter_groups.len() <= usize::MAX);
            assert(widths.len() <= usize::MAX);
            assert forall|g: int| 0 <= g < widths.len() implies members(#[trigger] widths[g]) <= usize::MAX by {
                assert(widths[g] == group_width(ps[pi].exporter_groups@[g]));
                match ps[pi].exporter_groups@[g] {
                    ExporterGroup::Flat(_) => {},
                    ExporterGroup::OneOf(v) => {
                        assert(v.len() <= usize::MAX);
                        assert(widths[g] == Some(v.len() as nat));
                    },
                }
            }
        }
        lemma_pipeline_steps_exact(p, widths, n);
        let b = pipeline_steps(p, widths, n);
        let s = a + b;
        assert(s == start_steps(ps, k));
        assert forall|i: int| 0 <= i < s.len() implies is_start_step(ps, #[trigger] s[i]) && pipeline_of(s[i]) < k by {
            if i < a.len() {
                assert(s[i] == a[i]);
            } else {
                assert(s[i] == b[i - a.len()]);
                assert(names_component(p as int, widths, n, b[i - a.len()]));
            }
        }
        assert forall|i: int, j: int| 0 <= i < j < s.len() implies #[trigger] s[i] != #[trigger] s[j] by {
            if j < a.len() {
                assert(s[i] == a[i] && s[j] == a[j]);
            } else if i >= a.len() {
                assert(s[i] == b[i - a.len()] && s[j] == b[j - a.len()]);
            } else {
                assert(s[i] == a[i] && s[j] == b[j - a.len()]);
                assert(pipeline_of(a[i]) < k - 1);
                assert(names_component(p as int, widths, n, b[j - a.len()]));
            }
        }
        assert forall|x: StartStep| is_start_step(ps, x) && pipeline_of(x) < k
            implies exists|i: int| 0 <= i < s.len() && #[trigger] s[i] == x by {
            if pipeline_of(x) < k - 1 {
                let i = choose|i: int| 0 <= i < a.len() && #[trigger] a[i] == x;
                assert(s[i] == a[i]);
            } else {
                let i = choose|i: int| 0 <= i < b.len() && #[trigger] b[i] == x;
                assert(s[a.len() + i] == b[i]);
            }
        }
    }
}

/// The start plan starts every component exactly once: every step starts a
/// component of one of the pipelines (an exporter member of one of its
/// groups, one of its processors, its loop or its receiver), every such
/// component's step is in the plan, and no step is repeated. With
/// `lemma_start_order`, each pipeline's exporters all start before its
/// processors, which all start before its loop and its receiver.
pub proof fn lemma_start_plan_complete<R, P, E>(ps: Seq<Pipeline<R, P, E>>)
    requires
        ps.len() <= usize::MAX,
    ensures
        ({
            let s = start_steps(ps, ps.len());
            &&& forall|i: int, j: int| 0 <= i < j < s.len() ==> #[trigger] s[i] != #[trigger] s[j]
            &&& forall|i: int| 0 <= i < s.len() ==> is_start_step(ps, #[trigger] s[i])
            &&& forall|x: StartStep| is_start_step(ps, x) ==> exists|i: int| 0 <= i < s.len() && #[trigger] s[i] == x
        }),
{
    lemma_start_steps_exact(ps, ps.len());
}

/// Drives the component lifecycle of every pipeline. Start order, per
/// pipeline: exporters, processors, then receivers. Shutdown order:
/// receivers, then each loop drains its channel, drains its processors and
/// shuts its processors, then its exporters, down (`close_plan`).
pub struct Engine<R, P, E> {
    pub pipelines: Vec<Pipeline<R, P, E>>,
    pub retry: RetryConfig,
}

impl<R, P, E> Engine<R, P, E> {
    pub fn new(pipelines: Vec<Pipeline<R, P, E>>) -> (r: Self)
        ensures
            r.pipelines@ == pipelines@,
            r.retry.max_attempts == 3,
            r.retry.initial_backoff_ms == 100,
            r.retry.max_backoff_ms == 10_000,
    {
        Engine { pipelines, retry: RetryConfig::default() }
    }

    pub fn with_retry(self, retry: RetryConfig) -> (r: Self)
        ensures
            r.pipelines@ == self.pipelines@,
            r.retry == retry,
    {
        let mut e = self;
        e.retry = retry;
        e
    }

    /// The steps that start every pipeline, in order.
    pub fn start_plan(&self) -> (r: Vec<StartStep>)
        ensures
            r@ == start_steps(self.pipelines@, self.pipelines.len() as nat),
    {
        let mut plan: Vec<StartStep> = Vec::new();
        let mut p: usize = 0;
        while p < self.pipelines.len()
            invariant
                0 <= p <= self.pipelines.len(),
                plan@ == start_steps(self.pipelines@, p as nat),
            decreases self.pipelines.len() - p,
        {
            let pipeline = &self.pipelines[p];
            let ghost before = plan@;
            let ghost widths = widths_of(*pipeline);
            let mut g: usize = 0;
            while g < pipeline.exporter_groups.len()
                invariant
                    0 <= g <= pipeline.exporter_groups.len(),
                    widths == widths_of(*pipeline),
                    widths.len() == pipeline.exporter_groups.len(),
                    plan@ == before + exporter_steps(p, widths, g as nat),
                decreases pipeline.exporter_groups.len() - g,
            {
                let ghost mid = plan@;
                match &pipeline.exporter_groups[g] {
                    ExporterGroup::Flat(_) => {
                        plan.push(StartStep::StartExporter { pipeline: p, group: g, member: 0 });
                    },
                    ExporterGroup::OneOf(v) => {
                        let mut m: usize = 0;
                        while m < v.len()
                            invariant
                                0 <= m <= v.len(),
                                plan@ == mid + Seq::new(m as nat, |k: int| StartStep::StartExporter { pipeline: p, group: g, member: k as usize }),
                            decreases v.len() - m,
                        {
                            plan.push(StartStep::StartExporter { pipeline: p, group: g, member: m });
                            m = m + 1;
                            assert(plan@ =~= mid + Seq::new(m as nat, |k: int| StartStep::StartExporter { pipeline: p, group: g, member: k as usize }));
                        }
                    },
                }
                assert(widths[g as int] == group_width(pipeline.exporter_groups[g as int]));
                assert(plan@ =~= before + exporter_steps(p, widths, (g + 1) as nat));
                g = g + 1;
            }
            let ghost after_exporters = plan@;
            let mut i: usize = 0;
            while i < pipeline.processors.len()
                invariant
                    0 <= i <= pipeline.processors.len(),
                    plan@ == after_exporters + Seq::new(i as nat, |k: int| StartStep::StartProcessor { pipeline: p, index: k as usize }),
                decreases pipeline.processors.len() - i,
            {
                plan.push(StartStep::StartProcessor { pipeline: p, index: i });
                i = i + 1;
                assert(plan@ =~= after_exporters + Seq::new(i as nat, |k: int| StartStep::StartProcessor { pipeline: p, index: k as usize }));
            }
            plan.push(StartStep::Launch { pipeline: p });
            plan.push(StartStep::StartReceiver { pipeline: p });
            assert(plan@ =~= before + pipeline_steps(p, widths, pipeline.processors.len() as nat));
            assert(plan@ =~= start_steps(self.pipelines@, (p + 1) as nat));
            p = p + 1;
        }
        plan
    }
}

// ---------------------------------------------------------------------------
// Closing a pipeline loop
// ---------------------------------------------------------------------------

/// One step of closing a pipeline loop once its channel is drained (its
/// receiver stopped).
#[derive(PartialEq, Eq, Structural, Clone, Copy, Debug)]
pub enum CloseStep {
    /// Take what processor `index` still holds, whatever its flush
    /// condition, and pass it on down the chain after it, then to the
    /// executor, as a batch of the loop would go.
    Drain { index: usize },
    /// Shut processor `index` down.
    StopProcessor { index: usize },
    /// Shut exporter `member` of group `group` down.
    StopExporter { group: usize, member: usize },
}

/// The exporters of groups `0..k`, group by group, each member in order.
pub open spec fn exporter_close_steps(shapes: Seq<GroupShape>, k: nat) -> Seq<CloseStep>
    decreases k,
{
    if k == 0 {
        Seq::empty()
    } else {
        exporter_close_steps(shapes, (k - 1) as nat)
            + Seq::new(width(shapes[k - 1]), |m: int| CloseStep::StopExporter { group: (k - 1) as usize, member: m as usize })
    }
}

/// Shutdown order of a loop: every processor is drained, in order; then
/// every processor is shut down, in order; then every exporter, group by group.
pub open spec fn close_steps(processors: nat, shapes: Seq<GroupShape>) -> Seq<CloseStep> {
    Seq::new(processors, |i: int| CloseStep::Drain { index: i as usize })
        + Seq::new(processors, |i: int| CloseStep::StopProcessor { index: i as usize })
        + exporter_close_steps(shapes, shapes.len())
}

/// Order of a step in the shutdown: drains, then processors, then exporters.
pub open spec fn close_rank(s: CloseStep) -> int {
    match s {
        CloseStep::Drain { .. } => 0,
        CloseStep::StopProcessor { .. } => 1,
        CloseStep::StopExporter { .. } => 2,
    }
}

/// The steps of the loop's shutdown, in order.
pub fn close_plan(processors: usize, shapes: &Vec<GroupShape>) -> (r: Vec<CloseStep>)
    ensures
        r@ == close_steps(processors as nat, shapes@),
{
    let mut plan: Vec<CloseStep> = Vec::new();
    let mut i: usize = 0;
    while i < processors
        invariant
            0 <= i <= processors,
            plan@ == Seq::new(i as nat, |k: int| CloseStep::Drain { index: k as usize }),
        decreases processors - i,
    {
        plan.push(CloseStep::Drain { index: i });
        i = i + 1;
        assert(plan@ =~= Seq::new(i as nat, |k: int| CloseStep::Drain { index: k as usize }));
    }
    let ghost drains = plan@;
    let mut i: usize = 0;
    while i < processors
        invariant
            0 <= i <= processors,
            plan@ == drains + Seq::new(i as nat, |k: int| CloseStep::StopProcessor { index: k as usize }),
        decreases processors - i,
    {
        plan.push(CloseStep::StopProcessor { index: i });
        i = i + 1;
        assert(plan@ =~= drains + Seq::new(i as nat, |k: int| CloseStep::StopProcessor { index: k as usize }));
    }
    let ghost before = plan@;
    let mut g: usize = 0;
    while g < shapes.len()
        invariant
            0 <= g <= shapes.len(),
            plan@ == before + exporter_close_steps(shapes@, g as nat),
        decreases shapes.len() - g,
    {
        let ghost mid = plan@;
        let n: usize = match shapes[g] {
            GroupShape::Flat => 1,
            GroupShape::OneOf(n) => n,
        };
        assert(n == width(shapes@[g as int]));
        let mut m: usize = 0;
        while m < n
            invariant
                0 <= m <= n,
                plan@ == mid + Seq::new(m as nat, |k: int| CloseStep::StopExporter { group: g, member: k as usize }),
            decreases n - m,
        {
            plan.push(CloseStep::StopExporter { group: g, member: m });
            m = m + 1;
            assert(plan@ =~= mid + Seq::new(m as nat, |k: int| CloseStep::StopExporter { group: g, member: k as usize }));
        }
        assert(plan@ =~= before + exporter_close_steps(shapes@, (g + 1) as nat));
        g = g + 1;
    }
    plan
}

proof fn lemma_exporter_close_steps(shapes: Seq<GroupShape>, k: nat)
    ensures
        forall|i: int| 0 <= i < exporter_close_steps(shapes, k).len()
            ==> #[trigger] exporter_close_steps(shapes, k)[i] is StopExporter,
    decreases k,
{
    if k > 0 {
        lemma_exporter_close_steps(shapes, (k - 1) as nat);
        let a = exporter_close_steps(shapes, (k - 1) as nat);
        let b = Seq::new(width(shapes[k - 1]), |m: int| CloseStep::StopExporter { group: (k - 1) as usize, member: m as usize });
        assert forall|i: int| 0 <= i < (a + b).len() implies #[trigger] (a + b)[i] is StopExporter by {
            if i >= a.len() {
                assert((a + b)[i] == b[i - a.len()]);
            }
        }
    }
}

/// Shutdown order: everything a processor still holds is passed on before
/// any processor is shut down, every processor is shut down before any
/// exporter, and each processor is drained exactly once, in chain order.
pub proof fn lemma_close_order(processors: nat, shapes: Seq<GroupShape>)
    ensures
        ({
            let s = close_steps(processors, shapes);
            &&& forall|i: int, j: int| 0 <= i < j < s.len() ==> close_rank(#[trigger] s[i]) <= close_rank(#[trigger] s[j])
            &&& forall|i: int| 0 <= i < processors ==> #[trigger] s[i] == (CloseStep::Drain { index: i as usize })
            &&& forall|i: int| processors <= i < 2 * processors ==> #[trigger] s[i] == (CloseStep::StopProcessor { index: (i - processors) as usize })
        }),
{
    let d = Seq::new(processors, |i: int| CloseStep::Drain { index: i as usize });
    let q = Seq::new(processors, |i: int| CloseStep::StopProcessor { index: i as usize });
    let e = exporter_close_steps(shapes, shapes.len());
    lemma_exporter_close_steps(shapes, shapes.len());
    let s = close_steps(processors, shapes);
    assert(s == d + q + e);
    assert forall|i: int| 0 <= i < s.len() implies close_rank(#[trigger] s[i]) == (if i < processors { 0int } else if i < 2 * processors { 1int } else { 2int }) by {
        if i < processors {
            assert(s[i] == d[i]);
        } else if i < 2 * processors {
            assert(s[i] == q[i - processors]);
        } else {
            assert(s[i] == e[i - 2 * processors]);
        }
    }
    assert forall|i: int| 0 <= i < processors implies #[trigger] s[i] == (CloseStep::Drain { index: i as usize }) by {
        assert(s[i] == d[i]);
    }
    assert forall|i: int| processors <= i < 2 * processors implies #[trigger] s[i] == (CloseStep::StopProcessor { index: (i - processors) as usize }) by {
        assert(s[i] == q[i - processors]);
    }
}

/// `s` closes a component of a loop with `processors` processors and
/// exporter groups of these shapes.
pub open spec fn closes_component(processors: nat, shapes: Seq<GroupShape>, s: CloseStep) -> bool {
    match s {
        CloseStep::Drain { index } => index < processors,
        CloseStep::StopProcessor { index } => index < processors,
        CloseStep::StopExporter { group, member } => group < shapes.len() && member < width(shapes[group as int]),
    }
}

/// The step that stops exporter `m` of group `g`.
pub open spec fn stop_exporter_step(g: int, m: int) -> CloseStep {
    CloseStep::StopExporter { group: g as usize, member: m as usize }
}

proof fn lemma_exporter_close_steps_exact(shapes: Seq<GroupShape>, k: nat)
    requires
        k <= shapes.len(),
        shapes.len() <= usize::MAX,
    ensures
        ({
            let e = exporter_close_steps(shapes, k);
            &&& forall|i: int, j: int| 0 <= i < j < e.len() ==> #[trigger] e[i] != #[trigger] e[j]
            &&& forall|i: int| 0 <= i < e.len() ==> (#[trigger] e[i] matches CloseStep::StopExporter { group, member }
                && group < k && member < width(shapes[group as int]))
            &&& forall|g: int, m: int| #![trigger stop_exporter_step(g, m)] 0 <= g < k && 0 <= m < width(shapes[g])
                ==> exists|i: int| 0 <= i < e.len() && #[trigger] e[i] == stop_exporter_step(g, m)
        }),
    decreases k,
{
    if k > 0 {
        lemma_exporter_close_steps_exact(shapes, (k - 1) as nat);
        let a = exporter_close_steps(shapes, (k - 1) as nat);
        let gi = (k - 1) as int;
        let b = Seq::new(width(shapes[gi]), |m: int| CloseStep::StopExporter { group: (k - 1) as usize, member: m as usize });
        let e = a + b;
        assert(e == exporter_close_steps(shapes, k));
        assert(width(shapes[gi]) <= usize::MAX) by {
            match shapes[gi] {
                GroupShape::Flat => {},
                GroupShape::OneOf(n) => {},
            }
        }
        assert forall|i: int| 0 <= i < e.len() implies (#[trigger] e[i] matches CloseStep::StopExporter { group, member }
            && group < k && member < width(shapes[group as int])) by {
            if i >= a.len() {
                assert(e[i] == b[i - a.len()]);
            } else {
                assert(e[i] == a[i]);
            }
        }
        assert forall|i: int, j: int| 0 <= i < j < e.len() implies #[trigger] e[i] != #[trigger] e[j] by {
            if j < a.len() {
                assert(e[i] == a[i] && e[j] == a[j]);
            } else if i >= a.len() {
                assert(e[i] == b[i - a.len()] && e[j] == b[j - a.len()]);
            } else {
                assert(e[i] == a[i] && e[j] == b[j - a.len()]);
            }
        }
        assert forall|g: int, m: int| #![trigger stop_exporter_step(g, m)] 0 <= g < k && 0 <= m < width(shapes[g])
            implies exists|i: int| 0 <= i < e.len() && #[trigger] e[i] == stop_exporter_step(g, m) by {
            if g < k - 1 {
                assert(stop_exporter_step(g, m) == stop_exporter_step(g, m));
                let i = choose|i: int| 0 <= i < a.len() && #[trigger] a[i] == stop_exporter_step(g, m);
                assert(e[i] == a[i]);
            } else {
                assert(e[a.len() + m] == b[m]);
            }
        }
    }
}

/// The close plan closes every component exactly once: every step drains
/// or stops one of the loop's processors or stops one exporter member of
/// one of its groups, every such step is in the plan, and no step is repeated.
pub proof fn lemma_close_plan_complete(processors: nat, shapes: Seq<GroupShape>)
    requires
        processors <= usize::MAX,
        shapes.len() <= usize::MAX,
    ensures
        ({
            let s = close_steps(processors, shapes);
            &&& forall|i: int, j: int| 0 <= i < j < s.len() ==> #[trigger] s[i] != #[trigger] s[j]
            &&& forall|i: int| 0 <= i < s.len() ==> closes_component(processors, shapes, #[trigger] s[i])
            &&& forall|x: CloseStep| closes_component(processors, shapes, x) ==> exists|i: int| 0 <= i < s.len() && #[trigger] s[i] == x
        }),
{
    let d = Seq::new(processors, |i: int| CloseStep::Drain { index: i as usize });
    let q = Seq::new(processors, |i: int| CloseStep::StopProcessor { index: i as usize });
    let e = exporter_close_steps(shapes, shapes.len());
    lemma_exporter_close_steps_exact(shapes, shapes.len());
    let s = d + q + e;
    assert(s == close_steps(processors, shapes));
    let np = processors as int;
    assert forall|i: int| 0 <= i < s.len() implies closes_component(processors, shapes, #[trigger] s[i]) by {
        if i < np {
            assert(s[i] == d[i]);
        } else if i < 2 * np {
            assert(s[i] == q[i - np]);
        } else {
            assert(s[i] == e[i - 2 * np]);
        }
    }
    assert forall|i: int, j: int| 0 <= i < j < s.len() implies #[trigger] s[i] != #[trigger] s[j] by {
        if j < np {
            assert(s[i] == d[i] && s[j] == d[j]);
        } else if j < 2 * np {
            assert(s[j] == q[j - np]);
            if i < np {
                assert(s[i] == d[i]);
            } else {
                assert(s[i] == q[i - np]);
            }
        } else {
            assert(s[j] == e[j - 2 * np]);
            if i < np {
                assert(s[i] == d[i]);
            } else if i < 2 * np {
                assert(s[i] == q[i - np]);
            } else {
                assert(s[i] == e[i - 2 * np]);
            }
        }
    }
    assert forall|x: CloseStep| closes_component(processors, shapes, x) implies exists|i: int| 0 <= i < s.len() && #[trigger] s[i] == x by {
        match x {
            CloseStep::Drain { index } => {
                assert(s[index as int] == d[index as int]);
            },
            CloseStep::StopProcessor { index } => {
                assert(s[np + index] == q[index as int]);
            },
            CloseStep::StopExporter { group, member } => {
                assert(stop_exporter_step(group as int, member as int) == x);
                let i = choose|i: int| 0 <= i < e.len() && #[trigger] e[i] == stop_exporter_step(group as int, member as int);
                assert(s[2 * np + i] == e[i]);
            },
        }
    }
}

} // verus!
