use vstd::prelude::*;
use crate::error::IngestionError;
use crate::pipeline::ExporterGroup;

verus! {

/// Retry parameters for mandatory exporter groups.
#[derive(Clone, Copy, Debug)]
pub struct RetryConfig {
    pub max_attempts: usize,
    pub initial_backoff_ms: u64,
    pub max_backoff_ms: u64,
}

impl Default for RetryConfig {
    fn default() -> (r: Self)
        ensures
            r.max_attempts == 3,
            r.initial_backoff_ms == 100,
            r.max_backoff_ms == 10_000,
    {
        RetryConfig { max_attempts: 3, initial_backoff_ms: 100, max_backoff_ms: 10_000 }
    }
}

pub open spec fn min(a: int, b: int) -> int {
    if a <= b {
        a
    } else {
        b
    }
}

/// The wait after a failed attempt doubles, capped at `max`.
pub open spec fn doubled_capped(b: int, max: int) -> int {
    min(2 * b, max)
}

/// The wait that follows the failure of attempt `k` (counted from 0).
pub open spec fn backoff_at(retry: RetryConfig, k: nat) -> int
    decreases k,
{
    if k == 0 {
        retry.initial_backoff_ms as int
    } else {
        doubled_capped(backoff_at(retry, (k - 1) as nat), retry.max_backoff_ms as int)
    }
}

/// `min(2 * backoff_ms, max_backoff_ms)`, computed without overflow.
pub fn next_backoff(backoff_ms: u64, max_backoff_ms: u64) -> (r: u64)
    ensures
        r == doubled_capped(backoff_ms as int, max_backoff_ms as int),
{
    if backoff_ms > max_backoff_ms / 2 {
        max_backoff_ms
    } else {
        backoff_ms * 2
    }
}


// ---------------------------------------------------------------------------
// The flush protocol
// ---------------------------------------------------------------------------

/// What the retry protocol needs to know of an exporter group.
#[derive(PartialEq, Eq, Structural, Clone, Copy, Debug)]
pub enum GroupShape {
    Flat,
    OneOf(usize),
}

/// How many exporters one attempt of the group tries at most.
pub open spec fn width(s: GroupShape) -> nat {
    match s {
        GroupShape::Flat => 1,
        GroupShape::OneOf(n) => n as nat,
    }
}

#[derive(PartialEq, Eq, Structural, Clone, Copy, Debug)]
pub enum FlushPhase {
    /// Waiting for the result of an `Export` action.
    Exporting,
    /// Waiting for a `Backoff` action to elapse.
    BackingOff,
    /// Waiting for the driver to take note of a `Dropped` action.
    Dropping,
    Finished,
}

/// The next thing the driver of a flush must do.
pub enum FlushAction {
    /// Hand the batch to exporter `member` of group `group`.
    Export { group: usize, member: usize },
    /// Sleep `ms` milliseconds, then retry group `group` from its first exporter.
    Backoff { group: usize, ms: u64 },
    /// Group `group` has failed its last allowed attempt: the batch is
    /// dropped for that group alone. Report it, then go on to the next group.
    Dropped { group: usize },
    /// The flush is over, with this outcome.
    Done(Result<(), IngestionError>),
}

/// The state of one flush of one batch through every exporter group.
pub struct Flush {
    pub shapes: Vec<GroupShape>,
    pub retry: RetryConfig,
    pub group: usize,
    pub attempt: usize,
    pub member: usize,
    pub backoff_ms: u64,
    pub phase: FlushPhase,
    /// Some group has dropped the batch.
    pub exhausted: bool,
}

impl Flush {
    /// The state is one the protocol can reach.
    pub open spec fn wf(&self) -> bool {
        &&& self.phase != FlushPhase::Finished ==> {
            &&& self.group < self.shapes.len()
            &&& self.attempt < self.retry.max_attempts
            &&& self.backoff_ms == backoff_at(self.retry, self.attempt as nat)
            &&& self.phase == FlushPhase::Exporting ==> self.member < width(self.shapes[self.group as int])
            &&& self.phase == FlushPhase::BackingOff ==> self.attempt + 1 < self.retry.max_attempts
            &&& self.phase == FlushPhase::Dropping ==> self.exhausted && self.attempt + 1 == self.retry.max_attempts
        }
    }
}

/// How a flush ends: with the exhaustion error if some group dropped the
/// batch, with success otherwise.
pub open spec fn outcome(exhausted: bool, retry: RetryConfig) -> Result<(), IngestionError> {
    if exhausted {
        Err(IngestionError::MaxRetriesExhausted { attempts: retry.max_attempts })
    } else {
        Ok(())
    }
}

/// The current attempt of the current group has failed everywhere: back off
/// and retry, or, after the last allowed attempt, drop the batch for this group.
pub open spec fn failed(s: Flush) -> (Flush, FlushAction) {
    if s.attempt + 1 == s.retry.max_attempts {
        (Flush { phase: FlushPhase::Dropping, exhausted: true, ..s }, FlushAction::Dropped { group: s.group })
    } else {
        (Flush { phase: FlushPhase::BackingOff, ..s }, FlushAction::Backoff { group: s.group, ms: s.backoff_ms })
    }
}

/// Begin the current attempt of the current group at its first exporter.
pub open spec fn begin(s: Flush) -> (Flush, FlushAction) {
    if width(s.shapes[s.group as int]) == 0 {
        failed(Flush { member: 0, ..s })
    } else {
        (Flush { member: 0, phase: FlushPhase::Exporting, ..s }, FlushAction::Export { group: s.group, member: 0 })
    }
}

/// Move to group `g` with a fresh attempt count and backoff; after the last
/// group, the flush is over.
pub open spec fn enter(s: Flush, g: usize) -> (Flush, FlushAction) {
    if g == s.shapes.len() {
        (Flush { group: g, phase: FlushPhase::Finished, ..s }, FlushAction::Done(outcome(s.exhausted, s.retry)))
    } else {
        begin(Flush { group: g, attempt: 0, backoff_ms: s.retry.initial_backoff_ms, ..s })
    }
}

/// The protocol's answer to the result of an export.
pub open spec fn after_export(s: Flush, ok: bool) -> (Flush, FlushAction) {
    if ok {
        enter(s, (s.group + 1) as usize)
    } else if s.member + 1 < width(s.shapes[s.group as int]) {
        (Flush { member: (s.member + 1) as usize, ..s }, FlushAction::Export { group: s.group, member: (s.member + 1) as usize })
    } else {
        failed(s)
    }
}

/// The protocol's answer to the end of a backoff.
pub open spec fn after_backoff(s: Flush) -> (Flush, FlushAction) {
    begin(Flush {
        attempt: (s.attempt + 1) as usize,
        backoff_ms: doubled_capped(s.backoff_ms as int, s.retry.max_backoff_ms as int) as u64,
        ..s
    })
}

/// The protocol's answer once a dropped batch has been reported: the next group.
pub open spec fn after_dropped(s: Flush) -> (Flush, FlushAction) {
    enter(s, (s.group + 1) as usize)
}

/// The state every flush starts from: nothing of an earlier flush is kept.
pub open spec fn initial(shapes: Vec<GroupShape>, retry: RetryConfig) -> Flush {
    Flush {
        shapes,
        retry,
        group: 0,
        attempt: 0,
        member: 0,
        backoff_ms: retry.initial_backoff_ms,
        phase: FlushPhase::Exporting,
        exhausted: false,
    }
}

pub open spec fn start_spec(shapes: Vec<GroupShape>, retry: RetryConfig) -> (Flush, FlushAction) {
    enter(initial(shapes, retry), 0)
}

impl Flush {
    fn fail_attempt(&mut self) -> (a: FlushAction)
        requires
            old(self).group < old(self).shapes.len(),
            old(self).attempt < old(self).retry.max_attempts,
        ensures
            (*final(self), a) == failed(*old(self)),
    {
        if self.attempt + 1 == self.retry.max_attempts {
            self.phase = FlushPhase::Dropping;
            self.exhausted = true;
            FlushAction::Dropped { group: self.group }
        } else {
            self.phase = FlushPhase::BackingOff;
            FlushAction::Backoff { group: self.group, ms: self.backoff_ms }
        }
    }

    fn begin_attempt(&mut self) -> (a: FlushAction)
        requires
            old(self).group < old(self).shapes.len(),
            old(self).attempt < old(self).retry.max_attempts,
        ensures
            (*final(self), a) == begin(*old(self)),
    {
        self.member = 0;
        let empty = match self.shapes[self.group] {
            GroupShape::Flat => false,
            GroupShape::OneOf(n) => n == 0,
        };
        if empty {
            self.fail_attempt()
        } else {
            self.phase = FlushPhase::Exporting;
            FlushAction::Export { group: self.group, member: 0 }
        }
    }

    fn enter_group(&mut self, g: usize) -> (a: FlushAction)
        requires
            g <= old(self).shapes.len(),
            g < old(self).shapes.len() ==> old(self).retry.max_attempts > 0,
        ensures
            (*final(self), a) == enter(*old(self), g),
    {
        if g == self.shapes.len() {
            self.group = g;
            self.phase = FlushPhase::Finished;
            if self.exhausted {
                FlushAction::Done(Err(IngestionError::MaxRetriesExhausted { attempts: self.retry.max_attempts }))
            } else {
                FlushAction::Done(Ok(()))
            }
        } else {
            self.group = g;
            self.attempt = 0;
            self.backoff_ms = self.retry.initial_backoff_ms;
            self.begin_attempt()
        }
    }

    /// Begins a flush through groups of these shapes. Every flush starts at
    /// the first exporter of the first group, with a fresh attempt count.
    pub fn start(shapes: Vec<GroupShape>, retry: RetryConfig) -> (r: (Flush, FlushAction))
        requires
            shapes.len() > 0 ==> retry.max_attempts > 0,
        ensures
            r == start_spec(shapes, retry),
            r.0.wf(),
    {
        let mut f = Flush {
            shapes,
            retry,
            group: 0,
            attempt: 0,
            member: 0,
            backoff_ms: retry.initial_backoff_ms,
            phase: FlushPhase::Exporting,
            exhausted: false,
        };
        let a = f.enter_group(0);
        (f, a)
    }

    /// Takes the result of the export the last action asked for.
    pub fn on_export(&mut self, ok: bool) -> (a: FlushAction)
        requires
            old(self).wf(),
            old(self).phase == FlushPhase::Exporting,
        ensures
            (*final(self), a) == after_export(*old(self), ok),
            final(self).wf(),
    {
        if ok {
            let g = self.group + 1;
            self.enter_group(g)
        } else {
            let width: usize = match self.shapes[self.group] {
                GroupShape::Flat => 1,
                GroupShape::OneOf(n) => n,
            };
            if self.member + 1 < width {
                self.member = self.member + 1;
                FlushAction::Export { group: self.group, member: self.member }
            } else {
                self.fail_attempt()
            }
        }
    }

    /// Takes the end of the backoff the last action asked for.
    pub fn on_backoff_elapsed(&mut self) -> (a: FlushAction)
        requires
            old(self).wf(),
            old(self).phase == FlushPhase::BackingOff,
        ensures
            (*final(self), a) == after_backoff(*old(self)),
            final(self).wf(),
    {
        self.attempt = self.attempt + 1;
        self.backoff_ms = next_backoff(self.backoff_ms, self.retry.max_backoff_ms);
        self.begin_attempt()
    }

    /// Goes on to the next group once the driver has reported the batch
    /// dropped for the current one.
    pub fn on_dropped(&mut self) -> (a: FlushAction)
        requires
            old(self).wf(),
            old(self).phase == FlushPhase::Dropping,
        ensures
            (*final(self), a) == after_dropped(*old(self)),
            final(self).wf(),
    {
        let g = self.group + 1;
        self.enter_group(g)
    }
}


// ---------------------------------------------------------------------------
// Laws of the retry protocol
// ---------------------------------------------------------------------------

/// 2 to the power `k`.
pub open spec fn exp2(k: nat) -> nat
    decreases k,
{
    if k == 0 {
        1
    } else {
        2 * exp2((k - 1) as nat)
    }
}

/// Exponential backoff: after the first retry, the wait that follows failed
/// attempt `k` is the initial backoff doubled `k` times, capped at the maximum.
pub proof fn lemma_backoff_closed_form(retry: RetryConfig, k: nat)
    requires
        k >= 1,
    ensures
        backoff_at(retry, k) == min(retry.initial_backoff_ms * exp2(k), retry.max_backoff_ms as int),
    decreases k,
{
    let init = retry.initial_backoff_ms as int;
    let max = retry.max_backoff_ms as int;
    assert(backoff_at(retry, k) == doubled_capped(backoff_at(retry, (k - 1) as nat), max));
    if k == 1 {
        assert(exp2(0) == 1);
        assert(exp2(1) == 2);
        assert(backoff_at(retry, 0) == init);
        assert(init * exp2(k) == 2 * init) by (nonlinear_arith)
            requires
                exp2(k) == 2,
        ;
    } else {
        lemma_backoff_closed_form(retry, (k - 1) as nat);
        let p = exp2((k - 1) as nat);
        assert(init * exp2(k) == 2 * (init * p)) by (nonlinear_arith)
            requires
                exp2(k) == 2 * p,
        ;
        assert(init * p >= 0) by (nonlinear_arith)
            requires
                init >= 0,
                p >= 0,
        ;
        assert(backoff_at(retry, (k - 1) as nat) == min(init * p, max));
    }
}

/// No wait after a retry exceeds the configured maximum.
pub proof fn lemma_backoff_capped(retry: RetryConfig, k: nat)
    requires
        k >= 1,
    ensures
        backoff_at(retry, k) <= retry.max_backoff_ms,
{
}

/// Waits never shrink when the initial backoff is within the maximum.
pub proof fn lemma_backoff_nondecreasing(retry: RetryConfig, k: nat)
    requires
        retry.initial_backoff_ms <= retry.max_backoff_ms,
    ensures
        backoff_at(retry, k) <= backoff_at(retry, k + 1),
        backoff_at(retry, k) <= retry.max_backoff_ms,
    decreases k,
{
    if k > 0 {
        lemma_backoff_nondecreasing(retry, (k - 1) as nat);
    }
}

/// `b` comes strictly later in the protocol than `a`: a later group, a later
/// attempt of the same group, a later exporter of the same attempt, or the
/// backoff or drop that closes the same attempt.
pub open spec fn later(a: Flush, b: Flush) -> bool {
    ||| b.group > a.group
    ||| b.group == a.group && b.attempt > a.attempt
    ||| b.group == a.group && b.attempt == a.attempt && b.phase == FlushPhase::Exporting
        && a.phase == FlushPhase::Exporting && b.member > a.member
    ||| b.group == a.group && b.attempt == a.attempt && (b.phase == FlushPhase::BackingOff || b.phase == FlushPhase::Dropping)
        && a.phase == FlushPhase::Exporting
}

/// Every step of a flush either finishes it or moves it strictly forward;
/// with groups, attempts and exporters all bounded, every flush finishes.
pub proof fn lemma_flush_progress(s: Flush, ok: bool)
    requires
        s.wf(),
        s.phase != FlushPhase::Finished,
    ensures
        s.phase == FlushPhase::Exporting ==> {
            let n = after_export(s, ok).0;
            n.phase == FlushPhase::Finished || later(s, n)
        },
        s.phase == FlushPhase::BackingOff ==> {
            let n = after_backoff(s).0;
            n.phase == FlushPhase::Finished || later(s, n)
        },
        s.phase == FlushPhase::Dropping ==> {
            let n = after_dropped(s).0;
            n.phase == FlushPhase::Finished || later(s, n)
        },
{
}

/// A flush ends only after its last group, and it ends with the exhaustion
/// error exactly when some group dropped the batch, with success otherwise.
pub proof fn lemma_flush_outcome(s: Flush, ok: bool)
    requires
        s.wf(),
        s.phase != FlushPhase::Finished,
    ensures
        s.phase == FlushPhase::Exporting ==> (after_export(s, ok).1 matches FlushAction::Done(r) ==> {
            &&& ok
            &&& s.group + 1 == s.shapes.len()
            &&& r == outcome(s.exhausted, s.retry)
        }),
        s.phase == FlushPhase::BackingOff ==> !(after_backoff(s).1 is Done),
        s.phase == FlushPhase::Dropping ==> (after_dropped(s).1 matches FlushAction::Done(r) ==> {
            &&& s.group + 1 == s.shapes.len()
            &&& r == (Err::<(), IngestionError>(IngestionError::MaxRetriesExhausted { attempts: s.retry.max_attempts }))
        }),
{
}

/// Whether some group dropped the batch is never forgotten, and it becomes
/// true only with a `Dropped` action, after the last allowed attempt of that group.
pub proof fn lemma_drop_recorded(s: Flush, ok: bool)
    requires
        s.wf(),
        s.phase != FlushPhase::Finished,
    ensures
        ({
            let (n, a) = if s.phase == FlushPhase::Exporting {
                after_export(s, ok)
            } else if s.phase == FlushPhase::BackingOff {
                after_backoff(s)
            } else {
                after_dropped(s)
            };
            &&& s.exhausted ==> n.exhausted
            &&& n.exhausted != s.exhausted ==> a is Dropped
            &&& a matches FlushAction::Dropped { group } ==> {
                &&& n.exhausted
                &&& n.group == group
                &&& n.attempt + 1 == s.retry.max_attempts
                &&& n.phase == FlushPhase::Dropping
            }
        }),
{
}

/// A group that drops the batch drops it for itself alone: the flush goes
/// on to the next group, at its first exporter, with a fresh attempt count
/// and the initial backoff; after the last group it ends with the exhaustion error.
pub proof fn lemma_dropped_goes_on(s: Flush)
    requires
        s.wf(),
        s.phase == FlushPhase::Dropping,
    ensures
        ({
            let (n, a) = after_dropped(s);
            &&& n.exhausted
            &&& s.group + 1 == s.shapes.len() ==> a == FlushAction::Done(Err(IngestionError::MaxRetriesExhausted { attempts: s.retry.max_attempts }))
            &&& s.group + 1 < s.shapes.len() ==> {
                &&& n.group == s.group + 1
                &&& n.attempt == 0
                &&& n.member == 0
                &&& n.backoff_ms == s.retry.initial_backoff_ms
                &&& width(s.shapes[s.group + 1]) > 0 ==> a == (FlushAction::Export { group: (s.group + 1) as usize, member: 0 })
            }
        }),
{
}

/// The first success in a group wins: the next action goes to the next
/// group, which starts at its first exporter with a fresh attempt count and
/// the initial backoff.
pub proof fn lemma_first_success_wins(s: Flush)
    requires
        s.wf(),
        s.phase == FlushPhase::Exporting,
        s.group + 1 < s.shapes.len(),
    ensures
        ({
            let (n, a) = after_export(s, true);
            &&& n.group == s.group + 1
            &&& n.attempt == 0
            &&& n.member == 0
            &&& n.backoff_ms == s.retry.initial_backoff_ms
            &&& width(s.shapes[s.group + 1]) > 0 ==> n.exhausted == s.exhausted
            &&& a matches FlushAction::Export { group, member } ==> group == s.group + 1 && member == 0
        }),
{
}

/// A failed export moves to the next exporter of the same attempt while
/// there is one; the group is backed off, or after its last attempt drops
/// the batch, only once all have failed.
pub proof fn lemma_failure_tries_next(s: Flush)
    requires
        s.wf(),
        s.phase == FlushPhase::Exporting,
    ensures
        ({
            let (n, a) = after_export(s, false);
            &&& s.member + 1 < width(s.shapes[s.group as int]) ==> a == (FlushAction::Export { group: s.group, member: (s.member + 1) as usize })
            &&& a matches FlushAction::Backoff { group, ms } ==> {
                &&& group == s.group
                &&& ms == backoff_at(s.retry, s.attempt as nat)
                &&& s.member + 1 == width(s.shapes[s.group as int])
                &&& s.attempt + 1 < s.retry.max_attempts
            }
            &&& a matches FlushAction::Dropped { group } ==> {
                &&& group == s.group
                &&& s.member + 1 == width(s.shapes[s.group as int])
                &&& s.attempt + 1 == s.retry.max_attempts
            }
        }),
{
}

/// After a backoff the same group is retried from its first exporter.
pub proof fn lemma_retry_from_head(s: Flush)
    requires
        s.wf(),
        s.phase == FlushPhase::BackingOff,
    ensures
        ({
            let (n, a) = after_backoff(s);
            &&& n.group == s.group
            &&& n.attempt == s.attempt + 1
            &&& n.member == 0
            &&& width(s.shapes[s.group as int]) > 0 ==> a == (FlushAction::Export { group: s.group, member: 0 })
        }),
{
}


/// One move of the protocol when every export answers `ok`.
pub open spec fn step_with(s: Flush, a: FlushAction, ok: bool) -> (Flush, FlushAction) {
    match a {
        FlushAction::Export { .. } => after_export(s, ok),
        FlushAction::Backoff { .. } => after_backoff(s),
        FlushAction::Dropped { .. } => after_dropped(s),
        FlushAction::Done(_) => (s, a),
    }
}

/// `n` moves of the protocol when every export answers `ok`.
pub open spec fn run_with(s: Flush, a: FlushAction, ok: bool, n: nat) -> (Flush, FlushAction)
    decreases n,
{
    if n == 0 {
        (s, a)
    } else {
        let (s2, a2) = step_with(s, a, ok);
        run_with(s2, a2, ok, (n - 1) as nat)
    }
}

/// How many exports `n` moves ask for when every export answers `ok`.
pub open spec fn exports_with(s: Flush, a: FlushAction, ok: bool, n: nat) -> nat
    decreases n,
{
    if n == 0 {
        0
    } else {
        let (s2, a2) = step_with(s, a, ok);
        (if a is Export { 1nat } else { 0nat }) + exports_with(s2, a2, ok, (n - 1) as nat)
    }
}

/// No failover position is kept: a flush enters every group at its first
/// exporter, with a fresh attempt count and the initial backoff, whatever
/// state it comes from (in particular whichever exporter of the group
/// succeeded in an earlier flush).
pub proof fn lemma_group_entered_at_head(s: Flush, g: usize)
    requires
        g < s.shapes.len(),
        width(s.shapes[g as int]) > 0,
    ensures
        ({
            let (n, a) = enter(s, g);
            &&& n.group == g
            &&& n.member == 0
            &&& n.attempt == 0
            &&& n.backoff_ms == s.retry.initial_backoff_ms
            &&& n.phase == FlushPhase::Exporting
            &&& a == (FlushAction::Export { group: g, member: 0 })
        }),
{
}

/// Every flush starts from the same state, made of the groups' shapes and
/// the retry parameters alone: the first export it asks for is to the first
/// exporter of the first group.
pub proof fn lemma_flush_starts_fresh(shapes: Vec<GroupShape>, retry: RetryConfig)
    requires
        shapes.len() > 0,
        width(shapes[0]) > 0,
    ensures
        start_spec(shapes, retry) == (
            Flush {
                shapes,
                retry,
                group: 0,
                attempt: 0,
                member: 0,
                backoff_ms: retry.initial_backoff_ms,
                phase: FlushPhase::Exporting,
                exhausted: false,
            },
            FlushAction::Export { group: 0, member: 0 },
        ),
{
}

/// Within one attempt of a group whose exporters keep failing, the members
/// from `s.member` on are tried in order, one move each, and the attempt
/// then fails.
proof fn lemma_members_failing(s: Flush, rest: nat)
    requires
        s.wf(),
        s.phase == FlushPhase::Exporting,
    ensures
        ({
            let w = width(s.shapes[s.group as int]);
            let k = (w - s.member) as nat;
            let last = failed(Flush { member: (w - 1) as usize, ..s });
            let a = FlushAction::Export { group: s.group, member: s.member };
            &&& run_with(s, a, false, k + rest) == run_with(last.0, last.1, false, rest)
            &&& exports_with(s, a, false, k + rest) == k + exports_with(last.0, last.1, false, rest)
        }),
    decreases width(s.shapes[s.group as int]) - s.member,
{
    let w = width(s.shapes[s.group as int]);
    let a = FlushAction::Export { group: s.group, member: s.member };
    let (s1, a1) = step_with(s, a, false);
    if s.member + 1 < w {
        lemma_members_failing(s1, rest);
        assert(Flush { member: (w - 1) as usize, ..s1 } == Flush { member: (w - 1) as usize, ..s });
    } else {
        assert(Flush { member: (w - 1) as usize, ..s } == s);
    }
}

/// The state in which a group whose exporters keep failing drops the batch.
pub open spec fn dropping(s: Flush) -> Flush {
    Flush {
        attempt: (s.retry.max_attempts - 1) as usize,
        member: (width(s.shapes[s.group as int]) - 1) as usize,
        backoff_ms: backoff_at(s.retry, (s.retry.max_attempts - 1) as nat) as u64,
        phase: FlushPhase::Dropping,
        exhausted: true,
        ..s
    }
}

proof fn lemma_group_failing_from(s: Flush, k: nat, rest: nat)
    requires
        s.wf(),
        s.phase == FlushPhase::Exporting,
        s.member == 0,
        s.attempt == k,
        width(s.shapes[s.group as int]) > 0,
    ensures
        ({
            let m = s.retry.max_attempts;
            let w = width(s.shapes[s.group as int]);
            let steps = ((m - k) * (w + 1) - 1) as nat;
            let a = FlushAction::Export { group: s.group, member: 0 };
            let d = FlushAction::Dropped { group: s.group };
            &&& run_with(s, a, false, steps + rest) == run_with(dropping(s), d, false, rest)
            &&& exports_with(s, a, false, steps + rest) == (m - k) * w + exports_with(dropping(s), d, false, rest)
        }),
    decreases s.retry.max_attempts - k,
{
    let m = s.retry.max_attempts;
    let w = width(s.shapes[s.group as int]);
    let last = failed(Flush { member: (w - 1) as usize, ..s });
    if k + 1 == m {
        assert((m - k) * (w + 1) - 1 == w) by (nonlinear_arith)
            requires k + 1 == m;
        assert((m - k) * w == w) by (nonlinear_arith)
            requires k + 1 == m;
        lemma_members_failing(s, rest);
        assert(last.0 == dropping(s));
    } else {
        let r = ((m - k - 1) * (w + 1) - 1) as nat;
        assert((m - k - 1) * (w + 1) >= 1) by (nonlinear_arith)
            requires k + 1 < m, w > 0;
        assert((m - k) * (w + 1) - 1 == w + (1 + r)) by (nonlinear_arith)
            requires r == (m - k - 1) * (w + 1) - 1;
        lemma_members_failing(s, 1 + r + rest);
        assert(last.1 == FlushAction::Backoff { group: s.group, ms: s.backoff_ms });
        let (s2, a2) = step_with(last.0, last.1, false);
        assert(a2 == FlushAction::Export { group: s.group, member: 0 });
        assert(run_with(last.0, last.1, false, 1 + r + rest) == run_with(s2, a2, false, r + rest));
        assert(exports_with(last.0, last.1, false, 1 + r + rest) == exports_with(s2, a2, false, r + rest));
        lemma_group_failing_from(s2, k + 1, rest);
        assert(dropping(s2) == dropping(s));
        assert((m - k) * w == w + (m - (k + 1)) * w) by (nonlinear_arith);
    }
}

/// A group whose exporters all keep failing: each attempt tries every member,
/// left to right, attempts are separated by a backoff, and after
/// `max_attempts` attempts (`max_attempts * width` exports) the batch is
/// dropped for this group, and the flush goes on to the next group, or ends
/// with the exhaustion error after the last one.
pub proof fn lemma_failing_group_goes_on(s: Flush)
    requires
        s.wf(),
        s.phase == FlushPhase::Exporting,
        s.member == 0,
        s.attempt == 0,
        width(s.shapes[s.group as int]) > 0,
    ensures
        ({
            let m = s.retry.max_attempts;
            let w = width(s.shapes[s.group as int]);
            let steps = (m * (w + 1)) as nat;
            let a = FlushAction::Export { group: s.group, member: 0 };
            let (n, b) = run_with(s, a, false, steps);
            &&& (n, b) == after_dropped(dropping(s))
            &&& exports_with(s, a, false, steps) == m * w
            &&& n.exhausted
            &&& s.group + 1 == s.shapes.len() ==> b == FlushAction::Done(Err(IngestionError::MaxRetriesExhausted { attempts: m }))
            &&& s.group + 1 < s.shapes.len() && width(s.shapes[s.group + 1]) > 0
                ==> n.group == s.group + 1 && b == (FlushAction::Export { group: (s.group + 1) as usize, member: 0 })
        }),
{
    let m = s.retry.max_attempts;
    let w = width(s.shapes[s.group as int]);
    let a = FlushAction::Export { group: s.group, member: 0 };
    assert(m * (w + 1) >= 1) by (nonlinear_arith)
        requires m > 0;
    let steps = (m * (w + 1)) as nat;
    let before = ((m - 0) * (w + 1) - 1) as nat;
    assert(steps == before + 1);
    lemma_group_failing_from(s, 0, 1);
    let d = FlushAction::Dropped { group: s.group };
    assert(run_with(s, a, false, steps) == run_with(dropping(s), d, false, 1));
    assert(exports_with(s, a, false, steps) == (m - 0) * w + exports_with(dropping(s), d, false, 1));
    assert(run_with(dropping(s), d, false, 1) == run_with(after_dropped(dropping(s)).0, after_dropped(dropping(s)).1, false, 0));
    let after = after_dropped(dropping(s));
    assert(exports_with(after.0, after.1, false, 0) == 0);
    assert(exports_with(dropping(s), d, false, 1) == 0);
    assert(run_with(after.0, after.1, false, 0) == after);
}

/// A mandatory exporter that keeps failing is tried exactly `max_attempts`
/// times, with a backoff between tries, and the batch is then dropped with
/// the exhaustion error.
pub proof fn lemma_flat_failing_exhausts(shapes: Vec<GroupShape>, retry: RetryConfig)
    requires
        shapes@ == seq![GroupShape::Flat],
        retry.max_attempts > 0,
    ensures
        ({
            let (s0, a0) = start_spec(shapes, retry);
            let n = (2 * retry.max_attempts) as nat;
            &&& run_with(s0, a0, false, n).1 == FlushAction::Done(Err(IngestionError::MaxRetriesExhausted { attempts: retry.max_attempts }))
            &&& exports_with(s0, a0, false, n) == retry.max_attempts
        }),
{
    let (s0, a0) = start_spec(shapes, retry);
    assert(shapes[0] == GroupShape::Flat);
    assert(a0 == FlushAction::Export { group: 0, member: 0 });
    lemma_failing_group_goes_on(s0);
    assert(retry.max_attempts * (1 + 1) == 2 * retry.max_attempts) by (nonlinear_arith);
    assert(retry.max_attempts * 1 == retry.max_attempts);
}

/// A one-of group whose exporters all keep failing: each attempt tries every
/// member, left to right, attempts are separated by a backoff, and after
/// `max_attempts` attempts the batch is dropped with the exhaustion error,
/// after `max_attempts * n` exports in all.
pub proof fn lemma_one_of_failing_exhausts(shapes: Vec<GroupShape>, retry: RetryConfig, n: usize)
    requires
        shapes@ == seq![GroupShape::OneOf(n)],
        n > 0,
        retry.max_attempts > 0,
    ensures
        ({
            let (s0, a0) = start_spec(shapes, retry);
            let steps = (retry.max_attempts * (n + 1)) as nat;
            &&& run_with(s0, a0, false, steps).1 == FlushAction::Done(Err(IngestionError::MaxRetriesExhausted { attempts: retry.max_attempts }))
            &&& exports_with(s0, a0, false, steps) == retry.max_attempts * n
        }),
{
    let (s0, a0) = start_spec(shapes, retry);
    assert(shapes[0] == GroupShape::OneOf(n));
    assert(a0 == FlushAction::Export { group: 0, member: 0 });
    lemma_failing_group_goes_on(s0);
}

/// A group that runs out of retries does not keep the batch from the groups
/// after it: in a flush of two or more groups whose first group (of at least
/// one exporter) keeps failing, once that group has dropped the batch the
/// next export asked for is to the first exporter of the second group
/// (when it has one), and the flush will end with the exhaustion error.
pub proof fn lemma_failed_group_does_not_stop_flush(shapes: Vec<GroupShape>, retry: RetryConfig)
    requires
        shapes.len() >= 2,
        width(shapes[0]) > 0,
        width(shapes[1]) > 0,
        retry.max_attempts > 0,
    ensures
        ({
            let (s0, a0) = start_spec(shapes, retry);
            let steps = (retry.max_attempts * (width(shapes[0]) + 1)) as nat;
            let (n, b) = run_with(s0, a0, false, steps);
            &&& b == (FlushAction::Export { group: 1, member: 0 })
            &&& n.exhausted
            &&& n.wf()
        }),
{
    let (s0, a0) = start_spec(shapes, retry);
    assert(a0 == FlushAction::Export { group: 0, member: 0 });
    lemma_failing_group_goes_on(s0);
}

// ---------------------------------------------------------------------------
// The executor
// ---------------------------------------------------------------------------

/// The retry shape of an exporter group.
pub open spec fn shape_of<E>(g: ExporterGroup<E>) -> GroupShape {
    match g {
        ExporterGroup::Flat(_) => GroupShape::Flat,
        ExporterGroup::OneOf(v) => GroupShape::OneOf(v.len()),
    }
}

/// Exporter `m` of a group (the exporter itself for a flat group).
pub open spec fn member_of<E>(g: ExporterGroup<E>, m: int) -> E {
    match g {
        ExporterGroup::Flat(e) => e,
        ExporterGroup::OneOf(v) => v[m],
    }
}

/// Fans each batch out to every exporter group, in order: a flat group is
/// retried with exponential backoff; a one-of group tries its exporters left
/// to right, first success wins, and is retried from its head when all fail.
/// A group that exhausts its retries drops the batch for itself alone: the
/// later groups still receive it, and the flush ends with the exhaustion
/// error. Each batch starts afresh: no failover state is kept between batches.
pub struct Executor<E> {
    pub groups: Vec<ExporterGroup<E>>,
    pub retry: RetryConfig,
}

impl<E> Executor<E> {
    pub fn new(groups: Vec<ExporterGroup<E>>, retry: RetryConfig) -> (r: Self)
        ensures
            r.groups@ == groups@,
            r.retry == retry,
    {
        Executor { groups, retry }
    }

    /// The retry shapes of the groups, in order.
    pub fn shapes(&self) -> (r: Vec<GroupShape>)
        ensures
            r.len() == self.groups.len(),
            forall|i: int| 0 <= i < r.len() ==> r[i] == shape_of(#[trigger] self.groups[i]),
    {
        let mut out: Vec<GroupShape> = Vec::new();
        let mut i: usize = 0;
        while i < self.groups.len()
            invariant
                0 <= i <= self.groups.len(),
                out.len() == i,
                forall|j: int| 0 <= j < i ==> out[j] == shape_of(#[trigger] self.groups[j]),
            decreases self.groups.len() - i,
        {
            let s = match &self.groups[i] {
                ExporterGroup::Flat(_) => GroupShape::Flat,
                ExporterGroup::OneOf(v) => GroupShape::OneOf(v.len()),
            };
            out.push(s);
            i = i + 1;
        }
        out
    }

    /// Begins the flush of one batch. The starting state depends on the
    /// groups' shapes and the retry parameters alone.
    pub fn begin_flush(&self) -> (r: (Flush, FlushAction))
        requires
            self.groups.len() > 0 ==> self.retry.max_attempts > 0,
        ensures
            r == start_spec(r.0.shapes, self.retry),
            r.0.shapes.len() == self.groups.len(),
            forall|i: int| 0 <= i < self.groups.len() ==> r.0.shapes[i] == shape_of(#[trigger] self.groups[i]),
            r.0.wf(),
    {
        let shapes = self.shapes();
        Flush::start(shapes, self.retry)
    }

    /// Exporter `member` of group `group`: the one an `Export` action names.
    pub fn exporter_mut(&mut self, group: usize, member: usize) -> (e: &mut E)
        requires
            group < old(self).groups.len(),
            member < width(shape_of(old(self).groups[group as int])),
        ensures
            *e == member_of(old(self).groups[group as int], member as int),
            final(self).retry == old(self).retry,
            final(self).groups.len() == old(self).groups.len(),
            forall|i: int| 0 <= i < old(self).groups.len() && i != group ==> final(self).groups[i] == old(self).groups[i],
            shape_of(final(self).groups[group as int]) == shape_of(old(self).groups[group as int]),
            member_of(final(self).groups[group as int], member as int) == *final(e),
            forall|j: int| 0 <= j < width(shape_of(old(self).groups[group as int])) && j != member
                ==> member_of(final(self).groups[group as int], j) == member_of(old(self).groups[group as int], j),
    {
        match &mut self.groups[group] {
            ExporterGroup::Flat(e) => e,
            ExporterGroup::OneOf(v) => &mut v[member],
        }
    }
}

/// No failover state is kept between flushes: two flushes begun on
/// executors whose groups have the same shapes and whose retry parameters are
/// the same (as an executor's are before and after a flush, which reaches
/// its exporters only through `exporter_mut`) begin with the same action, and
/// the protocol then answers the same results the same way.
pub proof fn lemma_flushes_begin_alike<E>(x1: Executor<E>, x2: Executor<E>, r1: (Flush, FlushAction), r2: (Flush, FlushAction))
    requires
        x1.retry == x2.retry,
        x1.groups.len() == x2.groups.len(),
        forall|i: int| 0 <= i < x1.groups.len() ==> #[trigger] shape_of(x1.groups[i]) == shape_of(x2.groups[i]),
        r1 == start_spec(r1.0.shapes, x1.retry),
        r1.0.shapes.len() == x1.groups.len(),
        forall|i: int| 0 <= i < x1.groups.len() ==> r1.0.shapes[i] == shape_of(#[trigger] x1.groups[i]),
        r2 == start_spec(r2.0.shapes, x2.retry),
        r2.0.shapes.len() == x2.groups.len(),
        forall|i: int| 0 <= i < x2.groups.len() ==> r2.0.shapes[i] == shape_of(#[trigger] x2.groups[i]),
    ensures
        r1.1 == r2.1,
        r1.0.shapes@ == r2.0.shapes@,
        r1.0.group == r2.0.group,
        r1.0.attempt == r2.0.attempt,
        r1.0.member == r2.0.member,
        r1.0.backoff_ms == r2.0.backoff_ms,
        r1.0.phase == r2.0.phase,
        r1.0.exhausted == r2.0.exhausted,
{
    assert(r1.0.shapes@ =~= r2.0.shapes@) by {
        assert forall|i: int| 0 <= i < x1.groups.len() implies r1.0.shapes[i] == r2.0.shapes[i] by {
            assert(shape_of(x1.groups[i]) == shape_of(x2.groups[i]));
        }
    }
}

} // verus!
