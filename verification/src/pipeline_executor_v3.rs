//! The unified pipeline executor: runs the configured phases in order,
//! over one or more iterations, through a phase executor that the caller
//! registers, and reports every step to an optional event callback.
use vstd::prelude::*;
use std::sync::Arc;
use std::time::{Duration, Instant};
use crate::clock::{duration_from_secs, duration_saturating_add, elapsed_since, instant_now};
use crate::phase_orchestrator_v2::{PhaseId, PhaseOutcome, PhaseStatus};
use crate::text::{push_str, string_of};

verus! {

/// Runs one phase of a scan. Closures `Fn(PhaseId) -> Result<PhaseOutcome, String>`
/// are phase executors.
pub trait PhaseExecutor {
    /// `r` is a result that running `phase` may give.
    spec fn ran(&self, phase: PhaseId, r: Result<PhaseOutcome, String>) -> bool;

    fn run_phase(&self, phase: PhaseId) -> (r: Result<PhaseOutcome, String>)
        ensures
            self.ran(phase, r),
    ;
}

/// Receives the events of a pipeline run. Closures `Fn(PipelineEvent)` are sinks.
pub trait PipelineEventSink {
    /// This sink was handed `event`.
    spec fn received(&self, event: PipelineEvent) -> bool;

    fn on_event(&self, event: PipelineEvent)
        ensures
            self.received(event),
    ;
}

/// Calls a closure registered as a phase executor on `phase`: the result is
/// what the closure returns, so where the closure's own precondition holds
/// for `phase`, its postcondition holds of the result. Nothing more is
/// stated of it.
#[verifier::external_body]
fn call_phase_closure<F: Fn(PhaseId) -> Result<PhaseOutcome, String>>(f: &F, phase: PhaseId) -> (r: Result<
    PhaseOutcome,
    String,
>)
    ensures
        call_requires(*f, (phase,)) ==> call_ensures(*f, (phase,), r),
{
    f(phase)
}

/// Calls a closure registered as an event callback with `event`: where the
/// closure's own precondition holds for `event`, its postcondition holds of
/// the call.
#[verifier::external_body]
fn call_event_closure<F: Fn(PipelineEvent)>(f: &F, event: PipelineEvent) -> (r: ())
    ensures
        call_requires(*f, (event,)) ==> call_ensures(*f, (event,), r),
{
    f(event)
}

impl<F: Fn(PhaseId) -> Result<PhaseOutcome, String>> PhaseExecutor for F {
    /// The closure's postcondition holds of `r` wherever its precondition
    /// holds of `phase`.
    open spec fn ran(&self, phase: PhaseId, r: Result<PhaseOutcome, String>) -> bool {
        call_requires(*self, (phase,)) ==> call_ensures(*self, (phase,), r)
    }

    fn run_phase(&self, phase: PhaseId) -> (r: Result<PhaseOutcome, String>) {
        call_phase_closure(self, phase)
    }
}

/// What a closure may give as a phase executor: any result that its
/// postcondition allows wherever its precondition holds.
pub proof fn lemma_closure_ran<F: Fn(PhaseId) -> Result<PhaseOutcome, String>>(f: F)
    ensures
        forall|phase: PhaseId, r: Result<PhaseOutcome, String>| #[trigger] f.ran(phase, r) == (call_requires(
            f,
            (phase,),
        ) ==> call_ensures(f, (phase,), r)),
{
}

/// What a closure sink was handed: an event of whose call its
/// postcondition holds wherever its precondition does.
pub proof fn lemma_closure_received<F: Fn(PipelineEvent)>(f: F)
    ensures
        forall|event: PipelineEvent| #[trigger] f.received(event) == (call_requires(f, (event,)) ==> call_ensures(
            f,
            (event,),
            (),
        )),
{
}

impl<F: Fn(PipelineEvent)> PipelineEventSink for F {
    /// The closure was called with `event`: its postcondition holds of the
    /// call wherever its precondition holds.
    open spec fn received(&self, event: PipelineEvent) -> bool {
        call_requires(*self, (event,)) ==> call_ensures(*self, (event,), ())
    }

    fn on_event(&self, event: PipelineEvent) {
        call_event_closure(self, event)
    }
}

/// A phase executor behind a pointer: the default executor of a pipeline.
pub type PhaseExecutorFn = Box<dyn PhaseExecutor>;

impl PhaseExecutor for Box<dyn PhaseExecutor> {
    /// What the executor inside may give.
    open spec fn ran(&self, phase: PhaseId, r: Result<PhaseOutcome, String>) -> bool {
        (**self).ran(phase, r)
    }

    fn run_phase(&self, phase: PhaseId) -> (r: Result<PhaseOutcome, String>) {
        (**self).run_phase(phase)
    }
}

/// Which phases the pipeline runs and how.
#[derive(Clone)]
pub struct PipelineV3Config {
    pub target_url: String,
    pub enabled_phases: Vec<PhaseId>,
    pub max_iterations: u32,
    pub concurrency_limit: usize,
    pub timeout_per_phase: Duration,
    pub fail_fast: bool,
    pub event_callback: Option<Arc<dyn PipelineEventSink>>,
}

/// The phases enabled by default, in run order.
pub open spec fn default_phases() -> Seq<PhaseId> {
    seq![
        PhaseId::Recon,
        PhaseId::Crawl,
        PhaseId::Enumerate,
        PhaseId::Fingerprint,
        PhaseId::Fuzz,
        PhaseId::Exploit,
        PhaseId::ChainSynthesis,
        PhaseId::Report,
    ]
}

impl Default for PipelineV3Config {
    /// No target, every phase enabled, one iteration, four concurrent
    /// phases, five minutes per phase, no fail-fast, no callback.
    fn default() -> (c: Self)
        ensures
            c.target_url@ == Seq::<char>::empty(),
            c.enabled_phases@ == default_phases(),
            c.max_iterations == 1,
            c.concurrency_limit == 4,
            !c.fail_fast,
            c.event_callback is None,
    {
        PipelineV3Config {
            target_url: String::new(),
            enabled_phases: vec![
                PhaseId::Recon,
                PhaseId::Crawl,
                PhaseId::Enumerate,
                PhaseId::Fingerprint,
                PhaseId::Fuzz,
                PhaseId::Exploit,
                PhaseId::ChainSynthesis,
                PhaseId::Report,
            ],
            max_iterations: 1,
            concurrency_limit: 4,
            timeout_per_phase: duration_from_secs(300),
            fail_fast: false,
            event_callback: None,
        }
    }
}

/// Events emitted during a run, for monitoring.
#[derive(Debug, Clone)]
pub enum PipelineEvent {
    PipelineStarted { target: String, phase_count: usize },
    PhaseStarting(PhaseId),
    PhaseCompleted(PhaseOutcome),
    PhaseFailed { phase: PhaseId, error: String },
    FindingDiscovered { phase: PhaseId, vuln_class: String, endpoint: String },
    IterationCompleted { iteration: u32, total_findings: u64 },
    PipelineCompleted(PipelineSummary),
}

/// The record of one phase run.
#[derive(Debug, Clone)]
pub struct PhaseExecutionResult {
    pub phase: PhaseId,
    pub outcome: PhaseOutcome,
    pub error: Option<String>,
}

/// The time spent in each phase that ran, one entry per phase.
#[derive(Debug, Clone)]
pub struct PhaseTimings {
    pub entries: Vec<(PhaseId, Duration)>,
}

impl PhaseTimings {
    /// The phases that have an entry, in first-run order.
    pub open spec fn keys(self) -> Seq<PhaseId> {
        self.entries@.map_values(|e: (PhaseId, Duration)| e.0)
    }

    /// No phase has two entries.
    pub open spec fn well_formed(self) -> bool {
        forall|i: int, j: int| 0 <= i < j < self.keys().len() ==> self.keys()[i] != self.keys()[j]
    }

    pub fn new() -> (t: Self)
        ensures
            t.keys() == Seq::<PhaseId>::empty(),
            t.well_formed(),
    {
        let t = PhaseTimings { entries: Vec::new() };
        assert(t.keys() =~= Seq::<PhaseId>::empty());
        t
    }

    /// A copy with the same entries.
    pub fn duplicate(&self) -> (t: Self)
        ensures
            t.entries@ == self.entries@,
    {
        let mut entries: Vec<(PhaseId, Duration)> = Vec::new();
        let mut i: usize = 0;
        while i < self.entries.len()
            invariant
                i <= self.entries@.len(),
                entries@ == self.entries@.take(i as int),
            decreases self.entries.len() - i,
        {
            entries.push(self.entries[i]);
            assert(self.entries@.take(i + 1) =~= self.entries@.take(i as int).push(self.entries@[i as int]));
            i += 1;
        }
        assert(self.entries@.take(i as int) =~= self.entries@);
        PhaseTimings { entries }
    }

    /// Whether `phase` has an entry.
    pub fn contains_key(&self, phase: &PhaseId) -> (r: bool)
        ensures
            r == self.keys().contains(*phase),
    {
        let mut i: usize = 0;
        while i < self.entries.len()
            invariant
                i <= self.entries@.len(),
                forall|j: int| 0 <= j < i ==> self.keys()[j] != *phase,
            decreases self.entries.len() - i,
        {
            if self.entries[i].0 == *phase {
                assert(self.keys()[i as int] == *phase);
                return true;
            }
            i += 1;
        }
        false
    }

    /// The time recorded for `phase`, if it has an entry.
    pub fn get(&self, phase: &PhaseId) -> (r: Option<Duration>)
        ensures
            r is Some <==> self.keys().contains(*phase),
    {
        let mut i: usize = 0;
        while i < self.entries.len()
            invariant
                i <= self.entries@.len(),
                forall|j: int| 0 <= j < i ==> self.keys()[j] != *phase,
            decreases self.entries.len() - i,
        {
            if self.entries[i].0 == *phase {
                assert(self.keys()[i as int] == *phase);
                return Some(self.entries[i].1);
            }
            i += 1;
        }
        None
    }

    /// Adds `d` to the time of `phase`, making an entry for it if it has none.
    pub fn add(&mut self, phase: PhaseId, d: Duration)
        requires
            old(self).well_formed(),
        ensures
            final(self).well_formed(),
            final(self).keys() == if old(self).keys().contains(phase) {
                old(self).keys()
            } else {
                old(self).keys().push(phase)
            },
    {
        let mut i: usize = 0;
        while i < self.entries.len()
            invariant
                i <= self.entries@.len(),
                self.entries@ == old(self).entries@,
                old(self).well_formed(),
                forall|j: int| 0 <= j < i ==> self.keys()[j] != phase,
            decreases self.entries.len() - i,
        {
            if self.entries[i].0 == phase {
                let total = duration_saturating_add(self.entries[i].1, d);
                self.entries.set(i, (phase, total));
                assert(self.keys() =~= old(self).keys());
                assert(old(self).keys()[i as int] == phase);
                return;
            }
            i += 1;
        }
        assert(self.keys() =~= old(self).keys());
        assert(!old(self).keys().contains(phase));
        self.entries.push((phase, d));
        assert(self.keys() =~= old(self).keys().push(phase));
    }
}

/// Summary of a whole run.
#[derive(Debug, Clone)]
pub struct PipelineSummary {
    pub target_url: String,
    pub total_duration: Duration,
    pub phases_executed: u32,
    pub phases_failed: u32,
    pub phases_skipped: u32,
    pub total_findings: u64,
    pub total_operations: u64,
    pub iterations_completed: u32,
    pub phase_timings: PhaseTimings,
}

impl PipelineSummary {
    /// A copy that reports the same run.
    pub fn duplicate(&self) -> (s: Self)
        ensures
            same_summary(s, *self),
    {
        PipelineSummary {
            target_url: self.target_url.clone(),
            total_duration: self.total_duration,
            phases_executed: self.phases_executed,
            phases_failed: self.phases_failed,
            phases_skipped: self.phases_skipped,
            total_findings: self.total_findings,
            total_operations: self.total_operations,
            iterations_completed: self.iterations_completed,
            phase_timings: self.phase_timings.duplicate(),
        }
    }
}

/// Errors of a run.
#[derive(Debug, Clone)]
pub enum PipelineExecutorError {
    InvalidConfig(String),
    NoExecutor,
    PhaseFailed { phase: PhaseId, error: String },
}

impl PipelineExecutorError {
    /// The error's description.
    pub open spec fn message(self) -> Seq<char> {
        match self {
            PipelineExecutorError::InvalidConfig(msg) => "invalid pipeline config: "@ + msg@,
            PipelineExecutorError::NoExecutor => "no phase executor registered"@,
            PipelineExecutorError::PhaseFailed { phase, error } => "phase "@ + phase.label() + " failed: "@ + error@,
        }
    }

    /// Renders the error's description.
    pub fn to_string(&self) -> (s: String)
        ensures
            s@ == self.message(),
    {
        let mut out: Vec<char> = Vec::new();
        match self {
            PipelineExecutorError::InvalidConfig(msg) => {
                push_str(&mut out, "invalid pipeline config: ");
                push_str(&mut out, msg.as_str());
            },
            PipelineExecutorError::NoExecutor => {
                push_str(&mut out, "no phase executor registered");
            },
            PipelineExecutorError::PhaseFailed { phase, error } => {
                push_str(&mut out, "phase ");
                let name = phase.to_string();
                push_str(&mut out, name.as_str());
                push_str(&mut out, " failed: ");
                push_str(&mut out, error.as_str());
            },
        }
        assert(out@ =~= self.message());
        string_of(out.as_slice())
    }
}

/// Every event of `events` was handed to the configured event callback, if
/// there is one.
pub open spec fn delivered(config: PipelineV3Config, events: Seq<PipelineEvent>) -> bool {
    config.event_callback matches Some(cb) ==> forall|i: int| 0 <= i < events.len() ==> #[trigger] cb.received(events[i])
}

/// Fuzz, Exploit and ChainSynthesis: the phases that iterations after the
/// first run again, until the scan converges.
pub open spec fn is_convergence_phase(p: PhaseId) -> bool {
    p == PhaseId::Fuzz || p == PhaseId::Exploit || p == PhaseId::ChainSynthesis
}

/// The phases that iteration `iteration` runs: every enabled phase in the
/// first, the enabled convergence phases after it, in configured order.
pub open spec fn iteration_phases(enabled: Seq<PhaseId>, iteration: int) -> Seq<PhaseId> {
    if iteration == 0 {
        enabled
    } else {
        enabled.filter(|p: PhaseId| is_convergence_phase(p))
    }
}

/// The phases that `n` iterations run, in order.
pub open spec fn schedule(enabled: Seq<PhaseId>, n: nat) -> Seq<PhaseId>
    decreases n,
{
    if n == 0 {
        Seq::empty()
    } else {
        schedule(enabled, (n - 1) as nat) + iteration_phases(enabled, n - 1)
    }
}

/// The phases of a sequence of results.
pub open spec fn phases_of(rs: Seq<PhaseExecutionResult>) -> Seq<PhaseId> {
    rs.map_values(|r: PhaseExecutionResult| r.phase)
}

/// How many results succeeded.
pub open spec fn count_succeeded(rs: Seq<PhaseExecutionResult>) -> nat
    decreases rs.len(),
{
    if rs.len() == 0 {
        0
    } else {
        count_succeeded(rs.drop_last()) + if rs.last().error is None { 1nat } else { 0nat }
    }
}

/// How many results failed.
pub open spec fn count_failed(rs: Seq<PhaseExecutionResult>) -> nat
    decreases rs.len(),
{
    if rs.len() == 0 {
        0
    } else {
        count_failed(rs.drop_last()) + if rs.last().error is Some { 1nat } else { 0nat }
    }
}

/// The findings of all results.
pub open spec fn findings_of(rs: Seq<PhaseExecutionResult>) -> nat
    decreases rs.len(),
{
    if rs.len() == 0 {
        0
    } else {
        findings_of(rs.drop_last()) + rs.last().outcome.findings_count as nat
    }
}

/// The operations of all results.
pub open spec fn operations_of(rs: Seq<PhaseExecutionResult>) -> nat
    decreases rs.len(),
{
    if rs.len() == 0 {
        0
    } else {
        operations_of(rs.drop_last()) + rs.last().outcome.operations_applied as nat
    }
}

/// `n` capped at the largest `u32`.
pub open spec fn cap_u32(n: nat) -> u32 {
    if n > u32::MAX { u32::MAX } else { n as u32 }
}

/// `n` capped at the largest `u64`.
pub open spec fn cap_u64(n: nat) -> u64 {
    if n > u64::MAX { u64::MAX } else { n as u64 }
}

/// A failed phase is recorded with a `Failed` outcome and no work counted.
pub open spec fn failure_recorded(r: PhaseExecutionResult) -> bool {
    r.error is Some ==> {
        &&& r.outcome.phase == r.phase
        &&& r.outcome.status == PhaseStatus::Failed
        &&& r.outcome.operations_applied == 0
        &&& r.outcome.findings_count == 0
        &&& r.outcome.endpoints_discovered == 0
    }
}

/// What the executor handed back for a recorded result: the outcome of a
/// success, the error of a failure.
pub open spec fn returned(r: PhaseExecutionResult) -> Result<PhaseOutcome, String> {
    match r.error {
        Some(e) => Err(e),
        None => Ok(r.outcome),
    }
}

/// The two events that report one phase run: the phase starting, then it
/// completing with its outcome or failing with its error.
pub open spec fn result_events(r: PhaseExecutionResult) -> Seq<PipelineEvent> {
    seq![
        PipelineEvent::PhaseStarting(r.phase),
        match r.error {
            Some(e) => PipelineEvent::PhaseFailed { phase: r.phase, error: e },
            None => PipelineEvent::PhaseCompleted(r.outcome),
        },
    ]
}

/// The events that report the phase runs `rs`, in order.
pub open spec fn results_events(rs: Seq<PhaseExecutionResult>) -> Seq<PipelineEvent>
    decreases rs.len(),
{
    if rs.len() == 0 {
        Seq::empty()
    } else {
        results_events(rs.drop_last()) + result_events(rs.last())
    }
}

/// The events of the first `n` iterations of a run that recorded `rs`:
/// each iteration's phase events, then its `IterationCompleted`, numbered
/// from 1, with the findings counted so far.
pub open spec fn iterations_events(enabled: Seq<PhaseId>, rs: Seq<PhaseExecutionResult>, n: nat) -> Seq<PipelineEvent>
    decreases n,
{
    if n == 0 {
        Seq::empty()
    } else {
        let a = schedule(enabled, (n - 1) as nat).len() as int;
        let b = schedule(enabled, n).len() as int;
        iterations_events(enabled, rs, (n - 1) as nat) + results_events(rs.subrange(a, b)) + seq![
            PipelineEvent::IterationCompleted { iteration: n as u32, total_findings: cap_u64(findings_of(rs.take(b))) },
        ]
    }
}

/// The event that opens a run.
pub open spec fn started_event(config: PipelineV3Config) -> PipelineEvent {
    PipelineEvent::PipelineStarted { target: config.target_url, phase_count: config.enabled_phases@.len() as usize }
}

/// Two summaries report the same run.
pub open spec fn same_summary(a: PipelineSummary, b: PipelineSummary) -> bool {
    &&& a.target_url@ == b.target_url@
    &&& a.total_duration == b.total_duration
    &&& a.phases_executed == b.phases_executed
    &&& a.phases_failed == b.phases_failed
    &&& a.phases_skipped == b.phases_skipped
    &&& a.total_findings == b.total_findings
    &&& a.total_operations == b.total_operations
    &&& a.iterations_completed == b.iterations_completed
    &&& a.phase_timings.entries@ == b.phase_timings.entries@
}

/// The running totals of a pipeline run.
#[derive(Debug, Clone)]
pub struct PipelineRun {
    pub results: Vec<PhaseExecutionResult>,
    pub total_findings: u64,
    pub total_operations: u64,
    pub phases_executed: u32,
    pub phases_failed: u32,
    pub phase_timings: PhaseTimings,
}

impl PipelineRun {
    /// The totals agree with the recorded results.
    pub open spec fn consistent(self) -> bool {
        &&& self.total_findings == cap_u64(findings_of(self.results@))
        &&& self.total_operations == cap_u64(operations_of(self.results@))
        &&& self.phases_executed == cap_u32(count_succeeded(self.results@))
        &&& self.phases_failed == cap_u32(count_failed(self.results@))
        &&& self.phase_timings.well_formed()
        &&& forall|p: PhaseId| self.phase_timings.keys().contains(p) <==> phases_of(self.results@).contains(p)
        &&& forall|i: int| 0 <= i < self.results@.len() ==> failure_recorded(#[trigger] self.results@[i])
    }

    pub fn new() -> (r: Self)
        ensures
            r.results@ == Seq::<PhaseExecutionResult>::empty(),
            r.consistent(),
    {
        let r = PipelineRun {
            results: Vec::new(),
            total_findings: 0,
            total_operations: 0,
            phases_executed: 0,
            phases_failed: 0,
            phase_timings: PhaseTimings::new(),
        };
        assert(phases_of(r.results@) =~= Seq::<PhaseId>::empty());
        r
    }

    /// Records what running `phase` gave and how long it took. A success is
    /// recorded with its outcome; a failure with a `Failed` outcome that
    /// counts no work, and its error is handed back.
    pub fn record(&mut self, phase: PhaseId, result: Result<PhaseOutcome, String>, duration: Duration) -> (failure:
        Option<String>)
        requires
            old(self).consistent(),
        ensures
            final(self).consistent(),
            final(self).results@.drop_last() == old(self).results@,
            final(self).results@.len() == old(self).results@.len() + 1,
            final(self).results@.last().phase == phase,
            match result {
                Ok(outcome) => failure is None && final(self).results@.last().error is None
                    && final(self).results@.last().outcome == outcome,
                Err(e) => failure == Some(e) && final(self).results@.last().error == Some(e)
                    && final(self).results@.last().outcome.duration == duration,
            },
    {
        self.phase_timings.add(phase, duration);
        let ghost old_results = self.results@;
        let failure = match result {
            Ok(outcome) => {
                self.total_findings = self.total_findings.saturating_add(outcome.findings_count);
                self.total_operations = self.total_operations.saturating_add(outcome.operations_applied);
                self.phases_executed = self.phases_executed.saturating_add(1);
                self.results.push(PhaseExecutionResult { phase, outcome, error: None });
                None
            },
            Err(err) => {
                self.phases_failed = self.phases_failed.saturating_add(1);
                let failed = PhaseOutcome {
                    phase,
                    status: PhaseStatus::Failed,
                    duration,
                    operations_applied: 0,
                    findings_count: 0,
                    endpoints_discovered: 0,
                };
                let e2 = err.clone();
                self.results.push(PhaseExecutionResult { phase, outcome: failed, error: Some(e2) });
                Some(err)
            },
        };
        proof {
            assert(self.results@.drop_last() =~= old_results);
            assert(phases_of(self.results@) =~= phases_of(old_results).push(phase));
            assert forall|p: PhaseId| self.phase_timings.keys().contains(p) <==> phases_of(self.results@).contains(p) by {
                lemma_contains_push(phases_of(old_results), phase, p);
                lemma_contains_push(old(self).phase_timings.keys(), phase, p);
            }
        }
        failure
    }
}

/// Drives the full scan lifecycle.
pub struct PipelineExecutorV3<E = PhaseExecutorFn> {
    config: PipelineV3Config,
    phase_results: Vec<PhaseExecutionResult>,
    executor: Option<E>,
    events: Ghost<Seq<PipelineEvent>>,
    calls: Ghost<Seq<PhaseId>>,
}

impl PipelineExecutorV3<PhaseExecutorFn> {
    /// An executor for `config`, with no phase executor registered yet.
    pub fn new(config: PipelineV3Config) -> (e: Self)
        ensures
            e.spec_config() == config,
            e.spec_results() == Seq::<PhaseExecutionResult>::empty(),
            !e.has_executor(),
            e.spec_events() == Seq::<PipelineEvent>::empty(),
            e.spec_calls() == Seq::<PhaseId>::empty(),
    {
        PipelineExecutorV3 {
            config,
            phase_results: Vec::new(),
            executor: None,
            events: Ghost(Seq::empty()),
            calls: Ghost(Seq::empty()),
        }
    }
}

impl<E: PhaseExecutor> PipelineExecutorV3<E> {
    /// The configuration the executor runs with.
    pub closed spec fn spec_config(self) -> PipelineV3Config {
        self.config
    }

    /// The phase results of the last run.
    pub closed spec fn spec_results(self) -> Seq<PhaseExecutionResult> {
        self.phase_results@
    }

    /// Whether a phase executor is registered.
    pub closed spec fn has_executor(self) -> bool {
        self.executor is Some
    }

    /// The registered executor may give `r` for `phase`.
    pub closed spec fn executor_ran(self, phase: PhaseId, r: Result<PhaseOutcome, String>) -> bool {
        match self.executor {
            Some(f) => f.ran(phase, r),
            None => false,
        }
    }

    /// The phases the executor was called with during the last run, in order.
    pub closed spec fn spec_calls(self) -> Seq<PhaseId> {
        self.calls@
    }

    /// The events the last run reported, in order; `execute` states, through
    /// `delivered`, that each was handed to the configured event callback.
    pub closed spec fn spec_events(self) -> Seq<PipelineEvent> {
        self.events@
    }

    /// An executor for `config` that runs each phase through `executor`.
    pub fn with_executor(config: PipelineV3Config, executor: E) -> (e: Self)
        ensures
            e.spec_config() == config,
            e.spec_results() == Seq::<PhaseExecutionResult>::empty(),
            e.has_executor(),
            forall|p: PhaseId, r: Result<PhaseOutcome, String>| #[trigger] e.executor_ran(p, r) == executor.ran(p, r),
            e.spec_events() == Seq::<PipelineEvent>::empty(),
            e.spec_calls() == Seq::<PhaseId>::empty(),
    {
        PipelineExecutorV3 {
            config,
            phase_results: Vec::new(),
            executor: Some(executor),
            events: Ghost(Seq::empty()),
            calls: Ghost(Seq::empty()),
        }
    }

    /// Registers the function that runs each phase.
    pub fn set_executor(&mut self, executor: E)
        ensures
            final(self).has_executor(),
            forall|p: PhaseId, r: Result<PhaseOutcome, String>| #[trigger] final(self).executor_ran(p, r) == executor.ran(p, r),
            final(self).spec_config() == old(self).spec_config(),
            final(self).spec_results() == old(self).spec_results(),
            final(self).spec_events() == old(self).spec_events(),
            final(self).spec_calls() == old(self).spec_calls(),
    {
        self.executor = Some(executor);
    }

    /// The phase results of the last run.
    pub fn results(&self) -> (r: &[PhaseExecutionResult])
        ensures
            r@ == self.spec_results(),
    {
        self.phase_results.as_slice()
    }

    /// The phases that iteration `iteration` runs.
    fn resolve_iteration_phases(&self, iteration: u32) -> (r: Vec<PhaseId>)
        ensures
            r@ == iteration_phases(self.config.enabled_phases@, iteration as int),
    {
        if iteration == 0 {
            return self.config.enabled_phases.clone();
        }
        let mut r: Vec<PhaseId> = Vec::new();
        let ghost enabled = self.config.enabled_phases@;
        let mut i: usize = 0;
        while i < self.config.enabled_phases.len()
            invariant
                enabled == self.config.enabled_phases@,
                i <= enabled.len(),
                r@ == enabled.take(i as int).filter(|p: PhaseId| is_convergence_phase(p)),
            decreases self.config.enabled_phases.len() - i,
        {
            let p = self.config.enabled_phases[i];
            proof {
                reveal(Seq::filter);
                assert(enabled.take(i + 1).drop_last() =~= enabled.take(i as int));
            }
            if p == PhaseId::Fuzz || p == PhaseId::Exploit || p == PhaseId::ChainSynthesis {
                r.push(p);
            }
            i += 1;
        }
        assert(enabled.take(i as int) =~= enabled);
        r
    }

    /// Reports `event`: it joins the run's events and goes to the event
    /// callback, if one is configured.
    fn emit_event(&mut self, event: PipelineEvent)
        ensures
            final(self).events@ == old(self).events@.push(event),
            final(self).config == old(self).config,
            final(self).executor == old(self).executor,
            final(self).phase_results == old(self).phase_results,
            final(self).calls == old(self).calls,
            delivered(old(self).config, old(self).events@) ==> delivered(final(self).config, final(self).events@),
    {
        let ghost before = self.events@;
        proof {
            self.events@ = self.events@.push(event);
        }
        match &self.config.event_callback {
            Some(cb) => {
                cb.on_event(event);
                proof {
                    assert forall|i: int| 0 <= i < self.events@.len() && delivered(self.config, before) implies #[trigger] cb.received(self.events@[i]) by {
                        if i < before.len() {
                            assert(self.events@[i] == before[i]);
                        }
                    }
                }
            },
            None => {},
        }
    }

    /// Runs the pipeline: every phase of every iteration, in order, through
    /// the registered executor. A failed phase is recorded and the run goes
    /// on, unless `fail_fast` is set: then the run stops at the first
    /// failure with `PhaseFailed`. An empty target is `InvalidConfig`, a
    /// missing executor `NoExecutor`. The executor is called once for each
    /// recorded result, with its phase, and the result is what it gave. The run reports `PipelineStarted`, then
    /// for each phase `PhaseStarting` and `PhaseCompleted` or `PhaseFailed`,
    /// after each iteration `IterationCompleted`, and last
    /// `PipelineCompleted` with the summary.
    pub fn execute(&mut self) -> (r: Result<PipelineSummary, PipelineExecutorError>)
        ensures
            final(self).spec_config() == old(self).spec_config(),
            final(self).has_executor() == old(self).has_executor(),
            final(self).spec_calls() == phases_of(final(self).spec_results()),
            delivered(final(self).spec_config(), final(self).spec_events()),
            old(self).spec_config().target_url@.len() == 0 ==> {
                &&& r matches Err(PipelineExecutorError::InvalidConfig(msg)) && msg@ == "target_url is empty"@
                &&& final(self).spec_results().len() == 0
                &&& final(self).spec_events().len() == 0
            },
            old(self).spec_config().target_url@.len() > 0 && !old(self).has_executor() ==> {
                &&& r matches Err(PipelineExecutorError::NoExecutor)
                &&& final(self).spec_results().len() == 0
                &&& final(self).spec_events().len() == 0
            },
            old(self).spec_config().target_url@.len() > 0 && old(self).has_executor() ==> {
                let config = old(self).spec_config();
                let rs = final(self).spec_results();
                let sched = schedule(config.enabled_phases@, config.max_iterations as nat);
                &&& rs.len() <= sched.len()
                &&& phases_of(rs) == sched.take(rs.len() as int)
                &&& forall|i: int| 0 <= i < rs.len() ==> failure_recorded(#[trigger] rs[i])
                &&& forall|i: int| 0 <= i < rs.len() ==> old(self).executor_ran(rs[i].phase, returned(#[trigger] rs[i]))
                &&& match r {
                    Ok(s) => {
                        &&& rs.len() == sched.len()
                        &&& final(self).spec_events().len() > 0
                        &&& final(self).spec_events().drop_last() == seq![started_event(config)] + iterations_events(
                            config.enabled_phases@,
                            rs,
                            config.max_iterations as nat,
                        )
                        &&& final(self).spec_events().last() matches PipelineEvent::PipelineCompleted(reported)
                            && same_summary(reported, s)
                        &&& config.fail_fast ==> forall|i: int| 0 <= i < rs.len() ==> (#[trigger] rs[i]).error is None
                        &&& s.target_url@ == config.target_url@
                        &&& s.phases_executed == cap_u32(count_succeeded(rs))
                        &&& s.phases_failed == cap_u32(count_failed(rs))
                        &&& s.phases_skipped == 0
                        &&& s.total_findings == cap_u64(findings_of(rs))
                        &&& s.total_operations == cap_u64(operations_of(rs))
                        &&& s.iterations_completed == config.max_iterations
                        &&& forall|p: PhaseId| s.phase_timings.keys().contains(p) <==> sched.contains(p)
                    },
                    Err(PipelineExecutorError::PhaseFailed { phase, error }) => {
                        &&& config.fail_fast
                        &&& rs.len() > 0
                        &&& rs.last().phase == phase
                        &&& rs.last().error == Some(error)
                        &&& forall|i: int| 0 <= i < rs.len() - 1 ==> (#[trigger] rs[i]).error is None
                        &&& exists|n: nat| {
                            &&& n < config.max_iterations
                            &&& schedule(config.enabled_phases@, n).len() < rs.len() <= schedule(
                                config.enabled_phases@,
                                n + 1,
                            ).len()
                            &&& final(self).spec_events() == seq![started_event(config)] + iterations_events(
                                config.enabled_phases@,
                                rs,
                                n,
                            ) + results_events(rs.subrange(schedule(config.enabled_phases@, n).len() as int, rs.len() as int))
                        }
                    },
                    Err(_) => false,
                }
            },
    {
        let start = instant_now();
        self.phase_results = Vec::new();
        self.events = Ghost(Seq::empty());
        self.calls = Ghost(Seq::empty());
        assert(phases_of(self.phase_results@) =~= Seq::<PhaseId>::empty());
        if self.config.target_url.as_str().is_empty() {
            return Err(PipelineExecutorError::InvalidConfig(String::from_str("target_url is empty")));
        }
        if self.executor.is_none() {
            return Err(PipelineExecutorError::NoExecutor);
        }
        self.emit_event(PipelineEvent::PipelineStarted {
            target: self.config.target_url.clone(),
            phase_count: self.config.enabled_phases.len(),
        });
        let ghost config = self.config;
        let ghost enabled = self.config.enabled_phases@;
        let mut run = PipelineRun::new();
        assert(self.events@ =~= seq![started_event(config)] + iterations_events(enabled, run.results@, 0));
        let mut iterations_completed: u32 = 0;
        let mut iteration: u32 = 0;
        while iteration < self.config.max_iterations
            invariant
                self.config == config,
                config == old(self).config,
                old(self).executor is Some,
                config.target_url@.len() > 0,
                enabled == config.enabled_phases@,
                self.executor is Some,
                iteration <= config.max_iterations,
                iterations_completed == iteration,
                run.consistent(),
                phases_of(run.results@) == schedule(enabled, iteration as nat),
                self.executor == old(self).executor,
                forall|i: int| 0 <= i < run.results@.len() ==> old(self).executor_ran(run.results@[i].phase, returned(#[trigger] run.results@[i])),
                self.events@ == seq![started_event(config)] + iterations_events(enabled, run.results@, iteration as nat),
                self.calls@ == phases_of(run.results@),
                delivered(config, self.events@),
                config.fail_fast ==> forall|i: int| 0 <= i < run.results@.len() ==> (#[trigger] run.results@[i]).error is None,
            decreases config.max_iterations - iteration,
        {
            let phases = self.resolve_iteration_phases(iteration);
            let ghost base = run.results@;
            let mut k: usize = 0;
            while k < phases.len()
                invariant
                    self.config == config,
                    config == old(self).config,
                    old(self).executor is Some,
                    config.target_url@.len() > 0,
                    enabled == config.enabled_phases@,
                    self.executor is Some,
                    phases@ == iteration_phases(enabled, iteration as int),
                    iteration < config.max_iterations,
                    phases_of(base) == schedule(enabled, iteration as nat),
                    k <= phases@.len(),
                    run.consistent(),
                    run.results@.len() == base.len() + k,
                    run.results@.take(base.len() as int) == base,
                    phases_of(run.results@) == phases_of(base) + phases@.take(k as int),
                    self.executor == old(self).executor,
                    forall|i: int| 0 <= i < run.results@.len() ==> old(self).executor_ran(run.results@[i].phase, returned(#[trigger] run.results@[i])),
                    self.events@ == seq![started_event(config)] + iterations_events(enabled, base, iteration as nat)
                        + results_events(run.results@.subrange(base.len() as int, run.results@.len() as int)),
                    self.calls@ == phases_of(run.results@),
                    delivered(config, self.events@),
                    config.fail_fast ==> forall|i: int| 0 <= i < run.results@.len() ==> (#[trigger] run.results@[i]).error is None,
                decreases phases.len() - k,
            {
                let phase_id = phases[k];
                let ghost events_before = self.events@;
                self.emit_event(PipelineEvent::PhaseStarting(phase_id));
                let phase_start = instant_now();
                proof {
                    self.calls@ = self.calls@.push(phase_id);
                }
                let result = match &self.executor {
                    Some(f) => f.run_phase(phase_id),
                    None => Err(String::new()),
                };
                let phase_duration = elapsed_since(&phase_start);
                assert(old(self).executor_ran(phase_id, result));
                let ghost before = run.results@;
                let failure = run.record(phase_id, result, phase_duration);
                proof {
                    assert(returned(run.results@.last()) == result);
                    assert forall|i: int| 0 <= i < run.results@.len() implies old(self).executor_ran(
                        run.results@[i].phase,
                        returned(#[trigger] run.results@[i]),
                    ) by {
                        if i < before.len() {
                            assert(run.results@[i] == before[i]);
                        }
                    }
                    assert(run.results@.subrange(base.len() as int, run.results@.len() as int).drop_last()
                        =~= before.subrange(base.len() as int, before.len() as int));
                    assert(run.results@.take(base.len() as int) =~= base) by {
                        assert(before.take(base.len() as int) == base);
                    }
                    assert(phases_of(run.results@) =~= phases_of(before).push(phase_id));
                    assert(phases@.take(k + 1) =~= phases@.take(k as int).push(phase_id));
                }
                match failure {
                    None => {
                        proof {
                            assert forall|i: int| 0 <= i < run.results@.len() && config.fail_fast implies (#[trigger] run.results@[i]).error is None by {
                                if i < before.len() {
                                    assert(run.results@[i] == run.results@.drop_last()[i]);
                                }
                            }
                        }
                        let n = run.results.len();
                        let outcome = run.results[n - 1].outcome;
                        self.emit_event(PipelineEvent::PhaseCompleted(outcome));
                        proof {
                            assert(self.events@ =~= events_before + result_events(run.results@.last()));
                            lemma_results_events_push(run.results@, base.len() as int);
                            assert(run.results@.drop_last() == before);
                            assert(self.events@ =~= seq![started_event(config)] + iterations_events(enabled, base, iteration as nat)
                                + results_events(run.results@.subrange(base.len() as int, run.results@.len() as int)));
                        }
                    },
                    Some(err) => {
                        self.emit_event(PipelineEvent::PhaseFailed { phase: phase_id, error: err.clone() });
                        proof {
                            assert(self.events@ =~= events_before + result_events(run.results@.last()));
                            lemma_results_events_push(run.results@, base.len() as int);
                            assert(run.results@.drop_last() == before);
                            assert(self.events@ =~= seq![started_event(config)] + iterations_events(enabled, base, iteration as nat)
                                + results_events(run.results@.subrange(base.len() as int, run.results@.len() as int)));
                        }
                        if self.config.fail_fast {
                            proof {
                                assert(base.len() == phases_of(base).len());
                                lemma_iterations_events_frame(enabled, base, run.results@, iteration as nat);
                                assert(phases_of(run.results@) == schedule(enabled, iteration as nat) + phases@.take(k + 1));
                                lemma_schedule_prefix(enabled, iteration as nat, phases@, (k + 1) as int);
                                lemma_schedule_grows(enabled, (iteration + 1) as nat, config.max_iterations as nat);
                                let s1 = schedule(enabled, (iteration + 1) as nat);
                                let sm = schedule(enabled, config.max_iterations as nat);
                                let len = phases_of(run.results@).len() as int;
                                assert(sm.take(len) =~= s1.take(len)) by {
                                    assert(sm.take(s1.len() as int) == s1);
                                }
                                assert(run.results@.drop_last() == before);
                                assert forall|i: int| 0 <= i < run.results@.len() - 1 implies (#[trigger] run.results@[i]).error is None by {
                                    assert(run.results@[i] == before[i]);
                                }
                            }
                            self.phase_results = run.results;
                            return Err(PipelineExecutorError::PhaseFailed { phase: phase_id, error: err });
                        }
                    },
                }
                k += 1;
            }
            proof {
                assert(phases@.take(k as int) =~= phases@);
                assert(base.len() == phases_of(base).len());
                assert(run.results@.len() == phases_of(run.results@).len());
                assert(schedule(enabled, (iteration + 1) as nat) == schedule(enabled, iteration as nat) + phases@);
                lemma_iterations_events_frame(enabled, base, run.results@, iteration as nat);
                assert(run.results@.take(run.results@.len() as int) =~= run.results@);
            }
            let ghost events_mid = self.events@;
            iterations_completed += 1;
            self.emit_event(PipelineEvent::IterationCompleted {
                iteration: iterations_completed,
                total_findings: run.total_findings,
            });
            proof {
                assert(self.events@ =~= seq![started_event(config)] + iterations_events(enabled, run.results@, (iteration + 1) as nat));
            }
            iteration += 1;
        }
        let summary = PipelineSummary {
            target_url: self.config.target_url.clone(),
            total_duration: elapsed_since(&start),
            phases_executed: run.phases_executed,
            phases_failed: run.phases_failed,
            phases_skipped: 0,
            total_findings: run.total_findings,
            total_operations: run.total_operations,
            iterations_completed,
            phase_timings: run.phase_timings,
        };
        proof {
            let sched = schedule(enabled, config.max_iterations as nat);
            assert(sched.take(sched.len() as int) =~= sched);
            assert(phases_of(run.results@) == sched);
        }
        self.phase_results = run.results;
        let ghost events_end = self.events@;
        let reported = summary.duplicate();
        self.emit_event(PipelineEvent::PipelineCompleted(reported));
        assert(self.events@.drop_last() =~= events_end);
        Ok(summary)
    }
}

/// The events of the results from position `a` on grow by the events of
/// the last result.
proof fn lemma_results_events_push(rs: Seq<PhaseExecutionResult>, a: int)
    requires
        0 <= a < rs.len(),
    ensures
        results_events(rs.subrange(a, rs.len() as int)) == results_events(rs.drop_last().subrange(a, rs.len() - 1))
            + result_events(rs.last()),
{
    let x = rs.subrange(a, rs.len() as int);
    assert(x.drop_last() =~= rs.drop_last().subrange(a, rs.len() - 1));
    assert(x.last() == rs.last());
}

/// The events of the first `n` iterations depend only on the results those
/// iterations recorded.
proof fn lemma_iterations_events_frame(enabled: Seq<PhaseId>, rs1: Seq<PhaseExecutionResult>, rs2: Seq<PhaseExecutionResult>, n: nat)
    requires
        schedule(enabled, n).len() <= rs1.len() <= rs2.len(),
        rs2.take(rs1.len() as int) == rs1,
    ensures
        iterations_events(enabled, rs1, n) == iterations_events(enabled, rs2, n),
    decreases n,
{
    if n > 0 {
        lemma_schedule_grows(enabled, (n - 1) as nat, n);
        lemma_iterations_events_frame(enabled, rs1, rs2, (n - 1) as nat);
        let a = schedule(enabled, (n - 1) as nat).len() as int;
        let b = schedule(enabled, n).len() as int;
        assert(rs1.subrange(a, b) =~= rs2.subrange(a, b)) by {
            assert forall|i: int| 0 <= i < b - a implies rs1.subrange(a, b)[i] == rs2.subrange(a, b)[i] by {
                assert(rs2.take(rs1.len() as int)[a + i] == rs2[a + i]);
            }
        }
        assert(rs1.take(b) =~= rs2.take(b)) by {
            assert forall|i: int| 0 <= i < b implies rs1.take(b)[i] == rs2.take(b)[i] by {
                assert(rs2.take(rs1.len() as int)[i] == rs2[i]);
            }
        }
    }
}

/// What a sequence holds after a push.
proof fn lemma_contains_push<T>(s: Seq<T>, x: T, p: T)
    ensures
        s.push(x).contains(p) <==> (s.contains(p) || p == x),
{
    if s.contains(p) {
        let j = choose|j: int| 0 <= j < s.len() && s[j] == p;
        assert(s.push(x)[j] == p);
    }
    if p == x {
        assert(s.push(x)[s.len() as int] == p);
    }
    if s.push(x).contains(p) && p != x {
        let j = choose|j: int| 0 <= j < s.push(x).len() && s.push(x)[j] == p;
        assert(j < s.len());
        assert(s[j] == p);
    }
}

/// A shorter schedule is a prefix of a longer one.
proof fn lemma_schedule_grows(enabled: Seq<PhaseId>, n: nat, m: nat)
    requires
        n <= m,
    ensures
        schedule(enabled, n).len() <= schedule(enabled, m).len(),
        schedule(enabled, m).take(schedule(enabled, n).len() as int) == schedule(enabled, n),
    decreases m,
{
    if n < m {
        lemma_schedule_grows(enabled, n, (m - 1) as nat);
        let a = schedule(enabled, n);
        let b = schedule(enabled, (m - 1) as nat);
        assert(schedule(enabled, m) == b + iteration_phases(enabled, m - 1));
        assert(schedule(enabled, m).take(a.len() as int) =~= b.take(a.len() as int));
    } else {
        assert(schedule(enabled, m).take(schedule(enabled, m).len() as int) =~= schedule(enabled, m));
    }
}

/// A run stopped inside an iteration has run a prefix of the schedule.
proof fn lemma_schedule_prefix(enabled: Seq<PhaseId>, it: nat, phases: Seq<PhaseId>, k: int)
    requires
        phases == iteration_phases(enabled, it as int),
        0 <= k <= phases.len(),
    ensures
        schedule(enabled, it) + phases.take(k) == schedule(enabled, it + 1).take(schedule(enabled, it).len() + k),
        schedule(enabled, it).len() + k <= schedule(enabled, it + 1).len(),
{
    assert(schedule(enabled, it + 1) == schedule(enabled, it) + phases);
    assert(schedule(enabled, it) + phases.take(k) =~= (schedule(enabled, it) + phases).take(
        schedule(enabled, it).len() + k,
    ));
}

} // verus!
