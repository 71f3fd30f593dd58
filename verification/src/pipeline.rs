//! The scan pipeline's declarative shape and its result and error types.
use vstd::prelude::*;
use crate::pipeline_composer::{ComposerError, PhaseType, PipelineDefinition, PipelineStage, deps_of, stage_is};
use crate::text::{push_str, string_of};

verus! {

/// Counts produced by one scan phase.
#[derive(Debug, Clone)]
pub struct PhaseResult {
    pub operations_applied: u64,
    pub findings_count: u64,
}

/// Builds the declarative pipeline DAG for a standard scan.
///
/// Phases and their dependencies:
/// - `recon`, `crawl`: no dependencies (can run in parallel)
/// - `fingerprint`: depends on `recon` and `crawl`
/// - `fuzz`: depends on `fingerprint`
/// - `analyze`, `dom_verify`: depend on `fuzz` (can run in parallel)
/// - `report`: depends on `analyze` and `dom_verify`
pub fn build_scan_pipeline(max_iterations: u32, convergence_threshold: u32) -> (d: PipelineDefinition)
    ensures
        d.stages@.len() == 7,
        stage_is(d.stages@[0], "recon"@, PhaseType::Source, seq![], false),
        stage_is(d.stages@[1], "crawl"@, PhaseType::Source, seq![], false),
        stage_is(d.stages@[2], "fingerprint"@, PhaseType::Source, seq!["recon"@, "crawl"@], true),
        stage_is(d.stages@[3], "fuzz"@, PhaseType::Transform, seq!["fingerprint"@], false),
        stage_is(d.stages@[4], "analyze"@, PhaseType::Transform, seq!["fuzz"@], false),
        stage_is(d.stages@[5], "dom_verify"@, PhaseType::Transform, seq!["fuzz"@], false),
        stage_is(d.stages@[6], "report"@, PhaseType::Sink, seq!["analyze"@, "dom_verify"@], false),
        d.max_iterations == max_iterations,
        d.convergence_threshold == convergence_threshold,
{
    let mut def = PipelineDefinition::new();
    def.stages.push(PipelineStage::new("recon", PhaseType::Source));
    def.stages.push(PipelineStage::new("crawl", PhaseType::Source));
    def.stages.push(
        PipelineStage::new("fingerprint", PhaseType::Source)
            .with_dependency("recon")
            .with_dependency("crawl")
            .with_optional(true),
    );
    def.stages.push(PipelineStage::new("fuzz", PhaseType::Transform).with_dependency("fingerprint"));
    def.stages.push(PipelineStage::new("analyze", PhaseType::Transform).with_dependency("fuzz"));
    def.stages.push(PipelineStage::new("dom_verify", PhaseType::Transform).with_dependency("fuzz"));
    def.stages.push(
        PipelineStage::new("report", PhaseType::Sink)
            .with_dependency("analyze")
            .with_dependency("dom_verify"),
    );
    def.max_iterations = max_iterations;
    def.convergence_threshold = convergence_threshold;
    assert(deps_of(def.stages@[0]) =~= seq![]);
    assert(deps_of(def.stages@[1]) =~= seq![]);
    assert(deps_of(def.stages@[2]) =~= seq!["recon"@, "crawl"@]);
    assert(deps_of(def.stages@[3]) =~= seq!["fingerprint"@]);
    assert(deps_of(def.stages@[4]) =~= seq!["fuzz"@]);
    assert(deps_of(def.stages@[5]) =~= seq!["fuzz"@]);
    assert(deps_of(def.stages@[6]) =~= seq!["analyze"@, "dom_verify"@]);
    def
}

/// What the scan has done so far, threaded through its phases.
#[derive(Debug, Clone)]
pub struct ScanProgress {
    pub total_ops: u64,
    pub total_findings: u64,
    pub phases: u32,
    pub consecutive_zero_findings: u32,
    pub completed_phases: Vec<String>,
}

impl ScanProgress {
    /// Nothing done yet.
    pub fn new() -> (p: Self)
        ensures
            p.total_ops == 0,
            p.total_findings == 0,
            p.phases == 0,
            p.consecutive_zero_findings == 0,
            p.completed_phases@.len() == 0,
    {
        ScanProgress {
            total_ops: 0,
            total_findings: 0,
            phases: 0,
            consecutive_zero_findings: 0,
            completed_phases: Vec::new(),
        }
    }
}

/// Counts one fuzz/analyze iteration towards convergence: an iteration in
/// which neither phase found anything extends the run of empty
/// iterations, any finding ends it.
pub fn update_convergence(progress: &mut ScanProgress, fuzz_findings: u64, analyze_findings: u64)
    requires
        fuzz_findings == 0 && analyze_findings == 0 ==> old(progress).consecutive_zero_findings < u32::MAX,
    ensures
        final(progress).consecutive_zero_findings == (if fuzz_findings == 0 && analyze_findings == 0 {
            old(progress).consecutive_zero_findings + 1
        } else {
            0
        }),
        final(progress).total_ops == old(progress).total_ops,
        final(progress).total_findings == old(progress).total_findings,
        final(progress).phases == old(progress).phases,
        final(progress).completed_phases@ == old(progress).completed_phases@,
{
    if fuzz_findings == 0 && analyze_findings == 0 {
        progress.consecutive_zero_findings = progress.consecutive_zero_findings + 1;
    } else {
        progress.consecutive_zero_findings = 0;
    }
}

/// The fuzz/analyze loop ends early, after `iteration`, once as many
/// iterations in a row as the threshold found nothing; it never ends early
/// after the last iteration, which ends it anyway.
pub open spec fn converged(consecutive_zero: u32, threshold: u32, iteration: u32, max_iterations: u32) -> bool {
    consecutive_zero >= threshold && iteration + 1 < max_iterations
}

/// Whether the fuzz/analyze loop stops after `iteration`.
pub fn fuzz_loop_converged(consecutive_zero: u32, threshold: u32, iteration: u32, max_iterations: u32) -> (r: bool)
    requires
        iteration < max_iterations,
    ensures
        r == converged(consecutive_zero, threshold, iteration, max_iterations),
{
    consecutive_zero >= threshold && iteration + 1 < max_iterations
}

/// Ends one fuzz/analyze iteration: counts it towards convergence and
/// says whether the loop goes on to the next iteration.
pub fn finish_fuzz_iteration(
    progress: &mut ScanProgress,
    iteration: u32,
    fuzz_findings: u64,
    analyze_findings: u64,
    threshold: u32,
    max_iterations: u32,
) -> (go_on: bool)
    requires
        iteration < max_iterations,
        fuzz_findings == 0 && analyze_findings == 0 ==> old(progress).consecutive_zero_findings < u32::MAX,
    ensures
        final(progress).consecutive_zero_findings == (if fuzz_findings == 0 && analyze_findings == 0 {
            old(progress).consecutive_zero_findings + 1
        } else {
            0
        }),
        final(progress).completed_phases@ == old(progress).completed_phases@,
        go_on == (iteration + 1 < max_iterations && !converged(
            final(progress).consecutive_zero_findings,
            threshold,
            iteration,
            max_iterations,
        )),
        (fuzz_findings > 0 || analyze_findings > 0) && threshold > 0 ==> go_on == (iteration + 1 < max_iterations),
{
    update_convergence(progress, fuzz_findings, analyze_findings);
    let stop = fuzz_loop_converged(progress.consecutive_zero_findings, threshold, iteration, max_iterations);
    !stop && iteration + 1 < max_iterations
}

/// Why a scan stopped. The configuration and phase variants carry the
/// message of the error that their stage reported.
#[derive(Debug, Clone)]
pub enum PipelineError {
    Config(String),
    AuditLog(String),
    PipelineComposer(ComposerError),
    Recon(String),
    Crawl(String),
    Fingerprint(String),
    Fuzz(String),
    Analysis(String),
    DomVerify(String),
    Report(String),
    InteractiveQuit,
}

impl PipelineError {
    /// The message: the stage's name, a colon, and the inner message.
    pub open spec fn message(self) -> Seq<char> {
        match self {
            PipelineError::Config(e) => "config: "@ + e@,
            PipelineError::AuditLog(e) => "audit log: "@ + e@,
            PipelineError::PipelineComposer(e) => "pipeline definition: "@ + e.message(),
            PipelineError::Recon(e) => "recon: "@ + e@,
            PipelineError::Crawl(e) => "crawl: "@ + e@,
            PipelineError::Fingerprint(e) => "fingerprint: "@ + e@,
            PipelineError::Fuzz(e) => "fuzz: "@ + e@,
            PipelineError::Analysis(e) => "analysis: "@ + e@,
            PipelineError::DomVerify(e) => "dom_verify: "@ + e@,
            PipelineError::Report(e) => "report: "@ + e@,
            PipelineError::InteractiveQuit => "scan aborted by user"@,
        }
    }

    /// Renders the message.
    pub fn to_string(&self) -> (s: String)
        ensures
            s@ == self.message(),
    {
        let mut out: Vec<char> = Vec::new();
        match self {
            PipelineError::Config(e) => {
                push_str(&mut out, "config: ");
                push_str(&mut out, e.as_str());
            },
            PipelineError::AuditLog(e) => {
                push_str(&mut out, "audit log: ");
                push_str(&mut out, e.as_str());
            },
            PipelineError::PipelineComposer(e) => {
                push_str(&mut out, "pipeline definition: ");
                let inner = e.to_string();
                push_str(&mut out, inner.as_str());
            },
            PipelineError::Recon(e) => {
                push_str(&mut out, "recon: ");
                push_str(&mut out, e.as_str());
            },
            PipelineError::Crawl(e) => {
                push_str(&mut out, "crawl: ");
                push_str(&mut out, e.as_str());
            },
            PipelineError::Fingerprint(e) => {
                push_str(&mut out, "fingerprint: ");
                push_str(&mut out, e.as_str());
            },
            PipelineError::Fuzz(e) => {
                push_str(&mut out, "fuzz: ");
                push_str(&mut out, e.as_str());
            },
            PipelineError::Analysis(e) => {
                push_str(&mut out, "analysis: ");
                push_str(&mut out, e.as_str());
            },
            PipelineError::DomVerify(e) => {
                push_str(&mut out, "dom_verify: ");
                push_str(&mut out, e.as_str());
            },
            PipelineError::Report(e) => {
                push_str(&mut out, "report: ");
                push_str(&mut out, e.as_str());
            },
            PipelineError::InteractiveQuit => push_str(&mut out, "scan aborted by user"),
        }
        string_of(out.as_slice())
    }
}

impl From<ComposerError> for PipelineError {
    fn from(e: ComposerError) -> (r: Self) {
        PipelineError::PipelineComposer(e)
    }
}

impl vstd::std_specs::convert::FromSpecImpl<ComposerError> for PipelineError {
    open spec fn obeys_from_spec() -> bool {
        true
    }

    open spec fn from_spec(e: ComposerError) -> Self {
        PipelineError::PipelineComposer(e)
    }
}

} // verus!
