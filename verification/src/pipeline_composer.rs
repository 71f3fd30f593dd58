//! Declarative scan pipelines: stages, their dependencies, validation,
//! a dependency-respecting execution order and the grouping of stages into
//! waves that could run side by side.
use vstd::prelude::*;
use crate::text::{join, join_strings, views};

verus! {

/// Categorizes how a pipeline stage interacts with the event stream.
#[derive(Debug, Clone, Copy, PartialEq, Eq, Structural)]
pub enum PhaseType {
    /// Produces events from external data (recon, fingerprint).
    Source,
    /// Processes events and produces new events (fuzz, analyze).
    Transform,
    /// Consumes events and produces output (report).
    Sink,
    /// Reads events without transforming them (convergence, telemetry).
    Observer,
}

/// A single stage in a declarative pipeline definition.
#[derive(Debug, Clone)]
pub struct PipelineStage {
    /// Unique name identifying this stage (e.g., "recon", "fuzz").
    pub name: String,
    /// How this stage interacts with the event stream.
    pub phase_type: PhaseType,
    /// Stage names that must complete before this one runs.
    pub depends_on: Vec<String>,
    /// Whether this stage can be skipped without failing the pipeline.
    pub optional: bool,
    /// Number of times to retry on failure before giving up.
    pub max_retries: u32,
}

/// The names a stage depends on, as character sequences.
pub open spec fn deps_of(s: PipelineStage) -> Seq<Seq<char>> {
    s.depends_on@.map_values(|d: String| d@)
}

impl PipelineStage {
    /// Creates a new stage with the given name and phase type.
    ///
    /// Defaults: no dependencies, not optional, zero retries.
    pub fn new(name: &str, phase_type: PhaseType) -> (s: Self)
        ensures
            s.name@ == name@,
            s.phase_type == phase_type,
            s.depends_on@.len() == 0,
            !s.optional,
            s.max_retries == 0,
    {
        PipelineStage {
            name: String::from_str(name),
            phase_type,
            depends_on: Vec::new(),
            optional: false,
            max_retries: 0,
        }
    }

    /// Adds a dependency on another stage by name.
    pub fn with_dependency(self, dep: &str) -> (s: Self)
        ensures
            s.name == self.name,
            s.phase_type == self.phase_type,
            deps_of(s) == deps_of(self).push(dep@),
            s.optional == self.optional,
            s.max_retries == self.max_retries,
    {
        let mut s = self;
        s.depends_on.push(String::from_str(dep));
        assert(deps_of(s) =~= deps_of(self).push(dep@));
        s
    }

    /// Marks this stage as optional.
    pub fn with_optional(self, optional: bool) -> (s: Self)
        ensures
            s.name == self.name,
            s.phase_type == self.phase_type,
            s.depends_on == self.depends_on,
            s.optional == optional,
            s.max_retries == self.max_retries,
    {
        let mut s = self;
        s.optional = optional;
        s
    }

    /// Sets the maximum retry count for this stage.
    pub fn with_max_retries(self, retries: u32) -> (s: Self)
        ensures
            s.name == self.name,
            s.phase_type == self.phase_type,
            s.depends_on == self.depends_on,
            s.optional == self.optional,
            s.max_retries == retries,
    {
        let mut s = self;
        s.max_retries = retries;
        s
    }
}

/// Declarative specification of a scan pipeline's stages and iteration behavior.
#[derive(Debug, Clone)]
pub struct PipelineDefinition {
    /// Ordered list of stages in the pipeline.
    pub stages: Vec<PipelineStage>,
    /// Maximum fuzz-analyze iteration rounds.
    pub max_iterations: u32,
    /// Consecutive zero-finding rounds before stopping iteration.
    pub convergence_threshold: u32,
}

impl PipelineDefinition {
    /// Creates an empty pipeline definition with default iteration settings.
    pub fn new() -> (d: Self)
        ensures
            d.stages@.len() == 0,
            d.max_iterations == 1,
            d.convergence_threshold == 2,
    {
        PipelineDefinition { stages: Vec::new(), max_iterations: 1, convergence_threshold: 2 }
    }

    /// Appends a stage to the pipeline.
    pub fn add_stage(&mut self, stage: PipelineStage) -> (r: &mut Self)
        ensures
            r.stages@ == old(self).stages@.push(stage),
            r.max_iterations == old(self).max_iterations,
            r.convergence_threshold == old(self).convergence_threshold,
            *final(self) == *final(r),
    {
        self.stages.push(stage);
        self
    }

    /// Sets the maximum number of fuzz-analyze iterations.
    pub fn with_max_iterations(&mut self, n: u32) -> (r: &mut Self)
        ensures
            r.stages == old(self).stages,
            r.max_iterations == n,
            r.convergence_threshold == old(self).convergence_threshold,
            *final(self) == *final(r),
    {
        self.max_iterations = n;
        self
    }

    /// Sets how many consecutive zero-finding rounds trigger convergence.
    pub fn with_convergence_threshold(&mut self, n: u32) -> (r: &mut Self)
        ensures
            r.stages == old(self).stages,
            r.max_iterations == old(self).max_iterations,
            r.convergence_threshold == n,
            *final(self) == *final(r),
    {
        self.convergence_threshold = n;
        self
    }
}

impl Default for PipelineDefinition {
    fn default() -> (d: Self)
        ensures
            d.stages@.len() == 0,
            d.max_iterations == 1,
            d.convergence_threshold == 2,
    {
        Self::new()
    }
}

/// Result of executing a single pipeline stage.
#[derive(Debug, Clone)]
pub struct StageResult {
    pub stage_name: String,
    pub events_produced: usize,
    pub events_consumed: usize,
    pub duration_ms: u64,
    pub retries_used: u32,
    pub skipped: bool,
    pub error: Option<String>,
}

impl StageResult {
    /// Creates a default result for the named stage with zero counts.
    pub fn new(stage_name: &str) -> (r: Self)
        ensures
            r.stage_name@ == stage_name@,
            r.events_produced == 0,
            r.events_consumed == 0,
            r.duration_ms == 0,
            r.retries_used == 0,
            !r.skipped,
            r.error is None,
    {
        StageResult {
            stage_name: String::from_str(stage_name),
            events_produced: 0,
            events_consumed: 0,
            duration_ms: 0,
            retries_used: 0,
            skipped: false,
            error: None,
        }
    }
}

/// Aggregate result of running the full pipeline.
#[derive(Debug, Clone)]
pub struct PipelineResult {
    pub stage_results: Vec<StageResult>,
    pub total_events: usize,
    pub total_duration_ms: u64,
    pub converged: bool,
    pub iterations_completed: u32,
}

impl PipelineResult {
    /// Creates an empty pipeline result.
    pub fn new() -> (r: Self)
        ensures
            r.stage_results@.len() == 0,
            r.total_events == 0,
            r.total_duration_ms == 0,
            !r.converged,
            r.iterations_completed == 0,
    {
        PipelineResult {
            stage_results: Vec::new(),
            total_events: 0,
            total_duration_ms: 0,
            converged: false,
            iterations_completed: 0,
        }
    }
}

impl Default for PipelineResult {
    fn default() -> (r: Self)
        ensures
            r.stage_results@.len() == 0,
            r.total_events == 0,
            r.total_duration_ms == 0,
            !r.converged,
            r.iterations_completed == 0,
    {
        Self::new()
    }
}

/// Errors arising from pipeline definition validation or composition.
#[derive(Debug, Clone)]
pub enum ComposerError {
    /// Two stages share the same name.
    DuplicateStageName(String),
    /// A `depends_on` entry references a stage that does not exist.
    MissingDependency { stage: String, dependency: String },
    /// A cycle was detected among stage dependencies.
    CyclicDependency(String),
    /// The pipeline has no stages.
    EmptyPipeline,
    /// No stage has `PhaseType::Source`.
    NoSourceStage,
    /// No stage has `PhaseType::Sink`.
    NoSinkStage,
}

impl ComposerError {
    /// The human-readable message of the error.
    pub open spec fn message(self) -> Seq<char> {
        match self {
            ComposerError::DuplicateStageName(name) => "duplicate stage name: "@ + name@,
            ComposerError::MissingDependency { stage, dependency } =>
                "stage '"@ + stage@ + "' depends on unknown stage '"@ + dependency@ + "'"@,
            ComposerError::CyclicDependency(detail) => "cyclic dependency detected: "@ + detail@,
            ComposerError::EmptyPipeline => "pipeline has no stages"@,
            ComposerError::NoSourceStage => "pipeline has no Source stage"@,
            ComposerError::NoSinkStage => "pipeline has no Sink stage"@,
        }
    }

    /// Renders the error message.
    pub fn to_string(&self) -> (s: String)
        ensures s@ == self.message(),
    {
        match self {
            ComposerError::DuplicateStageName(name) => {
                let mut s = String::from_str("duplicate stage name: ");
                s.append(name.as_str());
                s
            },
            ComposerError::MissingDependency { stage, dependency } => {
                let mut s = String::from_str("stage '");
                s.append(stage.as_str());
                s.append("' depends on unknown stage '");
                s.append(dependency.as_str());
                s.append("'");
                s
            },
            ComposerError::CyclicDependency(detail) => {
                let mut s = String::from_str("cyclic dependency detected: ");
                s.append(detail.as_str());
                s
            },
            ComposerError::EmptyPipeline => String::from_str("pipeline has no stages"),
            ComposerError::NoSourceStage => String::from_str("pipeline has no Source stage"),
            ComposerError::NoSinkStage => String::from_str("pipeline has no Sink stage"),
        }
    }
}

/// Returns a human-readable description of the pipeline flow.
pub fn describe_pipeline(definition: &PipelineDefinition) -> (s: String)
    ensures
        s@ == (if definition.stages@.len() == 0 {
            "empty pipeline"@
        } else {
            join(definition.stages@.map_values(|st: PipelineStage| st.name@), " -> "@)
        }),
{
    if definition.stages.len() == 0 {
        return String::from_str("empty pipeline");
    }
    let mut names: Vec<String> = Vec::new();
    for i in 0..definition.stages.len()
        invariant
            names@.len() == i,
            forall|j: int| 0 <= j < i ==> names@[j]@ == definition.stages@[j].name@,
    {
        names.push(definition.stages[i].name.clone());
    }
    assert(names@.map_values(|n: String| n@) =~= definition.stages@.map_values(
        |st: PipelineStage| st.name@,
    ));
    join_strings(&names, " -> ")
}

/// Stage `j` is the stage that the name `d` refers to: the last stage so named.
pub open spec fn names_stage(st: Seq<PipelineStage>, d: Seq<char>, j: int) -> bool {
    &&& 0 <= j < st.len()
    &&& st[j].name@ == d
    &&& forall|k: int| j < k < st.len() ==> st[k].name@ != d
}

/// Stage `i` depends on stage `j` through one of its `depends_on` entries.
/// An entry naming no stage creates no dependency.
pub open spec fn depends(st: Seq<PipelineStage>, i: int, j: int) -> bool {
    exists|k: int| 0 <= k < st[i].depends_on@.len() && names_stage(st, #[trigger] st[i].depends_on@[k]@, j)
}

/// Every stage that `ord[p]` depends on occurs in `ord` before position `p`.
pub open spec fn deps_come_first(st: Seq<PipelineStage>, ord: Seq<usize>) -> bool {
    forall|p: int, j: int|
        0 <= p < ord.len() && #[trigger] depends(st, ord[p] as int, j) ==> exists|q: int|
            0 <= q < p && ord[q] == j
}

/// `ord` lists each stage index exactly once, every stage after the stages it depends on.
pub open spec fn is_execution_order(st: Seq<PipelineStage>, ord: Seq<usize>) -> bool {
    &&& ord.len() == st.len()
    &&& ord.no_duplicates()
    &&& forall|p: int| 0 <= p < ord.len() ==> ord[p] < st.len()
    &&& forall|i: usize| i < st.len() ==> ord.contains(i)
    &&& deps_come_first(st, ord)
}

/// Stage `i` depends on no stage of the pipeline.
pub open spec fn independent(st: Seq<PipelineStage>, i: int) -> bool {
    forall|j: int| !depends(st, i, j)
}

/// Stages that depend on no stage come in `ord` in the order they were defined.
pub open spec fn independent_in_definition_order(st: Seq<PipelineStage>, ord: Seq<usize>) -> bool {
    forall|a: int, b: int|
        0 <= a < b < st.len() && #[trigger] independent(st, a) && #[trigger] independent(st, b)
            ==> exists|p: int, q: int| 0 <= p < q < ord.len() && ord[p] == a && ord[q] == b
}

/// In `ord`, the stage at position `p` becomes ready once the stage at
/// position `r` has run: every stage it depends on stands at `r` or before,
/// and it depends on the one at `r`; `r` is -1 for a stage that depends on
/// no stage.
pub open spec fn released_at(st: Seq<PipelineStage>, ord: Seq<usize>, p: int, r: int) -> bool {
    &&& -1 <= r < p
    &&& forall|j: int| #[trigger] depends(st, ord[p] as int, j) ==> exists|q: int| 0 <= q <= r && ord[q] == j
    &&& r >= 0 ==> depends(st, ord[p] as int, ord[r] as int)
}

/// The stage at position `p` of `ord` becomes ready after some position.
pub open spec fn becomes_ready(st: Seq<PipelineStage>, ord: Seq<usize>, p: int) -> bool {
    exists|r: int| released_at(st, ord, p, r)
}

/// `ord` runs the stages first in first out: in the order in which they
/// become ready, and stages that become ready together in definition order.
pub open spec fn first_in_first_out(st: Seq<PipelineStage>, ord: Seq<usize>) -> bool {
    &&& forall|p: int| 0 <= p < ord.len() ==> #[trigger] becomes_ready(st, ord, p)
    &&& forall|p: int, q: int, rp: int, rq: int|
        0 <= p < q < ord.len() && #[trigger] released_at(st, ord, p, rp) && #[trigger] released_at(st, ord, q, rq)
            ==> rp < rq || (rp == rq && ord[p] < ord[q])
}

/// Some order runs every stage after all the stages it depends on.
pub open spec fn schedulable(st: Seq<PipelineStage>) -> bool {
    exists|ord: Seq<usize>| is_execution_order(st, ord)
}

/// Stage `i` depends on some stage of `set`.
pub open spec fn waits_within(st: Seq<PipelineStage>, set: Set<usize>, i: usize) -> bool {
    exists|j: usize| set.contains(j) && depends(st, i as int, j as int)
}

/// The stages that `queue` leaves out.
pub open spec fn left_out(st: Seq<PipelineStage>, queue: Seq<usize>) -> Set<usize> {
    Set::new(|i: usize| i < st.len() && !queue.contains(i))
}

/// `stuck` is the set of stages that can never run: each of them waits on
/// another stuck stage, while all the other stages can be put in an order
/// that runs each after everything it depends on.
pub open spec fn is_stuck_set(st: Seq<PipelineStage>, stuck: Set<usize>) -> bool {
    &&& forall|i: usize| stuck.contains(i) ==> i < st.len()
    &&& forall|i: usize| stuck.contains(i) ==> #[trigger] waits_within(st, stuck, i)
    &&& exists|ord: Seq<usize>| {
        &&& ord.no_duplicates()
        &&& forall|i: usize| i < st.len() ==> (ord.contains(i) <==> !stuck.contains(i))
        &&& forall|p: int| 0 <= p < ord.len() ==> ord[p] < st.len()
        &&& deps_come_first(st, ord)
    }
}

/// The names of the stages in `set`, in stage order, among the first `k` stages.
pub open spec fn names_in(st: Seq<PipelineStage>, set: Set<usize>, k: int) -> Seq<Seq<char>>
    decreases k,
{
    if k <= 0 {
        Seq::empty()
    } else if set.contains((k - 1) as usize) {
        names_in(st, set, k - 1).push(st[k - 1].name@)
    } else {
        names_in(st, set, k - 1)
    }
}

/// Resolution table: `t[i][k]` is the stage that entry `k` of stage `i`'s
/// `depends_on` names, if any.
pub open spec fn targets_ok(st: Seq<PipelineStage>, t: Seq<Seq<Option<usize>>>) -> bool {
    &&& t.len() == st.len()
    &&& forall|i: int| 0 <= i < t.len() ==> #[trigger] t[i].len() == st[i].depends_on@.len()
    &&& forall|i: int, k: int| 0 <= i < t.len() && 0 <= k < t[i].len() ==> match #[trigger] t[i][k] {
        Some(j) => names_stage(st, st[i].depends_on@[k]@, j as int),
        None => forall|j: int| !names_stage(st, st[i].depends_on@[k]@, j),
    }
}

/// Number of entries of `row` among the first `k` that name a stage outside `done`.
pub open spec fn pending_upto(row: Seq<Option<usize>>, done: Set<usize>, k: int) -> nat
    decreases k,
{
    if k <= 0 {
        0
    } else {
        pending_upto(row, done, k - 1) + match row[k - 1] {
            Some(j) => if done.contains(j) { 0nat } else { 1nat },
            None => 0nat,
        }
    }
}

pub open spec fn pending(row: Seq<Option<usize>>, done: Set<usize>) -> nat {
    pending_upto(row, done, row.len() as int)
}

/// Number of entries of `row` among the first `k` that name stage `u`.
pub open spec fn count_upto(row: Seq<Option<usize>>, u: usize, k: int) -> nat
    decreases k,
{
    if k <= 0 {
        0
    } else {
        count_upto(row, u, k - 1) + if row[k - 1] == Some(u) { 1nat } else { 0nat }
    }
}

proof fn lemma_pending_insert(row: Seq<Option<usize>>, done: Set<usize>, u: usize, k: int)
    requires
        !done.contains(u),
        0 <= k <= row.len(),
    ensures
        pending_upto(row, done.insert(u), k) + count_upto(row, u, k) == pending_upto(row, done, k),
    decreases k,
{
    if k > 0 {
        lemma_pending_insert(row, done, u, k - 1);
    }
}

proof fn lemma_pending_zero(row: Seq<Option<usize>>, done: Set<usize>, k: int)
    requires
        0 <= k <= row.len(),
    ensures
        pending_upto(row, done, k) == 0 <==> forall|m: int|
            0 <= m < k ==> match #[trigger] row[m] {
                Some(j) => done.contains(j),
                None => true,
            },
    decreases k,
{
    if k > 0 {
        lemma_pending_zero(row, done, k - 1);
    }
}

proof fn lemma_count_positive(row: Seq<Option<usize>>, u: usize, k: int)
    requires
        0 <= k <= row.len(),
    ensures
        count_upto(row, u, k) > 0 <==> exists|m: int| 0 <= m < k && row[m] == Some(u),
    decreases k,
{
    if k > 0 {
        lemma_count_positive(row, u, k - 1);
    }
}

/// A sequence of distinct indices below `n` has at most `n` elements.
proof fn lemma_distinct_bounded(s: Seq<usize>, n: usize)
    requires
        s.no_duplicates(),
        forall|p: int| 0 <= p < s.len() ==> s[p] < n,
    ensures
        s.len() <= n,
        s.len() == n ==> forall|i: usize| i < n ==> s.contains(i),
        (forall|i: usize| i < n ==> s.contains(i)) ==> s.len() == n,
{
    let si = s.map_values(|x: usize| x as int);
    assert(si.no_duplicates()) by {
        assert forall|a: int, b: int| 0 <= a < si.len() && 0 <= b < si.len() && a != b implies si[a]
            != si[b] by {
            assert(s[a] != s[b]);
        }
    }
    si.unique_seq_to_set();
    let range = vstd::set_lib::set_int_range(0, n as int);
    vstd::set_lib::lemma_int_range(0, n as int);
    assert(si.to_set().subset_of(range)) by {
        assert forall|x: int| si.to_set().contains(x) implies range.contains(x) by {
            assert(si.contains(x));
            let p = choose|p: int| 0 <= p < si.len() && si[p] == x;
            assert(s[p] < n);
        }
    }
    vstd::set_lib::lemma_len_subset(si.to_set(), range);
    if forall|i: usize| i < n ==> s.contains(i) {
        assert(range.subset_of(si.to_set())) by {
            assert forall|x: int| range.contains(x) implies si.to_set().contains(x) by {
                let xu = x as usize;
                assert(s.contains(xu));
                let p = choose|p: int| 0 <= p < s.len() && s[p] == xu;
                assert(si[p] == x);
            }
        }
        vstd::set_lib::lemma_len_subset(range, si.to_set());
    }
    if s.len() == n {
        vstd::set_lib::lemma_subset_equality(si.to_set(), range);
        assert forall|i: usize| i < n implies s.contains(i) by {
            assert(range.contains(i as int));
            assert(si.to_set().contains(i as int));
            assert(si.contains(i as int));
            let p = choose|p: int| 0 <= p < si.len() && si[p] == i as int;
            assert(s[p] == i);
        }
    }
}

/// The index of the last stage called `name`, if any.
fn resolve_index(stages: &Vec<PipelineStage>, name: &String) -> (r: Option<usize>)
    ensures
        match r {
            Some(j) => names_stage(stages@, name@, j as int),
            None => forall|j: int| !names_stage(stages@, name@, j),
        },
{
    let mut i = stages.len();
    while i > 0
        invariant
            i <= stages@.len(),
            forall|k: int| i <= k < stages@.len() ==> stages@[k].name@ != name@,
        decreases i,
    {
        i -= 1;
        if stages[i].name == *name {
            return Some(i);
        }
    }
    None
}

/// The resolution table of every `depends_on` entry.
fn dependency_targets(stages: &Vec<PipelineStage>) -> (t: Vec<Vec<Option<usize>>>)
    ensures
        targets_ok(stages@, t@.map_values(|row: Vec<Option<usize>>| row@)),
{
    let ghost st = stages@;
    let mut t: Vec<Vec<Option<usize>>> = Vec::new();
    for i in 0..stages.len()
        invariant
            st == stages@,
            t@.len() == i,
            forall|a: int| 0 <= a < i ==> #[trigger] t@[a]@.len() == st[a].depends_on@.len(),
            forall|a: int, k: int| 0 <= a < i && 0 <= k < t@[a]@.len() ==> match #[trigger] t@[a]@[k] {
                Some(j) => names_stage(st, st[a].depends_on@[k]@, j as int),
                None => forall|j: int| !names_stage(st, st[a].depends_on@[k]@, j),
            },
    {
        let deps = &stages[i].depends_on;
        let mut row: Vec<Option<usize>> = Vec::new();
        for k in 0..deps.len()
            invariant
                st == stages@,
                deps@ == st[i as int].depends_on@,
                row@.len() == k,
                forall|m: int| 0 <= m < k ==> match #[trigger] row@[m] {
                    Some(j) => names_stage(st, st[i as int].depends_on@[m]@, j as int),
                    None => forall|j: int| !names_stage(st, st[i as int].depends_on@[m]@, j),
                },
        {
            row.push(resolve_index(stages, &deps[k]));
        }
        t.push(row);
    }
    let ghost tv = t@.map_values(|row: Vec<Option<usize>>| row@);
    assert forall|a: int| 0 <= a < tv.len() implies #[trigger] tv[a].len() == st[a].depends_on@.len() by {
        assert(tv[a] == t@[a]@);
    }
    assert forall|a: int, k: int| 0 <= a < tv.len() && 0 <= k < tv[a].len() implies match #[trigger] tv[a][k] {
        Some(j) => names_stage(st, st[a].depends_on@[k]@, j as int),
        None => forall|j: int| !names_stage(st, st[a].depends_on@[k]@, j),
    } by {
        assert(tv[a] == t@[a]@);
    }
    t
}

/// `depends` read off the resolution table.
proof fn lemma_depends_via_targets(st: Seq<PipelineStage>, t: Seq<Seq<Option<usize>>>, i: int, j: usize)
    requires
        targets_ok(st, t),
        0 <= i < st.len(),
    ensures
        depends(st, i, j as int) <==> exists|k: int| 0 <= k < t[i].len() && t[i][k] == Some(j),
{
    if depends(st, i, j as int) {
        let k = choose|k: int| 0 <= k < st[i].depends_on@.len() && names_stage(st, #[trigger] st[i].depends_on@[k]@, j as int);
        assert(t[i][k] is Some);
        let j2 = t[i][k]->0;
        assert(names_stage(st, st[i].depends_on@[k]@, j2 as int));
        assert(j2 == j);
    }
    if exists|k: int| 0 <= k < t[i].len() && t[i][k] == Some(j) {
        let k = choose|k: int| 0 <= k < t[i].len() && t[i][k] == Some(j);
        assert(names_stage(st, st[i].depends_on@[k]@, j as int));
    }
}

/// A stage that depends on no stage has nothing pending before anything ran.
proof fn lemma_independent_seed(st: Seq<PipelineStage>, t: Seq<Seq<Option<usize>>>, a: int)
    requires
        targets_ok(st, t),
        0 <= a < st.len(),
        independent(st, a),
    ensures
        pending(t[a], Set::empty()) == 0,
{
    lemma_pending_zero(t[a], Set::empty(), t[a].len() as int);
    assert forall|m: int| 0 <= m < t[a].len() implies match #[trigger] t[a][m] {
        Some(j) => Set::<usize>::empty().contains(j),
        None => true,
    } by {
        if t[a][m] is Some {
            let j = t[a][m]->0;
            lemma_depends_via_targets(st, t, a, j);
            assert(depends(st, a, j as int));
        }
    }
}

/// The resolution table, each row taken by its view.
pub open spec fn table_view(t: Seq<Vec<Option<usize>>>) -> Seq<Seq<Option<usize>>> {
    t.map_values(|row: Vec<Option<usize>>| row@)
}

/// Number of entries of `row` that name a stage at all.
fn count_resolved(row: &Vec<Option<usize>>) -> (c: usize)
    ensures
        c == pending(row@, Set::empty()),
        c <= row@.len(),
{
    let mut c: usize = 0;
    for k in 0..row.len()
        invariant
            c == pending_upto(row@, Set::empty(), k as int),
            c <= k,
    {
        if row[k].is_some() {
            c += 1;
        }
    }
    c
}

/// Number of entries of `row` that name stage `u`.
fn count_naming(row: &Vec<Option<usize>>, u: usize) -> (c: usize)
    ensures
        c == count_upto(row@, u, row@.len() as int),
{
    let mut c: usize = 0;
    for k in 0..row.len()
        invariant
            c == count_upto(row@, u, k as int),
            c <= k,
    {
        if row[k] == Some(u) {
            c += 1;
        }
    }
    c
}

proof fn lemma_push_contains<T>(s: Seq<T>, x: T)
    ensures
        forall|a: T| #[trigger] s.push(x).contains(a) <==> (s.contains(a) || a == x),
{
    assert forall|a: T| #[trigger] s.push(x).contains(a) <==> (s.contains(a) || a == x) by {
        if s.push(x).contains(a) {
            let p = choose|p: int| 0 <= p < s.push(x).len() && s.push(x)[p] == a;
            if p < s.len() {
                assert(s[p] == a);
            }
        }
        if s.contains(a) {
            let p = choose|p: int| 0 <= p < s.len() && s[p] == a;
            assert(s.push(x)[p] == a);
        }
        if a == x {
            assert(s.push(x)[s.len() as int] == a);
        }
    }
}

/// Extending a dependency-respecting sequence by a stage whose dependencies
/// all occur in it keeps it dependency-respecting.
proof fn lemma_deps_first_push(st: Seq<PipelineStage>, s: Seq<usize>, x: usize)
    requires
        deps_come_first(st, s),
        forall|j: int| #[trigger] depends(st, x as int, j) ==> exists|q: int| 0 <= q < s.len() && s[q] == j,
    ensures
        deps_come_first(st, s.push(x)),
{
    let s2 = s.push(x);
    assert forall|p: int, j: int| 0 <= p < s2.len() && #[trigger] depends(st, s2[p] as int, j) implies exists|q: int|
        0 <= q < p && s2[q] == j by {
        if p < s.len() {
            assert(s2[p] == s[p]);
            let q = choose|q: int| 0 <= q < p && s[q] == j;
            assert(s2[q] == s[q]);
        } else {
            assert(s2[p] == x);
            let q = choose|q: int| 0 <= q < s.len() && s[q] == j;
            assert(s2[q] == s[q]);
        }
    }
}

/// A stage becomes ready after one position only.
proof fn lemma_release_unique(st: Seq<PipelineStage>, ord: Seq<usize>, p: int, r1: int, r2: int)
    requires
        ord.no_duplicates(),
        0 <= p < ord.len(),
        released_at(st, ord, p, r1),
        released_at(st, ord, p, r2),
    ensures
        r1 == r2,
{
    if r1 < r2 {
        assert(depends(st, ord[p] as int, ord[r2] as int));
        let q = choose|q: int| 0 <= q <= r1 && ord[q] == ord[r2] as int;
        assert(ord[q] == ord[r2]);
    } else if r2 < r1 {
        assert(depends(st, ord[p] as int, ord[r1] as int));
        let q = choose|q: int| 0 <= q <= r2 && ord[q] == ord[r1] as int;
        assert(ord[q] == ord[r1]);
    }
}

/// When a stage became ready does not change as the order grows behind it.
proof fn lemma_release_push(st: Seq<PipelineStage>, s: Seq<usize>, x: usize, p: int, r: int)
    requires
        0 <= p < s.len(),
    ensures
        released_at(st, s.push(x), p, r) == released_at(st, s, p, r),
{
    let s2 = s.push(x);
    assert(s2[p] == s[p]);
    if released_at(st, s, p, r) {
        assert forall|j: int| #[trigger] depends(st, s2[p] as int, j) implies exists|q: int| 0 <= q <= r && s2[q] == j by {
            let q = choose|q: int| 0 <= q <= r && s[q] == j;
            assert(s2[q] == s[q]);
        }
        if r >= 0 {
            assert(s2[r] == s[r]);
        }
    }
    if released_at(st, s2, p, r) {
        assert forall|j: int| #[trigger] depends(st, s[p] as int, j) implies exists|q: int| 0 <= q <= r && s[q] == j by {
            let q = choose|q: int| 0 <= q <= r && s2[q] == j;
            assert(s2[q] == s[q]);
        }
        if r >= 0 {
            assert(s2[r] == s[r]);
        }
    }
}

/// Two orders that both run every stage after its dependencies and first
/// in first out are the same order: `topological_order` lists the stages,
/// and `execution_plan` groups them into waves, in one and the same order.
pub proof fn law_first_in_first_out_unique(st: Seq<PipelineStage>, o1: Seq<usize>, o2: Seq<usize>)
    requires
        is_execution_order(st, o1),
        is_execution_order(st, o2),
        first_in_first_out(st, o1),
        first_in_first_out(st, o2),
    ensures
        o1 == o2,
{
    let n = st.len() as int;
    assert forall|k: int| 0 <= k < n implies o1[k] == o2[k] by {
        lemma_fifo_prefix(st, o1, o2, k + 1);
        assert(o1.take(k + 1)[k] == o2.take(k + 1)[k]);
    }
    assert(o1 =~= o2);
}

/// Two first-in-first-out execution orders agree on their first `k` stages.
proof fn lemma_fifo_prefix(st: Seq<PipelineStage>, o1: Seq<usize>, o2: Seq<usize>, k: int)
    requires
        is_execution_order(st, o1),
        is_execution_order(st, o2),
        first_in_first_out(st, o1),
        first_in_first_out(st, o2),
        0 <= k <= st.len(),
    ensures
        o1.take(k) == o2.take(k),
    decreases k,
{
    if k > 0 {
        let m = k - 1;
        lemma_fifo_prefix(st, o1, o2, m);
        let x = o1[m];
        let y = o2[m];
        if x != y {
            // Where each stands in the other order.
            assert(o2.contains(x));
            assert(o1.contains(y));
            let p2 = choose|p: int| 0 <= p < o2.len() && o2[p] == x;
            let p1 = choose|p: int| 0 <= p < o1.len() && o1[p] == y;
            assert forall|q: int| 0 <= q < m implies o1[q] == o2[q] by {
                assert(o1.take(m)[q] == o2.take(m)[q]);
            }
            if p2 < m {
                assert(o1[p2] == x);
            }
            if p1 < m {
                assert(o2[p1] == y);
            }
            assert(p2 > m && p1 > m);
            assert(becomes_ready(st, o1, m));
            assert(becomes_ready(st, o2, m));
            let r1 = choose|r: int| released_at(st, o1, m, r);
            let r2 = choose|r: int| released_at(st, o2, m, r);
            // x becomes ready in o2 after the same position as in o1.
            assert(released_at(st, o2, p2, r1)) by {
                assert forall|j: int| #[trigger] depends(st, o2[p2] as int, j) implies exists|q: int| 0 <= q <= r1 && o2[q] == j by {
                    let q = choose|q: int| 0 <= q <= r1 && o1[q] == j;
                    assert(o1[q] == o2[q]);
                }
                if r1 >= 0 {
                    assert(o1[r1] == o2[r1]);
                }
            }
            assert(released_at(st, o1, p1, r2)) by {
                assert forall|j: int| #[trigger] depends(st, o1[p1] as int, j) implies exists|q: int| 0 <= q <= r2 && o1[q] == j by {
                    let q = choose|q: int| 0 <= q <= r2 && o2[q] == j;
                    assert(o1[q] == o2[q]);
                }
                if r2 >= 0 {
                    assert(o1[r2] == o2[r2]);
                }
            }
            assert(false);
        }
        assert(o1.take(k) =~= o2.take(k)) by {
            assert forall|q: int| 0 <= q < k implies o1.take(k)[q] == o2.take(k)[q] by {
                if q < m {
                    assert(o1.take(m)[q] == o2.take(m)[q]);
                }
            }
        }
    }
}

/// The stage at position `p` of `ord` becomes ready before position `h`.
pub open spec fn ready_before(st: Seq<PipelineStage>, ord: Seq<usize>, p: int, h: int) -> bool {
    exists|r: int| r < h && released_at(st, ord, p, r)
}

/// A stage with nothing pending before anything ran depends on no stage.
proof fn lemma_seed_independent(st: Seq<PipelineStage>, t: Seq<Seq<Option<usize>>>, a: int)
    requires
        targets_ok(st, t),
        0 <= a < st.len(),
        pending(t[a], Set::empty()) == 0,
    ensures
        independent(st, a),
{
    lemma_pending_zero(t[a], Set::empty(), t[a].len() as int);
    assert forall|j: int| !depends(st, a, j) by {
        if depends(st, a, j) {
            let k = choose|k: int| 0 <= k < st[a].depends_on@.len() && names_stage(st, #[trigger] st[a].depends_on@[k]@, j);
            let jj = j as usize;
            lemma_depends_via_targets(st, t, a, jj);
            assert(t[a][k] == Some(jj));
        }
    }
}

/// A stage whose last pending dependency is the stage at position `h`
/// becomes ready after `h`.
proof fn lemma_release_new(st: Seq<PipelineStage>, t: Seq<Seq<Option<usize>>>, queue: Seq<usize>, h: int, x: usize)
    requires
        targets_ok(st, t),
        x < st.len(),
        0 <= h < queue.len(),
        pending(t[x as int], queue.subrange(0, h + 1).to_set()) == 0,
        exists|k: int| 0 <= k < t[x as int].len() && t[x as int][k] == Some(queue[h]),
    ensures
        released_at(st, queue.push(x), queue.len() as int, h),
{
    let q2 = queue.push(x);
    let done = queue.subrange(0, h + 1).to_set();
    lemma_pending_zero(t[x as int], done, t[x as int].len() as int);
    assert(q2[queue.len() as int] == x);
    assert forall|j: int| #[trigger] depends(st, q2[queue.len() as int] as int, j) implies exists|q: int|
        0 <= q <= h && q2[q] == j by {
        let k = choose|k: int| 0 <= k < st[x as int].depends_on@.len() && names_stage(st, #[trigger] st[x as int].depends_on@[k]@, j);
        let jj = j as usize;
        lemma_depends_via_targets(st, t, x as int, jj);
        assert(t[x as int][k] == Some(jj));
        assert(done.contains(jj));
        let pre = queue.subrange(0, h + 1);
        assert(pre.contains(jj));
        let q = choose|q: int| 0 <= q < pre.len() && pre[q] == jj;
        assert(pre[q] == queue[q]);
        assert(q2[q] == queue[q]);
    }
    lemma_depends_via_targets(st, t, x as int, queue[h]);
    assert(q2[h] == queue[h]);
}

/// Appending a stage that becomes ready after position `h`, and after
/// every stage appended since `h` was taken, keeps the order first in
/// first out.
proof fn lemma_fifo_push(st: Seq<PipelineStage>, queue: Seq<usize>, x: usize, h: int, len0: int)
    requires
        queue.push(x).no_duplicates(),
        first_in_first_out(st, queue),
        0 <= h < len0 <= queue.len(),
        forall|p: int| 0 <= p < len0 ==> #[trigger] ready_before(st, queue, p, h),
        forall|p: int| len0 <= p < queue.len() ==> released_at(st, queue, p, h) && queue[p] < x,
        released_at(st, queue.push(x), queue.len() as int, h),
    ensures
        first_in_first_out(st, queue.push(x)),
        forall|p: int| 0 <= p < len0 ==> #[trigger] ready_before(st, queue.push(x), p, h),
        forall|p: int| len0 <= p < queue.push(x).len() ==> released_at(st, queue.push(x), p, h),
{
    let q2 = queue.push(x);
    let n = queue.len() as int;
    assert forall|p: int| 0 <= p < n implies #[trigger] becomes_ready(st, q2, p) by {
        assert(becomes_ready(st, queue, p));
        let r = choose|r: int| released_at(st, queue, p, r);
        lemma_release_push(st, queue, x, p, r);
        assert(released_at(st, q2, p, r));
    }
    assert forall|p: int| 0 <= p < len0 implies #[trigger] ready_before(st, q2, p, h) by {
        assert(ready_before(st, queue, p, h));
        let r2 = choose|r2: int| r2 < h && released_at(st, queue, p, r2);
        lemma_release_push(st, queue, x, p, r2);
        assert(released_at(st, q2, p, r2));
    }
    assert forall|p: int| len0 <= p < q2.len() implies released_at(st, q2, p, h) by {
        if p < n {
            lemma_release_push(st, queue, x, p, h);
        }
    }
    assert(becomes_ready(st, q2, n));
    assert forall|p: int, q: int, rp: int, rq: int|
        0 <= p < q < q2.len() && #[trigger] released_at(st, q2, p, rp) && #[trigger] released_at(st, q2, q, rq)
            implies rp < rq || (rp == rq && q2[p] < q2[q]) by {
        lemma_release_push(st, queue, x, p, rp);
        assert(queue.no_duplicates()) by {
            assert forall|a: int, b: int| 0 <= a < b < queue.len() implies queue[a] != queue[b] by {
                assert(q2[a] == queue[a] && q2[b] == queue[b]);
            }
        }
        if q < n {
            lemma_release_push(st, queue, x, q, rq);
        } else {
            lemma_release_unique(st, q2, q, rq, h);
            if p < len0 {
                assert(ready_before(st, queue, p, h));
                let r2 = choose|r2: int| r2 < h && released_at(st, queue, p, r2);
                lemma_release_unique(st, queue, p, rp, r2);
            } else {
                lemma_release_unique(st, queue, p, rp, h);
                assert(q2[p] == queue[p]);
            }
        }
    }
}

/// Kahn's algorithm, first in first out, over the resolution table.
///
/// Returns the processing queue and the remaining dependency counts: the
/// queue lists stages in dependency order, and each stage left out still
/// waits on another stage left out.
fn kahn(stages: &Vec<PipelineStage>, t: &Vec<Vec<Option<usize>>>) -> (res: (Vec<usize>, Vec<usize>))
    requires
        targets_ok(stages@, table_view(t@)),
    ensures
        res.0@.no_duplicates(),
        forall|p: int| 0 <= p < res.0@.len() ==> res.0@[p] < stages@.len(),
        deps_come_first(stages@, res.0@),
        res.1@.len() == stages@.len(),
        forall|i: usize| i < stages@.len() ==> (res.0@.contains(i) <==> res.1@[i as int] == 0),
        forall|i: usize| i < stages@.len() && !res.0@.contains(i) ==> #[trigger] waits_within(
            stages@,
            left_out(stages@, res.0@),
            i,
        ),
        independent_in_definition_order(stages@, res.0@),
        first_in_first_out(stages@, res.0@),
{
    let ghost st = stages@;
    let ghost tv = table_view(t@);
    let n = stages.len();
    let mut indeg: Vec<usize> = Vec::new();
    let mut queue: Vec<usize> = Vec::new();
    for i in 0..n
        invariant
            n == st.len(),
            tv == table_view(t@),
            tv.len() == n,
            indeg@.len() == i,
            forall|a: int| 0 <= a < i ==> indeg@[a] == pending(tv[a], Set::empty()),
            queue@.no_duplicates(),
            forall|p: int| 0 <= p < queue@.len() ==> queue@[p] < i,
            forall|p: int, q: int| 0 <= p < q < queue@.len() ==> queue@[p] < queue@[q],
            forall|a: usize| a < i ==> (queue@.contains(a) <==> indeg@[a as int] == 0),
    {
        assert(tv[i as int] == t@[i as int]@);
        let c = count_resolved(&t[i]);
        indeg.push(c);
        let ghost q0 = queue@;
        if c == 0 {
            assert(!queue@.contains(i));
            queue.push(i);
        }
        proof {
            lemma_push_contains(q0, i);
        }
    }
    assert(queue@.subrange(0, 0).to_set() =~= Set::<usize>::empty());
    let ghost seeds = queue@;
    assert(independent_in_definition_order(st, seeds)) by {
        assert forall|a: int, b: int|
            0 <= a < b < st.len() && #[trigger] independent(st, a) && #[trigger] independent(st, b)
                implies exists|p: int, q: int| 0 <= p < q < seeds.len() && seeds[p] == a && seeds[q] == b by {
            lemma_independent_seed(st, tv, a);
            lemma_independent_seed(st, tv, b);
            assert(seeds.contains(a as usize));
            assert(seeds.contains(b as usize));
            let p = choose|p: int| 0 <= p < seeds.len() && seeds[p] == a as usize;
            let q = choose|q: int| 0 <= q < seeds.len() && seeds[q] == b as usize;
            if q <= p {
                assert(seeds[q] <= seeds[p]);
            }
        }
    }
    proof {
        assert forall|p: int| 0 <= p < seeds.len() implies #[trigger] released_at(st, seeds, p, -1) by {
            assert(seeds.contains(seeds[p]));
            lemma_seed_independent(st, tv, seeds[p] as int);
            assert(forall|j: int| !depends(st, seeds[p] as int, j));
        }
        assert forall|p: int| 0 <= p < seeds.len() implies #[trigger] ready_before(st, seeds, p, 0) by {
            assert(released_at(st, seeds, p, -1));
        }
        assert forall|p: int| 0 <= p < seeds.len() implies #[trigger] becomes_ready(st, seeds, p) by {
            assert(released_at(st, seeds, p, -1));
        }
        assert forall|p: int, q: int, rp: int, rq: int|
            0 <= p < q < seeds.len() && #[trigger] released_at(st, seeds, p, rp) && #[trigger] released_at(st, seeds, q, rq)
                implies rp < rq || (rp == rq && seeds[p] < seeds[q]) by {
            assert(released_at(st, seeds, p, -1));
            assert(released_at(st, seeds, q, -1));
            lemma_release_unique(st, seeds, p, rp, -1);
            lemma_release_unique(st, seeds, q, rq, -1);
        }
        assert(first_in_first_out(st, seeds));
    }
    let ghost mut done: Set<usize> = Set::empty();
    let mut head: usize = 0;
    proof {
        lemma_distinct_bounded(queue@, n);
    }
    while head < queue.len()
        invariant
            n == st.len(),
            st == stages@,
            tv == table_view(t@),
            tv.len() == n,
            targets_ok(st, tv),
            head <= queue@.len() <= n,
            queue@.no_duplicates(),
            forall|p: int| 0 <= p < queue@.len() ==> queue@[p] < n,
            done == queue@.subrange(0, head as int).to_set(),
            indeg@.len() == n,
            forall|a: int| 0 <= a < n ==> indeg@[a] == pending(tv[a], done),
            forall|a: usize| a < n ==> (queue@.contains(a) <==> pending(tv[a as int], done) == 0),
            deps_come_first(st, queue@.subrange(0, head as int)),
            seeds.len() <= queue@.len(),
            forall|p: int| 0 <= p < seeds.len() ==> queue@[p] == seeds[p],
            independent_in_definition_order(st, seeds),
            first_in_first_out(st, queue@),
            forall|p: int| 0 <= p < queue@.len() ==> #[trigger] ready_before(st, queue@, p, head as int),
        decreases n - head,
    {
        let u = queue[head];
        let ghost old_done = done;
        let ghost prefix = queue@.subrange(0, head as int);
        assert(queue@.contains(u));
        assert(!old_done.contains(u)) by {
            if old_done.contains(u) {
                assert(prefix.contains(u));
                let q = choose|q: int| 0 <= q < prefix.len() && prefix[q] == u;
                assert(queue@[q] == queue@[head as int]);
            }
        }
        proof {
            lemma_pending_zero(tv[u as int], old_done, tv[u as int].len() as int);
            assert forall|j: int| #[trigger] depends(st, u as int, j) implies exists|q: int|
                0 <= q < prefix.len() && prefix[q] == j by {
                let k = choose|k: int| 0 <= k < st[u as int].depends_on@.len() && names_stage(st, #[trigger] st[u as int].depends_on@[k]@, j);
                let jj = j as usize;
                lemma_depends_via_targets(st, tv, u as int, jj);
                assert(tv[u as int][k] == Some(jj));
                assert(old_done.contains(jj));
                assert(prefix.contains(jj));
            }
            lemma_deps_first_push(st, prefix, u);
            assert(queue@.subrange(0, head + 1) =~= prefix.push(u));
            lemma_push_contains(prefix, u);
            assert(queue@.subrange(0, head + 1).to_set() =~= old_done.insert(u));
        }
        head += 1;
        proof {
            done = old_done.insert(u);
        }
        let ghost prefix2 = queue@.subrange(0, head as int);
        let ghost len0 = queue@.len() as int;
        for i in 0..n
            invariant
                n == st.len(),
                st == stages@,
                tv == table_view(t@),
                tv.len() == n,
                targets_ok(st, tv),
                u < n,
                1 <= head,
                head - 1 < len0 <= queue@.len(),
                queue@[head - 1] == u,
                done == prefix2.to_set(),
                first_in_first_out(st, queue@),
                forall|p: int| 0 <= p < len0 ==> #[trigger] ready_before(st, queue@, p, head - 1),
                forall|p: int| len0 <= p < queue@.len() ==> released_at(st, queue@, p, head - 1) && queue@[p] < i,
                !old_done.contains(u),
                done == old_done.insert(u),
                head <= queue@.len() <= n,
                queue@.subrange(0, head as int) == prefix2,
                seeds.len() <= queue@.len(),
                forall|p: int| 0 <= p < seeds.len() ==> queue@[p] == seeds[p],
                queue@.no_duplicates(),
                forall|p: int| 0 <= p < queue@.len() ==> queue@[p] < n,
                indeg@.len() == n,
                forall|a: int| 0 <= a < i ==> indeg@[a] == pending(tv[a], done),
                forall|a: int| i <= a < n ==> indeg@[a] == pending(tv[a], old_done),
                forall|a: usize| a < n ==> (queue@.contains(a) <==> (if a < i {
                    pending(tv[a as int], done) == 0
                } else {
                    pending(tv[a as int], old_done) == 0
                })),
        {
            assert(tv[i as int] == t@[i as int]@);
            let c = count_naming(&t[i], u);
            proof {
                lemma_pending_insert(tv[i as int], old_done, u, tv[i as int].len() as int);
            }
            let ghost q_before = queue@;
            proof {
                lemma_push_contains(q_before, i);
                lemma_count_positive(tv[i as int], u, tv[i as int].len() as int);
            }
            if c > 0 {
                indeg.set(i, indeg[i] - c);
                if indeg[i] == 0 {
                    assert(!queue@.contains(i));
                    let ghost q0 = queue@;
                    queue.push(i);
                    assert(queue@.subrange(0, head as int) =~= q0.subrange(0, head as int));
                    assert forall|a: usize| a < n && #[trigger] queue@.contains(a) implies (a == i || q0.contains(a)) by {
                        let p = choose|p: int| 0 <= p < queue@.len() && queue@[p] == a;
                        if p < q0.len() {
                            assert(q0[p] == a);
                        }
                    }
                    assert(q0.contains(i) == false);
                    proof {
                        lemma_distinct_bounded(queue@, n);
                        assert(pending(tv[i as int], done) == 0);
                        assert(q0.subrange(0, head as int) == prefix2);
                        lemma_release_new(st, tv, q0, head - 1, i);
                        lemma_fifo_push(st, q0, i, head - 1, len0);
                    }
                }
            }
        }
        proof {
            assert forall|p: int| 0 <= p < queue@.len() implies #[trigger] ready_before(st, queue@, p, head as int) by {
                if p < len0 {
                    assert(ready_before(st, queue@, p, head - 1));
                    let r = choose|r: int| r < head - 1 && released_at(st, queue@, p, r);
                    assert(released_at(st, queue@, p, r));
                } else {
                    assert(released_at(st, queue@, p, head - 1));
                }
            }
        }
    }
    proof {
        assert forall|a: int, b: int|
            0 <= a < b < st.len() && #[trigger] independent(st, a) && #[trigger] independent(st, b)
                implies exists|p: int, q: int| 0 <= p < q < queue@.len() && queue@[p] == a && queue@[q] == b by {
            let (p, q) = choose|p: int, q: int| 0 <= p < q < seeds.len() && seeds[p] == a && seeds[q] == b;
            assert(queue@[p] == seeds[p] && queue@[q] == seeds[q]);
        }
        assert(queue@.subrange(0, head as int) =~= queue@);
        assert forall|i: usize| i < n && !queue@.contains(i) implies #[trigger] waits_within(
            st,
            left_out(st, queue@),
            i,
        ) by {
            lemma_pending_zero(tv[i as int], done, tv[i as int].len() as int);
            let k = choose|k: int| 0 <= k < tv[i as int].len() && !match #[trigger] tv[i as int][k] {
                Some(j) => done.contains(j),
                None => true,
            };
            let j = tv[i as int][k]->0;
            assert(!queue@.contains(j));
            lemma_depends_via_targets(st, tv, i as int, j);
            assert(names_stage(st, st[i as int].depends_on@[k]@, j as int));
            assert(left_out(st, queue@).contains(j));
        }
    }
    (queue, indeg)
}

/// No order can run a stage that waits on a stuck stage: descending
/// through the positions of stuck stages never ends.
proof fn lemma_stuck_never_runs(st: Seq<PipelineStage>, ord: Seq<usize>, stuck: Set<usize>, p: int)
    requires
        deps_come_first(st, ord),
        forall|i: usize| stuck.contains(i) ==> #[trigger] waits_within(st, stuck, i),
        0 <= p < ord.len(),
    ensures
        !stuck.contains(ord[p]),
    decreases p,
{
    let i = ord[p];
    if stuck.contains(i) {
        assert(waits_within(st, stuck, i));
        let j = choose|j: usize| stuck.contains(j) && depends(st, i as int, j as int);
        let q = choose|q: int| 0 <= q < p && ord[q] == j as int;
        lemma_stuck_never_runs(st, ord, stuck, q);
    }
}

/// A pipeline with a nonempty stuck set has no execution order.
pub proof fn lemma_stuck_not_schedulable(st: Seq<PipelineStage>, stuck: Set<usize>, x: usize)
    requires
        is_stuck_set(st, stuck),
        stuck.contains(x),
    ensures
        !schedulable(st),
{
    if schedulable(st) {
        let ord = choose|ord: Seq<usize>| is_execution_order(st, ord);
        assert(ord.contains(x));
        let p = choose|p: int| 0 <= p < ord.len() && ord[p] == x;
        lemma_stuck_never_runs(st, ord, stuck, p);
    }
}

/// The names of the stages left out of `queue`, in stage order.
fn unscheduled_names(stages: &Vec<PipelineStage>, queue: &Vec<usize>, indeg: &Vec<usize>) -> (names: Vec<String>)
    requires
        indeg@.len() == stages@.len(),
        forall|a: usize| a < stages@.len() ==> (queue@.contains(a) <==> indeg@[a as int] == 0),
    ensures
        names@.map_values(|s: String| s@) == names_in(
            stages@,
            Set::new(|i: usize| i < stages@.len() && !queue@.contains(i)),
            stages@.len() as int,
        ),
{
    let ghost st = stages@;
    let ghost stuck = Set::new(|i: usize| i < stages@.len() && !queue@.contains(i));
    let n = stages.len();
    let mut names: Vec<String> = Vec::new();
    for i in 0..n
        invariant
            n == st.len(),
            st == stages@,
            indeg@.len() == n,
            forall|a: usize| a < n ==> (queue@.contains(a) <==> indeg@[a as int] == 0),
            stuck == Set::new(|i: usize| i < n && !queue@.contains(i)),
            names@.map_values(|s: String| s@) == names_in(st, stuck, i as int),
    {
        assert(stuck.contains(i) <==> indeg@[i as int] > 0);
        if indeg[i] > 0 {
            let ghost before = names@;
            let nm = stages[i].name.clone();
            names.push(nm);
            assert(names@ == before.push(nm));
            assert(names@.map_values(|s: String| s@) =~= before.map_values(|s: String| s@).push(nm@));
        }
    }
    names
}

/// The stage names of an execution order.
fn names_of_order(stages: &Vec<PipelineStage>, queue: &Vec<usize>) -> (order: Vec<String>)
    requires
        forall|q: int| 0 <= q < queue@.len() ==> queue@[q] < stages@.len(),
    ensures
        order@.len() == queue@.len(),
        forall|q: int| 0 <= q < queue@.len() ==> #[trigger] order@[q]@ == stages@[queue@[q] as int].name@,
{
    let mut order: Vec<String> = Vec::new();
    for p in 0..queue.len()
        invariant
            forall|q: int| 0 <= q < queue@.len() ==> queue@[q] < stages@.len(),
            order@.len() == p,
            forall|q: int| 0 <= q < p ==> #[trigger] order@[q]@ == stages@[queue@[q] as int].name@,
    {
        order.push(stages[queue[p]].name.clone());
    }
    order
}

/// What Kahn's algorithm leaves out is a stuck set.
proof fn lemma_kahn_stuck(st: Seq<PipelineStage>, queue: Seq<usize>)
    requires
        queue.no_duplicates(),
        forall|p: int| 0 <= p < queue.len() ==> queue[p] < st.len(),
        deps_come_first(st, queue),
        forall|i: usize| i < st.len() && !queue.contains(i) ==> #[trigger] waits_within(st, left_out(st, queue), i),
    ensures
        is_stuck_set(st, left_out(st, queue)),
{
    let stuck = left_out(st, queue);
    assert forall|i: usize| stuck.contains(i) implies #[trigger] waits_within(st, stuck, i) by {
        assert(i < st.len() && !queue.contains(i));
    }
}

/// The facts Kahn's algorithm establishes about its queue.
#[verifier::opaque]
pub open spec fn kahn_result(st: Seq<PipelineStage>, queue: Seq<usize>, indeg: Seq<usize>) -> bool {
    &&& queue.no_duplicates()
    &&& forall|p: int| 0 <= p < queue.len() ==> queue[p] < st.len()
    &&& deps_come_first(st, queue)
    &&& indeg.len() == st.len()
    &&& forall|i: usize| i < st.len() ==> (queue.contains(i) <==> indeg[i as int] == 0)
    &&& forall|i: usize| i < st.len() && !queue.contains(i) ==> #[trigger] waits_within(st, left_out(st, queue), i)
}

/// When Kahn's queue leaves a stage out, the left-out stages form a nonempty
/// stuck set.
proof fn lemma_kahn_cycle(st: Seq<PipelineStage>, queue: Seq<usize>, indeg: Seq<usize>, n: usize) -> (x: usize)
    requires
        n == st.len(),
        kahn_result(st, queue, indeg),
        queue.len() != st.len(),
    ensures
        is_stuck_set(st, left_out(st, queue)),
        left_out(st, queue).contains(x),
        !schedulable(st),
{
    reveal(kahn_result);
    let stuck = left_out(st, queue);
    lemma_distinct_bounded(queue, n);
    assert(!forall|i: usize| i < n ==> queue.contains(i));
    let x = choose|x: usize| !(x < n ==> queue.contains(x));
    assert(stuck.contains(x));
    lemma_kahn_stuck(st, queue);
    lemma_stuck_not_schedulable(st, stuck, x);
    x
}

/// The cycle error for a queue that left some stages out.
fn cyclic_error(stages: &Vec<PipelineStage>, queue: &Vec<usize>, indeg: &Vec<usize>) -> (e: ComposerError)
    requires
        kahn_result(stages@, queue@, indeg@),
        queue@.len() != stages@.len(),
    ensures
        !schedulable(stages@),
        exists|stuck: Set<usize>| {
            &&& is_stuck_set(stages@, stuck)
            &&& exists|x: usize| stuck.contains(x)
            &&& e matches ComposerError::CyclicDependency(detail)
            &&& detail@ == join(names_in(stages@, stuck, stages@.len() as int), ", "@)
        },
{
    let ghost st = stages@;
    let ghost stuck = left_out(st, queue@);
    let ghost x = lemma_kahn_cycle(st, queue@, indeg@, stages.len());
    assert(indeg@.len() == stages@.len() && forall|a: usize| a < stages@.len() ==> (queue@.contains(a) <==> indeg@[a as int] == 0)) by {
        reveal(kahn_result);
    }
    let remaining = unscheduled_names(stages, queue, indeg);
    let detail = join_strings(&remaining, ", ");
    let e = ComposerError::CyclicDependency(detail);
    assert(stuck.contains(x));
    assert(is_stuck_set(st, stuck));
    e
}

/// Stage indices in the order Kahn's algorithm runs them, or the cycle error.
fn schedule(definition: &PipelineDefinition) -> (r: Result<Vec<usize>, ComposerError>)
    ensures
        r is Ok <==> schedulable(definition.stages@),
        match r {
            Ok(queue) => is_execution_order(definition.stages@, queue@)
                && independent_in_definition_order(definition.stages@, queue@)
                && first_in_first_out(definition.stages@, queue@),
            Err(e) => is_cycle_error(definition.stages@, e),
        },
{
    let ghost st = definition.stages@;
    let n = definition.stages.len();
    let t = dependency_targets(&definition.stages);
    let (queue, indeg) = kahn(&definition.stages, &t);
    assert(kahn_result(st, queue@, indeg@)) by {
        reveal(kahn_result);
    }
    if queue.len() != n {
        return Err(cyclic_error(&definition.stages, &queue, &indeg));
    }
    proof {
        reveal(kahn_result);
        lemma_distinct_bounded(queue@, n);
    }
    assert(is_execution_order(st, queue@));
    Ok(queue)
}

/// Returns stage names in a valid topological execution order using Kahn's algorithm.
///
/// The order is first in first out: stages run in the order in which they
/// become ready, and stages that become ready together in the order they
/// were added; only one execution order is so, the one `execution_plan`
/// groups into waves. Stages that depend on no other stage keep, among
/// themselves, the order in which they were added. Errors if the dependency graph contains a cycle;
/// the error names, in stage order and separated by ", ", the stages that
/// can never run.
pub fn topological_order(definition: &PipelineDefinition) -> (r: Result<Vec<String>, ComposerError>)
    ensures
        r is Ok <==> schedulable(definition.stages@),
        match r {
            Ok(order) => exists|ord: Seq<usize>| {
                &&& is_execution_order(definition.stages@, ord)
                &&& independent_in_definition_order(definition.stages@, ord)
                &&& first_in_first_out(definition.stages@, ord)
                &&& order@.len() == ord.len()
                &&& forall|p: int| 0 <= p < ord.len() ==> #[trigger] order@[p]@
                    == definition.stages@[ord[p] as int].name@
            },
            Err(e) => is_cycle_error(definition.stages@, e),
        },
{
    match schedule(definition) {
        Ok(queue) => {
            let order = names_of_order(&definition.stages, &queue);
            Ok(order)
        },
        Err(e) => Err(e),
    }
}

/// Stage `i` repeats the name of an earlier stage.
pub open spec fn repeats_name(st: Seq<PipelineStage>, i: int) -> bool {
    exists|j: int| 0 <= j < i && st[j].name@ == st[i].name@
}

/// Some stage is called `d`.
pub open spec fn has_stage_named(st: Seq<PipelineStage>, d: Seq<char>) -> bool {
    exists|j: int| 0 <= j < st.len() && st[j].name@ == d
}

/// Entry `k` of stage `i`'s `depends_on` names no stage.
pub open spec fn dangling(st: Seq<PipelineStage>, i: int, k: int) -> bool {
    0 <= k < st[i].depends_on@.len() && !has_stage_named(st, st[i].depends_on@[k]@)
}

pub open spec fn no_repeated_names(st: Seq<PipelineStage>) -> bool {
    forall|i: int| 0 <= i < st.len() ==> !#[trigger] repeats_name(st, i)
}

pub open spec fn no_dangling(st: Seq<PipelineStage>) -> bool {
    forall|i: int, k: int| 0 <= i < st.len() ==> !#[trigger] dangling(st, i, k)
}

pub open spec fn has_phase(st: Seq<PipelineStage>, t: PhaseType) -> bool {
    exists|i: int| 0 <= i < st.len() && st[i].phase_type == t
}

/// The outcome of `topological_order` when it fails: the stuck stages, named.
pub open spec fn is_cycle_error(st: Seq<PipelineStage>, e: ComposerError) -> bool {
    exists|stuck: Set<usize>| {
        &&& is_stuck_set(st, stuck)
        &&& exists|x: usize| stuck.contains(x)
        &&& e matches ComposerError::CyclicDependency(detail)
        &&& detail@ == join(names_in(st, stuck, st.len() as int), ", "@)
    }
}

/// A pipeline has only one stuck set.
proof fn lemma_stuck_set_unique(st: Seq<PipelineStage>, s1: Set<usize>, s2: Set<usize>)
    requires
        is_stuck_set(st, s1),
        is_stuck_set(st, s2),
    ensures
        s1 == s2,
{
    let o1 = choose|ord: Seq<usize>| {
        &&& ord.no_duplicates()
        &&& forall|i: usize| i < st.len() ==> (ord.contains(i) <==> !s1.contains(i))
        &&& forall|p: int| 0 <= p < ord.len() ==> ord[p] < st.len()
        &&& deps_come_first(st, ord)
    };
    let o2 = choose|ord: Seq<usize>| {
        &&& ord.no_duplicates()
        &&& forall|i: usize| i < st.len() ==> (ord.contains(i) <==> !s2.contains(i))
        &&& forall|p: int| 0 <= p < ord.len() ==> ord[p] < st.len()
        &&& deps_come_first(st, ord)
    };
    assert forall|x: usize| s2.contains(x) implies s1.contains(x) by {
        if !s1.contains(x) {
            assert(o1.contains(x));
            let p = choose|p: int| 0 <= p < o1.len() && o1[p] == x;
            lemma_stuck_never_runs(st, o1, s2, p);
        }
    }
    assert forall|x: usize| s1.contains(x) implies s2.contains(x) by {
        if !s2.contains(x) {
            assert(o2.contains(x));
            let p = choose|p: int| 0 <= p < o2.len() && o2[p] == x;
            lemma_stuck_never_runs(st, o2, s1, p);
        }
    }
    assert(s1 =~= s2);
}

/// A pipeline that cannot be ordered has one cycle error: `topological_order`,
/// `validate_pipeline` and `execution_plan` report the same text.
pub proof fn law_cycle_error_unique(st: Seq<PipelineStage>, e1: ComposerError, e2: ComposerError)
    requires
        is_cycle_error(st, e1),
        is_cycle_error(st, e2),
    ensures
        e1 matches ComposerError::CyclicDependency(d1) && e2 matches ComposerError::CyclicDependency(d2) && d1@ == d2@,
{
    let s1 = choose|stuck: Set<usize>| {
        &&& is_stuck_set(st, stuck)
        &&& exists|x: usize| stuck.contains(x)
        &&& e1 matches ComposerError::CyclicDependency(detail)
        &&& detail@ == join(names_in(st, stuck, st.len() as int), ", "@)
    };
    let s2 = choose|stuck: Set<usize>| {
        &&& is_stuck_set(st, stuck)
        &&& exists|x: usize| stuck.contains(x)
        &&& e2 matches ComposerError::CyclicDependency(detail)
        &&& detail@ == join(names_in(st, stuck, st.len() as int), ", "@)
    };
    lemma_stuck_set_unique(st, s1, s2);
}

/// The first stage that repeats an earlier name, if any.
fn find_repeated_name(stages: &Vec<PipelineStage>) -> (r: Option<usize>)
    ensures
        match r {
            Some(i) => i < stages@.len() && repeats_name(stages@, i as int)
                && forall|a: int| 0 <= a < i ==> !#[trigger] repeats_name(stages@, a),
            None => no_repeated_names(stages@),
        },
{
    for i in 0..stages.len()
        invariant
            forall|a: int| 0 <= a < i ==> !#[trigger] repeats_name(stages@, a),
    {
        for j in 0..i
            invariant
                i < stages@.len(),
                forall|a: int| 0 <= a < i ==> !#[trigger] repeats_name(stages@, a),
                forall|b: int| 0 <= b < j ==> stages@[b].name@ != stages@[i as int].name@,
        {
            if stages[j].name == stages[i].name {
                assert(stages@[j as int].name@ == stages@[i as int].name@);
                return Some(i);
            }
        }
    }
    None
}

/// The first dependency entry, in stage order and then entry order, that
/// names no stage.
fn find_dangling(stages: &Vec<PipelineStage>) -> (r: Option<(usize, usize)>)
    ensures
        match r {
            Some((i, k)) => i < stages@.len() && dangling(stages@, i as int, k as int)
                && (forall|a: int, c: int| 0 <= a < i ==> !#[trigger] dangling(stages@, a, c))
                && (forall|c: int| 0 <= c < k ==> !#[trigger] dangling(stages@, i as int, c)),
            None => no_dangling(stages@),
        },
{
    for i in 0..stages.len()
        invariant
            forall|a: int, c: int| 0 <= a < i ==> !#[trigger] dangling(stages@, a, c),
    {
        let nk = stages[i].depends_on.len();
        for k in 0..nk
            invariant
                nk == stages@[i as int].depends_on@.len(),
                i < stages@.len(),
                forall|a: int, c: int| 0 <= a < i ==> !#[trigger] dangling(stages@, a, c),
                forall|c: int| 0 <= c < k ==> !#[trigger] dangling(stages@, i as int, c),
        {
            let found = resolve_index(stages, &stages[i].depends_on[k]);
            if found.is_none() {
                proof {
                    if has_stage_named(stages@, stages@[i as int].depends_on@[k as int]@) {
                        let d = stages@[i as int].depends_on@[k as int]@;
                        let j0 = choose|j: int| 0 <= j < stages@.len() && stages@[j].name@ == d;
                        lemma_last_named(stages@, d, j0);
                    }
                }
                return Some((i, k));
            }
            proof {
                let j = found->0;
                assert(stages@[j as int].name@ == stages@[i as int].depends_on@[k as int]@);
            }
        }
    }
    None
}

/// A name that some stage has resolves to the last stage with it.
proof fn lemma_last_named(st: Seq<PipelineStage>, d: Seq<char>, j0: int)
    requires
        0 <= j0 < st.len(),
        st[j0].name@ == d,
    ensures
        exists|j: int| names_stage(st, d, j),
    decreases st.len() - j0,
{
    if exists|k: int| j0 < k < st.len() && st[k].name@ == d {
        let k = choose|k: int| j0 < k < st.len() && st[k].name@ == d;
        lemma_last_named(st, d, k);
    } else {
        assert(names_stage(st, d, j0));
    }
}

/// Whether some stage has the given phase type.
fn any_phase(stages: &Vec<PipelineStage>, t: PhaseType) -> (r: bool)
    ensures r == has_phase(stages@, t),
{
    for i in 0..stages.len()
        invariant
            forall|a: int| 0 <= a < i ==> stages@[a].phase_type != t,
    {
        if stages[i].phase_type == t {
            return true;
        }
    }
    false
}

/// Validates that a pipeline definition is well-formed.
///
/// Checks, in this order: non-empty, unique names, all dependencies exist,
/// at least one Source and one Sink stage, no cycles.
pub fn validate_pipeline(definition: &PipelineDefinition) -> (r: Result<(), ComposerError>)
    ensures
        ({
            let st = definition.stages@;
            if st.len() == 0 {
                r matches Err(ComposerError::EmptyPipeline)
            } else if !no_repeated_names(st) {
                exists|i: int| {
                    &&& 0 <= i < st.len()
                    &&& repeats_name(st, i)
                    &&& forall|a: int| 0 <= a < i ==> !#[trigger] repeats_name(st, a)
                    &&& r matches Err(ComposerError::DuplicateStageName(name))
                    &&& name@ == st[i].name@
                }
            } else if !no_dangling(st) {
                exists|i: int, k: int| {
                    &&& 0 <= i < st.len()
                    &&& dangling(st, i, k)
                    &&& forall|a: int, c: int| 0 <= a < i ==> !#[trigger] dangling(st, a, c)
                    &&& forall|c: int| 0 <= c < k ==> !#[trigger] dangling(st, i, c)
                    &&& r matches Err(ComposerError::MissingDependency { stage, dependency })
                    &&& stage@ == st[i].name@
                    &&& dependency@ == st[i].depends_on@[k]@
                }
            } else if !has_phase(st, PhaseType::Source) {
                r matches Err(ComposerError::NoSourceStage)
            } else if !has_phase(st, PhaseType::Sink) {
                r matches Err(ComposerError::NoSinkStage)
            } else if !schedulable(st) {
                r matches Err(e) && is_cycle_error(st, e)
            } else {
                r is Ok
            }
        }),
{
    let stages = &definition.stages;
    if stages.len() == 0 {
        return Err(ComposerError::EmptyPipeline);
    }
    if let Some(i) = find_repeated_name(stages) {
        return Err(ComposerError::DuplicateStageName(stages[i].name.clone()));
    }
    if let Some((i, k)) = find_dangling(stages) {
        return Err(ComposerError::MissingDependency {
            stage: stages[i].name.clone(),
            dependency: stages[i].depends_on[k].clone(),
        });
    }
    if !any_phase(stages, PhaseType::Source) {
        return Err(ComposerError::NoSourceStage);
    }
    if !any_phase(stages, PhaseType::Sink) {
        return Err(ComposerError::NoSinkStage);
    }
    match topological_order(definition) {
        Ok(_) => Ok(()),
        Err(e) => Err(e),
    }
}

/// The latest position before `p` whose stage is called `d`.
pub open spec fn latest_named(st: Seq<PipelineStage>, ord: Seq<usize>, d: Seq<char>, p: int) -> Option<int>
    decreases p,
{
    if p <= 0 {
        None
    } else if st[ord[p - 1] as int].name@ == d {
        Some(p - 1)
    } else {
        latest_named(st, ord, d, p - 1)
    }
}

/// The stage whose dependencies place position `p` of `ord`: the last
/// stage with that position's name.
pub open spec fn plan_stage(st: Seq<PipelineStage>, ord: Seq<usize>, p: int) -> int {
    choose|j: int| names_stage(st, st[ord[p] as int].name@, j)
}

/// The wave of position `p` of `ord`, looking at the first `k` dependencies
/// of its stage: one more than the latest wave among them, 0 with none. A
/// dependency counts with the wave of the latest earlier position of its
/// name.
pub open spec fn dep_wave(st: Seq<PipelineStage>, ord: Seq<usize>, p: int, k: int) -> nat
    decreases p, k,
{
    if k <= 0 || p < 0 || p >= ord.len() {
        0
    } else {
        let d = st[plan_stage(st, ord, p)].depends_on@[k - 1]@;
        let w: nat = match latest_named(st, ord, d, p) {
            Some(q) => if 0 <= q < p {
                dep_wave(st, ord, q, st[plan_stage(st, ord, q)].depends_on@.len() as int) + 1
            } else {
                0
            },
            None => 0,
        };
        let prev = dep_wave(st, ord, p, k - 1);
        if prev >= w {
            prev
        } else {
            w
        }
    }
}

/// The wave computed at position `p` of `ord`: 0 for a stage without
/// dependencies, else one more than the latest wave of a dependency.
pub open spec fn wave_at(st: Seq<PipelineStage>, ord: Seq<usize>, p: int) -> nat {
    dep_wave(st, ord, p, st[plan_stage(st, ord, p)].depends_on@.len() as int)
}

/// The wave that the name at position `p` of `ord` ends up with: the one
/// computed at the last position of that name.
pub open spec fn final_wave(st: Seq<PipelineStage>, ord: Seq<usize>, p: int) -> nat {
    match latest_named(st, ord, st[ord[p] as int].name@, ord.len() as int) {
        Some(q) => wave_at(st, ord, q),
        None => 0,
    }
}

/// Every dependency of every position's stage names a stage at an earlier
/// position: where it does not, the waves cannot be computed.
pub open spec fn lookups_found(st: Seq<PipelineStage>, ord: Seq<usize>) -> bool {
    forall|p: int, k: int|
        0 <= p < ord.len() && 0 <= k < st[plan_stage(st, ord, p)].depends_on@.len() ==> #[trigger] latest_named(
            st,
            ord,
            st[plan_stage(st, ord, p)].depends_on@[k]@,
            p,
        ) is Some
}


/// With distinct stage names and every dependency naming a stage, every
/// execution order lets the waves be computed: each dependency finds an
/// earlier stage of its name. A pipeline that `validate_pipeline` accepts
/// so meets what `execution_plan` requires.
pub proof fn lemma_plan_lookups_found(st: Seq<PipelineStage>, ord: Seq<usize>)
    requires
        no_repeated_names(st),
        no_dangling(st),
        is_execution_order(st, ord),
    ensures
        lookups_found(st, ord),
{
    assert forall|p: int, k: int|
        0 <= p < ord.len() && 0 <= k < st[plan_stage(st, ord, p)].depends_on@.len() implies #[trigger] latest_named(
            st,
            ord,
            st[plan_stage(st, ord, p)].depends_on@[k]@,
            p,
        ) is Some by {
        let i = ord[p] as int;
        assert(names_stage(st, st[i].name@, i)) by {
            assert forall|m: int| i < m < st.len() implies st[m].name@ != st[i].name@ by {
                assert(!repeats_name(st, m));
            }
        }
        lemma_plan_stage(st, ord, p);
        lemma_names_stage_unique(st, st[i].name@, i, plan_stage(st, ord, p));
        let d = st[i].depends_on@[k]@;
        assert(!dangling(st, i, k));
        let j0 = choose|j: int| 0 <= j < st.len() && st[j].name@ == d;
        lemma_last_named(st, d, j0);
        let j = choose|j: int| names_stage(st, d, j);
        assert(depends(st, i, j));
        let q = choose|q: int| 0 <= q < p && ord[q] == j;
        lemma_latest_named(st, ord, d, p);
    }
}

/// The latest wave computed among the first `m` positions of `ord`.
pub open spec fn max_wave(st: Seq<PipelineStage>, ord: Seq<usize>, m: int) -> nat
    decreases m,
{
    if m <= 0 {
        0
    } else {
        let prev = max_wave(st, ord, m - 1);
        let w = wave_at(st, ord, m - 1);
        if prev >= w {
            prev
        } else {
            w
        }
    }
}

/// The names, in `ord` order, of the positions among the first `m` whose
/// name ends up in wave `w`.
pub open spec fn wave_names(st: Seq<PipelineStage>, ord: Seq<usize>, w: int, m: int) -> Seq<Seq<char>>
    decreases m,
{
    if m <= 0 {
        Seq::empty()
    } else if final_wave(st, ord, m - 1) == w {
        wave_names(st, ord, w, m - 1).push(st[ord[m - 1] as int].name@)
    } else {
        wave_names(st, ord, w, m - 1)
    }
}

/// The latest position of a name lies before `p` and carries the name;
/// where an earlier position carries it, there is a latest one.
proof fn lemma_latest_named(st: Seq<PipelineStage>, ord: Seq<usize>, d: Seq<char>, p: int)
    ensures
        latest_named(st, ord, d, p) matches Some(q) ==> 0 <= q < p && st[ord[q] as int].name@ == d,
        (exists|q: int| 0 <= q < p && st[ord[q] as int].name@ == d) ==> latest_named(st, ord, d, p) is Some,
    decreases p,
{
    if p > 0 {
        lemma_latest_named(st, ord, d, p - 1);
        if exists|q: int| 0 <= q < p && st[ord[q] as int].name@ == d {
            let q = choose|q: int| 0 <= q < p && st[ord[q] as int].name@ == d;
            if q < p - 1 {
                assert(exists|q2: int| 0 <= q2 < p - 1 && st[ord[q2] as int].name@ == d);
            }
        }
    }
}

/// One position more changes the latest position of its own name only.
proof fn lemma_latest_named_step(st: Seq<PipelineStage>, ord: Seq<usize>, d: Seq<char>, p: int)
    requires
        0 <= p,
    ensures
        latest_named(st, ord, d, p + 1) == if st[ord[p] as int].name@ == d {
            Some(p)
        } else {
            latest_named(st, ord, d, p)
        },
{
}

/// Only one stage is the last of its name.
proof fn lemma_names_stage_unique(st: Seq<PipelineStage>, d: Seq<char>, j1: int, j2: int)
    requires
        names_stage(st, d, j1),
        names_stage(st, d, j2),
    ensures
        j1 == j2,
{
}

/// The stage that places a position is the last of its name.
proof fn lemma_plan_stage(st: Seq<PipelineStage>, ord: Seq<usize>, p: int)
    requires
        0 <= p < ord.len(),
        ord[p] < st.len(),
    ensures
        names_stage(st, st[ord[p] as int].name@, plan_stage(st, ord, p)),
{
    lemma_last_named(st, st[ord[p] as int].name@, ord[p] as int);
}

/// The wave of `u`'s latest earlier position of name `d`, if any.
pub open spec fn latest_wave(st: Seq<PipelineStage>, ord: Seq<usize>, d: Seq<char>, p: int) -> Option<nat> {
    match latest_named(st, ord, d, p) {
        Some(q) => Some(wave_at(st, ord, q)),
        None => None,
    }
}

/// Computes the wave at every position of the execution order, and the
/// wave each position's name ends up with.
fn stage_waves(stages: &Vec<PipelineStage>, queue: &Vec<usize>) -> (res: (Vec<usize>, Vec<usize>))
    requires
        forall|p: int| 0 <= p < queue@.len() ==> queue@[p] < stages@.len(),
        lookups_found(stages@, queue@),
    ensures
        res.0@.len() == queue@.len(),
        forall|p: int| 0 <= p < queue@.len() ==> #[trigger] res.0@[p] == wave_at(stages@, queue@, p),
        forall|p: int| 0 <= p < queue@.len() ==> res.0@[p] <= p,
        res.1@.len() == queue@.len(),
        forall|p: int| 0 <= p < queue@.len() ==> #[trigger] res.1@[p] == final_wave(stages@, queue@, p),
{
    let ghost st = stages@;
    let ghost ord = queue@;
    let n = stages.len();
    let m = queue.len();
    // `by_last[j]`, for a stage `j` that is the last of its name, is the wave
    // computed at the latest position of that name so far.
    let mut by_last: Vec<Option<usize>> = Vec::new();
    for i in 0..n
        invariant
            by_last@.len() == i,
            forall|j: int| 0 <= j < i ==> by_last@[j] is None,
    {
        by_last.push(None);
    }
    let mut waves: Vec<usize> = Vec::new();
    for p in 0..m
        invariant
            n == st.len(),
            m == ord.len(),
            st == stages@,
            ord == queue@,
            forall|q: int| 0 <= q < m ==> ord[q] < n,
            lookups_found(st, ord),
            by_last@.len() == n,
            waves@.len() == p,
            forall|q: int| 0 <= q < p ==> #[trigger] waves@[q] == wave_at(st, ord, q),
            forall|q: int| 0 <= q < p ==> waves@[q] <= q,
            forall|j: int| 0 <= j < n && #[trigger] names_stage(st, st[j].name@, j) ==> match by_last@[j] {
                Some(v) => latest_wave(st, ord, st[j].name@, p as int) == Some(v as nat),
                None => latest_wave(st, ord, st[j].name@, p as int) is None,
            },
    {
        let i = queue[p];
        let jp = match resolve_index(stages, &stages[i].name) {
            Some(j) => j,
            None => {
                proof {
                    lemma_last_named(st, st[i as int].name@, i as int);
                }
                0
            },
        };
        proof {
            lemma_plan_stage(st, ord, p as int);
            lemma_names_stage_unique(st, st[i as int].name@, jp as int, plan_stage(st, ord, p as int));
        }
        let deps = &stages[jp].depends_on;
        let mut w: usize = 0;
        for k in 0..deps.len()
            invariant
                n == st.len(),
                m == ord.len(),
                st == stages@,
                ord == queue@,
                forall|q: int| 0 <= q < m ==> ord[q] < n,
                lookups_found(st, ord),
                p < m,
                i == ord[p as int],
                jp == plan_stage(st, ord, p as int),
                jp < n,
                deps@ == st[jp as int].depends_on@,
                by_last@.len() == n,
                forall|q: int| 0 <= q < p ==> waves@[q] <= q,
                forall|q: int| 0 <= q < p ==> #[trigger] waves@[q] == wave_at(st, ord, q),
                forall|j: int| 0 <= j < n && #[trigger] names_stage(st, st[j].name@, j) ==> match by_last@[j] {
                    Some(v) => latest_wave(st, ord, st[j].name@, p as int) == Some(v as nat),
                    None => latest_wave(st, ord, st[j].name@, p as int) is None,
                },
                w == dep_wave(st, ord, p as int, k as int),
                w <= p,
        {
            let ghost d = st[jp as int].depends_on@[k as int]@;
            proof {
                assert(latest_named(st, ord, st[plan_stage(st, ord, p as int)].depends_on@[k as int]@, p as int) is Some);
                lemma_latest_named(st, ord, d, p as int);
            }
            let ghost q = latest_named(st, ord, d, p as int)->0;
            let jd = match resolve_index(stages, &deps[k]) {
                Some(j) => j,
                None => {
                    proof {
                        lemma_last_named(st, d, ord[q] as int);
                    }
                    0
                },
            };
            proof {
                assert(st[jd as int].name@ == d);
                assert(names_stage(st, st[jd as int].name@, jd as int));
                assert(waves@[q] == wave_at(st, ord, q));
            }
            let wd = match by_last[jd] {
                Some(v) => v,
                None => 0,
            };
            let cand = wd + 1;
            if cand > w {
                w = cand;
            }
        }
        proof {
            assert forall|j: int| 0 <= j < n && #[trigger] names_stage(st, st[j].name@, j) implies match (if j == jp {
                Some(w)
            } else {
                by_last@[j]
            }) {
                Some(v) => latest_wave(st, ord, st[j].name@, p + 1) == Some(v as nat),
                None => latest_wave(st, ord, st[j].name@, p + 1) is None,
            } by {
                lemma_latest_named_step(st, ord, st[j].name@, p as int);
                if j != jp && st[j].name@ == st[i as int].name@ {
                    lemma_names_stage_unique(st, st[j].name@, j, jp as int);
                }
            }
        }
        by_last.set(jp, Some(w));
        waves.push(w);
    }
    let mut finals: Vec<usize> = Vec::new();
    for p in 0..m
        invariant
            n == st.len(),
            m == ord.len(),
            st == stages@,
            ord == queue@,
            forall|q: int| 0 <= q < m ==> ord[q] < n,
            by_last@.len() == n,
            forall|j: int| 0 <= j < n && #[trigger] names_stage(st, st[j].name@, j) ==> match by_last@[j] {
                Some(v) => latest_wave(st, ord, st[j].name@, m as int) == Some(v as nat),
                None => latest_wave(st, ord, st[j].name@, m as int) is None,
            },
            finals@.len() == p,
            forall|q: int| 0 <= q < p ==> #[trigger] finals@[q] == final_wave(st, ord, q),
    {
        let i = queue[p];
        let jp = match resolve_index(stages, &stages[i].name) {
            Some(j) => j,
            None => {
                proof {
                    lemma_last_named(st, st[i as int].name@, i as int);
                }
                0
            },
        };
        proof {
            lemma_latest_named(st, ord, st[i as int].name@, m as int);
            assert(names_stage(st, st[jp as int].name@, jp as int));
        }
        let f = match by_last[jp] {
            Some(v) => v,
            None => 0,
        };
        finals.push(f);
    }
    (waves, finals)
}

/// The names of the positions whose name ends up in wave `w`, in execution order.
fn names_in_wave(stages: &Vec<PipelineStage>, queue: &Vec<usize>, finals: &Vec<usize>, w: usize) -> (names: Vec<String>)
    requires
        finals@.len() == queue@.len(),
        forall|p: int| 0 <= p < queue@.len() ==> queue@[p] < stages@.len(),
        forall|p: int| 0 <= p < queue@.len() ==> #[trigger] finals@[p] == final_wave(stages@, queue@, p),
    ensures
        views(names@) == wave_names(stages@, queue@, w as int, queue@.len() as int),
{
    let mut names: Vec<String> = Vec::new();
    for p in 0..queue.len()
        invariant
            finals@.len() == queue@.len(),
            forall|q: int| 0 <= q < queue@.len() ==> queue@[q] < stages@.len(),
            forall|q: int| 0 <= q < queue@.len() ==> #[trigger] finals@[q] == final_wave(stages@, queue@, q),
            names@.map_values(|s: String| s@) == wave_names(stages@, queue@, w as int, p as int),
    {
        if finals[p] == w {
            let ghost before = names@;
            let nm = stages[queue[p]].name.clone();
            names.push(nm);
            assert(names@.map_values(|s: String| s@) =~= before.map_values(|s: String| s@).push(nm@));
        }
    }
    names
}

/// Groups stages into execution waves where each wave's stages have all
/// dependencies satisfied by prior waves.
///
/// Stages within the same wave could theoretically run concurrently. The
/// waves follow the first-in-first-out order of `topological_order`; a
/// stage's wave is computed from the last stage of its name, and a
/// dependency counts with the wave of the latest earlier stage of its
/// name. Every dependency must so find an earlier stage, as it does in
/// every pipeline that `validate_pipeline` accepts (`lemma_plan_lookups_found`).
pub fn execution_plan(definition: &PipelineDefinition) -> (r: Result<Vec<Vec<String>>, ComposerError>)
    requires
        forall|ord: Seq<usize>|
            is_execution_order(definition.stages@, ord) && first_in_first_out(definition.stages@, ord)
                ==> #[trigger] lookups_found(definition.stages@, ord),
    ensures
        r is Ok <==> schedulable(definition.stages@),
        match r {
            Ok(waves) => exists|ord: Seq<usize>| {
                &&& is_execution_order(definition.stages@, ord)
                &&& first_in_first_out(definition.stages@, ord)
                &&& waves@.len() == max_wave(definition.stages@, ord, ord.len() as int) + 1
                &&& forall|w: int| 0 <= w < waves@.len() ==> #[trigger] views(waves@[w]@)
                    == wave_names(definition.stages@, ord, w, ord.len() as int)
            },
            Err(e) => is_cycle_error(definition.stages@, e),
        },
{
    let queue = match schedule(definition) {
        Ok(queue) => queue,
        Err(e) => {
            return Err(e);
        },
    };
    let ghost st = definition.stages@;
    let ghost ord = queue@;
    assert(lookups_found(st, ord));
    let (stage_wave, finals) = stage_waves(&definition.stages, &queue);
    let mut top: usize = 0;
    for p in 0..queue.len()
        invariant
            stage_wave@.len() == queue@.len(),
            forall|q: int| 0 <= q < queue@.len() ==> #[trigger] stage_wave@[q] == wave_at(st, ord, q),
            forall|q: int| 0 <= q < queue@.len() ==> stage_wave@[q] <= q,
            ord == queue@,
            top == max_wave(st, ord, p as int),
            top <= p,
            p > 0 ==> top < p,
    {
        if stage_wave[p] > top {
            top = stage_wave[p];
        }
    }
    let mut waves: Vec<Vec<String>> = Vec::new();
    for w in 0..top + 1
        invariant
            finals@.len() == queue@.len(),
            forall|q: int| 0 <= q < queue@.len() ==> #[trigger] finals@[q] == final_wave(st, ord, q),
            ord == queue@,
            st == definition.stages@,
            is_execution_order(st, ord),
            waves@.len() == w,
            forall|v: int| 0 <= v < w ==> #[trigger] views(waves@[v]@)
                == wave_names(st, ord, v, ord.len() as int),
    {
        waves.push(names_in_wave(&definition.stages, &queue, &finals, w));
    }
    Ok(waves)
}

/// `s` is the stage called `name`, of type `t`, depending on `deps` in that
/// order, optional iff `optional`, with no retries.
pub open spec fn stage_is(s: PipelineStage, name: Seq<char>, t: PhaseType, deps: Seq<Seq<char>>, optional: bool) -> bool {
    &&& s.name@ == name
    &&& s.phase_type == t
    &&& deps_of(s) == deps
    &&& s.optional == optional
    &&& s.max_retries == 0
}

/// Returns the standard 7-stage pipeline: recon, crawl, fingerprint, fuzz,
/// analyze, dom_verify, report, each stage after the one it builds on.
pub fn default_pipeline() -> (d: PipelineDefinition)
    ensures
        d.stages@.len() == 7,
        stage_is(d.stages@[0], "recon"@, PhaseType::Source, seq![], false),
        stage_is(d.stages@[1], "crawl"@, PhaseType::Source, seq!["recon"@], false),
        stage_is(d.stages@[2], "fingerprint"@, PhaseType::Source, seq!["crawl"@], true),
        stage_is(d.stages@[3], "fuzz"@, PhaseType::Transform, seq!["crawl"@], false),
        stage_is(d.stages@[4], "analyze"@, PhaseType::Transform, seq!["fuzz"@], false),
        stage_is(d.stages@[5], "dom_verify"@, PhaseType::Transform, seq!["analyze"@], false),
        stage_is(d.stages@[6], "report"@, PhaseType::Sink, seq!["dom_verify"@], false),
        d.max_iterations == 1,
        d.convergence_threshold == 2,
{
    let mut def = PipelineDefinition::new();
    def.stages.push(PipelineStage::new("recon", PhaseType::Source));
    def.stages.push(PipelineStage::new("crawl", PhaseType::Source).with_dependency("recon"));
    def.stages.push(
        PipelineStage::new("fingerprint", PhaseType::Source).with_dependency("crawl").with_optional(true),
    );
    def.stages.push(PipelineStage::new("fuzz", PhaseType::Transform).with_dependency("crawl"));
    def.stages.push(PipelineStage::new("analyze", PhaseType::Transform).with_dependency("fuzz"));
    def.stages.push(PipelineStage::new("dom_verify", PhaseType::Transform).with_dependency("analyze"));
    def.stages.push(PipelineStage::new("report", PhaseType::Sink).with_dependency("dom_verify"));
    def.max_iterations = 1;
    def.convergence_threshold = 2;
    assert(deps_of(def.stages@[0]) =~= seq![]);
    assert(deps_of(def.stages@[1]) =~= seq!["recon"@]);
    assert(deps_of(def.stages@[2]) =~= seq!["crawl"@]);
    assert(deps_of(def.stages@[3]) =~= seq!["crawl"@]);
    assert(deps_of(def.stages@[4]) =~= seq!["fuzz"@]);
    assert(deps_of(def.stages@[5]) =~= seq!["analyze"@]);
    assert(deps_of(def.stages@[6]) =~= seq!["dom_verify"@]);
    def
}

/// Returns a minimal 3-stage pipeline: recon, fuzz, report.
pub fn minimal_pipeline() -> (d: PipelineDefinition)
    ensures
        d.stages@.len() == 3,
        stage_is(d.stages@[0], "recon"@, PhaseType::Source, seq![], false),
        stage_is(d.stages@[1], "fuzz"@, PhaseType::Transform, seq!["recon"@], false),
        stage_is(d.stages@[2], "report"@, PhaseType::Sink, seq!["fuzz"@], false),
        d.max_iterations == 1,
        d.convergence_threshold == 2,
{
    let mut def = PipelineDefinition::new();
    def.stages.push(PipelineStage::new("recon", PhaseType::Source));
    def.stages.push(PipelineStage::new("fuzz", PhaseType::Transform).with_dependency("recon"));
    def.stages.push(PipelineStage::new("report", PhaseType::Sink).with_dependency("fuzz"));
    def.max_iterations = 1;
    def.convergence_threshold = 2;
    assert(deps_of(def.stages@[0]) =~= seq![]);
    assert(deps_of(def.stages@[1]) =~= seq!["recon"@]);
    assert(deps_of(def.stages@[2]) =~= seq!["fuzz"@]);
    def
}

/// Returns a reconnaissance-only pipeline: recon, report.
pub fn recon_only_pipeline() -> (d: PipelineDefinition)
    ensures
        d.stages@.len() == 2,
        stage_is(d.stages@[0], "recon"@, PhaseType::Source, seq![], false),
        stage_is(d.stages@[1], "report"@, PhaseType::Sink, seq!["recon"@], false),
        d.max_iterations == 1,
        d.convergence_threshold == 2,
{
    let mut def = PipelineDefinition::new();
    def.stages.push(PipelineStage::new("recon", PhaseType::Source));
    def.stages.push(PipelineStage::new("report", PhaseType::Sink).with_dependency("recon"));
    def.max_iterations = 1;
    def.convergence_threshold = 2;
    assert(deps_of(def.stages@[0]) =~= seq![]);
    assert(deps_of(def.stages@[1]) =~= seq!["recon"@]);
    def
}

} // verus!
