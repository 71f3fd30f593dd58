//! Pentest playbooks: steps with dependencies, conditional branches and
//! parallel tracks, and their execution one step at a time.
//!
//! A vulnerability class is identified by its name.
use vstd::prelude::*;
use crate::order::{lemma_text_order, text_less, text_lt};
use crate::text::{chars_eq, chars_of, copy_text, holds_text, push_str, same_text, string_of, views};

verus! {

/// When a conditional branch fires.
#[derive(Debug, Clone, PartialEq, Eq)]
pub enum BranchCondition {
    /// The named vulnerability class was found.
    VulnFound(String),
    /// The named step succeeded.
    StepSucceeded(String),
    /// The named step failed.
    StepFailed(String),
    /// Always.
    Always,
}

/// A conditional branch from one step to another.
#[derive(Debug, Clone)]
pub struct ConditionalBranch {
    pub condition: BranchCondition,
    pub target_step_id: String,
    pub description: String,
}

/// What a step does.
#[derive(Debug, Clone, PartialEq, Eq)]
pub enum PlaybookAction {
    Recon,
    Crawl,
    Fuzz,
    Exploit,
    Verify,
    Report,
    Custom(String),
}

/// Where a step stands.
#[derive(Debug, Clone, PartialEq, Eq)]
pub enum StepStatus {
    Pending,
    Running,
    Succeeded,
    Failed(String),
    Skipped,
}

/// Output of a completed step.
#[derive(Debug, Clone)]
pub struct StepOutput {
    pub findings_discovered: Vec<String>,
    pub endpoints_found: Vec<String>,
    pub notes: String,
    pub duration_ms: u64,
}

/// One step of a playbook.
#[derive(Debug, Clone)]
pub struct PlaybookStep {
    pub id: String,
    pub name: String,
    pub description: String,
    pub action: PlaybookAction,
    pub target_classes: Vec<String>,
    pub branches: Vec<ConditionalBranch>,
    pub parallel_group: Option<String>,
    pub depends_on: Vec<String>,
    pub parameters: Vec<(String, String)>,
    pub status: StepStatus,
    pub output: Option<StepOutput>,
}

/// A playbook definition.
#[derive(Debug, Clone)]
pub struct Playbook {
    pub id: String,
    pub name: String,
    pub description: String,
    pub version: String,
    pub steps: Vec<PlaybookStep>,
    pub metadata: Vec<(String, String)>,
}

/// A running playbook.
#[derive(Debug, Clone)]
pub struct PlaybookExecution {
    pub playbook: Playbook,
    pub current_step_index: usize,
    pub completed_steps: Vec<String>,
    pub discovered_vulns: Vec<String>,
    pub is_finished: bool,
}

/// What one call of `advance_step` did and what comes next.
#[derive(Debug, Clone)]
pub struct ExecutionAdvance {
    pub executed_step_id: String,
    pub status: StepStatus,
    pub next_steps: Vec<String>,
    pub branches_taken: Vec<String>,
}

pub open spec fn step_ids(steps: Seq<PlaybookStep>) -> Seq<Seq<char>> {
    steps.map_values(|s: PlaybookStep| s.id@)
}

impl PlaybookStep {
    /// A pending step with the given id, name and action and nothing else.
    pub fn new(id: &str, name: &str, action: PlaybookAction) -> (s: Self)
        ensures
            s.id@ == id@,
            s.name@ == name@,
            s.description@ == Seq::<char>::empty(),
            s.action == action,
            s.target_classes@.len() == 0,
            s.branches@.len() == 0,
            s.parallel_group is None,
            s.depends_on@.len() == 0,
            s.parameters@.len() == 0,
            s.status == StepStatus::Pending,
            s.output is None,
    {
        PlaybookStep {
            id: string_of(chars_of(id).as_slice()),
            name: string_of(chars_of(name).as_slice()),
            description: String::new(),
            action,
            target_classes: Vec::new(),
            branches: Vec::new(),
            parallel_group: None,
            depends_on: Vec::new(),
            parameters: Vec::new(),
            status: StepStatus::Pending,
            output: None,
        }
    }

    /// Sets the description.
    pub fn with_description(self, desc: &str) -> (s: Self)
        ensures
            s == (PlaybookStep { description: s.description, ..self }),
            s.description@ == desc@,
    {
        let mut s = self;
        s.description = string_of(chars_of(desc).as_slice());
        s
    }

    /// Adds a branch after the others.
    pub fn with_branch(self, branch: ConditionalBranch) -> (s: Self)
        ensures
            s == (PlaybookStep { branches: s.branches, ..self }),
            s.branches@ == self.branches@.push(branch),
    {
        let mut s = self;
        s.branches.push(branch);
        s
    }

    /// Adds a dependency after the others.
    pub fn with_dependency(self, dep: &str) -> (s: Self)
        ensures
            s == (PlaybookStep { depends_on: s.depends_on, ..self }),
            views(s.depends_on@) == views(self.depends_on@).push(dep@),
    {
        let mut s = self;
        s.depends_on.push(string_of(chars_of(dep).as_slice()));
        assert(views(s.depends_on@) =~= views(self.depends_on@).push(dep@));
        s
    }

    /// Puts the step in a parallel group.
    pub fn with_parallel_group(self, group: &str) -> (s: Self)
        ensures
            s == (PlaybookStep { parallel_group: s.parallel_group, ..self }),
            s.parallel_group matches Some(g) && g@ == group@,
    {
        let mut s = self;
        s.parallel_group = Some(string_of(chars_of(group).as_slice()));
        s
    }

    /// Adds a vulnerability class that the step targets.
    pub fn with_target_class(self, class: &str) -> (s: Self)
        ensures
            s == (PlaybookStep { target_classes: s.target_classes, ..self }),
            views(s.target_classes@) == views(self.target_classes@).push(class@),
    {
        let mut s = self;
        s.target_classes.push(string_of(chars_of(class).as_slice()));
        assert(views(s.target_classes@) =~= views(self.target_classes@).push(class@));
        s
    }
}

/// The "duplicate step id" errors of the first `k` steps: one for each step
/// whose id an earlier step already has.
pub open spec fn dup_errors_upto(steps: Seq<PlaybookStep>, k: int) -> Seq<Seq<char>>
    decreases k,
{
    if k <= 0 {
        Seq::empty()
    } else {
        dup_errors_upto(steps, k - 1) + if step_ids(steps).take(k - 1).contains(steps[k - 1].id@) {
            seq!["duplicate step id: "@ + steps[k - 1].id@]
        } else {
            Seq::empty()
        }
    }
}

/// Errors for the first `j` branches of `step` whose target is not a step.
pub open spec fn branch_errors_upto(step: PlaybookStep, ids: Seq<Seq<char>>, j: int) -> Seq<Seq<char>>
    decreases j,
{
    if j <= 0 {
        Seq::empty()
    } else {
        let t = step.branches@[j - 1].target_step_id@;
        branch_errors_upto(step, ids, j - 1) + if ids.contains(t) {
            Seq::empty()
        } else {
            seq!["step '"@ + step.id@ + "' branch targets unknown step '"@ + t + "'"@]
        }
    }
}

/// Errors for the first `j` dependencies of `step` that are not steps.
pub open spec fn dep_errors_upto(step: PlaybookStep, ids: Seq<Seq<char>>, j: int) -> Seq<Seq<char>>
    decreases j,
{
    if j <= 0 {
        Seq::empty()
    } else {
        let d = step.depends_on@[j - 1]@;
        dep_errors_upto(step, ids, j - 1) + if ids.contains(d) {
            Seq::empty()
        } else {
            seq!["step '"@ + step.id@ + "' depends on unknown step '"@ + d + "'"@]
        }
    }
}

/// The reference errors of one step: its branches, then its dependencies.
pub open spec fn step_ref_errors(step: PlaybookStep, ids: Seq<Seq<char>>) -> Seq<Seq<char>> {
    branch_errors_upto(step, ids, step.branches@.len() as int) + dep_errors_upto(
        step,
        ids,
        step.depends_on@.len() as int,
    )
}

pub open spec fn ref_errors_upto(steps: Seq<PlaybookStep>, ids: Seq<Seq<char>>, k: int) -> Seq<Seq<char>>
    decreases k,
{
    if k <= 0 {
        Seq::empty()
    } else {
        ref_errors_upto(steps, ids, k - 1) + step_ref_errors(steps[k - 1], ids)
    }
}

/// Every validation error, in report order: duplicate ids first, then
/// each step's unknown branch targets and dependencies.
pub open spec fn validation_errors(steps: Seq<PlaybookStep>) -> Seq<Seq<char>> {
    dup_errors_upto(steps, steps.len() as int) + ref_errors_upto(steps, step_ids(steps), steps.len() as int)
}

pub open spec fn derefs(v: Seq<&PlaybookStep>) -> Seq<PlaybookStep> {
    v.map_values(|s: &PlaybookStep| *s)
}

/// The steps of `steps` that belong to `group`.
pub open spec fn in_group(steps: Seq<PlaybookStep>, group: Seq<char>) -> Seq<PlaybookStep> {
    steps.filter(|s: PlaybookStep| s.parallel_group matches Some(g) && g@ == group)
}

fn ids_of(steps: &Vec<PlaybookStep>) -> (ids: Vec<String>)
    ensures
        views(ids@) == step_ids(steps@),
{
    let mut ids: Vec<String> = Vec::new();
    let mut i: usize = 0;
    while i < steps.len()
        invariant
            i <= steps@.len(),
            views(ids@) == step_ids(steps@).take(i as int),
        decreases steps.len() - i,
    {
        let c = copy_text(steps[i].id.as_str());
        assert(c@ == step_ids(steps@)[i as int]);
        let ghost before = ids@;
        ids.push(c);
        assert(views(ids@) =~= views(before).push(c@));
        assert(step_ids(steps@).take(i + 1) =~= step_ids(steps@).take(i as int).push(c@));
        i += 1;
    }
    assert(step_ids(steps@).take(i as int) =~= step_ids(steps@));
    ids
}

fn quoted_error(out: &mut Vec<String>, a: &str, id: &str, b: &str, other: &str)
    ensures
        views(final(out)@) == views(old(out)@).push(a@ + id@ + b@ + other@ + "'"@),
{
    let mut m: Vec<char> = Vec::new();
    push_str(&mut m, a);
    push_str(&mut m, id);
    push_str(&mut m, b);
    push_str(&mut m, other);
    push_str(&mut m, "'");
    out.push(string_of(m.as_slice()));
    assert(views(out@) =~= views(old(out)@).push(a@ + id@ + b@ + other@ + "'"@));
}

fn step_ref_errors_exec(out: &mut Vec<String>, step: &PlaybookStep, ids: &Vec<String>)
    ensures
        views(final(out)@) == views(old(out)@) + step_ref_errors(*step, views(ids@)),
{
    let ghost start = views(out@);
    let mut j: usize = 0;
    while j < step.branches.len()
        invariant
            j <= step.branches@.len(),
            views(out@) == start + branch_errors_upto(*step, views(ids@), j as int),
        decreases step.branches.len() - j,
    {
        let t = &step.branches[j].target_step_id;
        if !holds_text(ids, t.as_str()) {
            quoted_error(out, "step '", step.id.as_str(), "' branch targets unknown step '", t.as_str());
        }
        j += 1;
        assert(views(out@) =~= start + branch_errors_upto(*step, views(ids@), j as int));
    }
    let ghost mid = views(out@);
    let mut k: usize = 0;
    while k < step.depends_on.len()
        invariant
            k <= step.depends_on@.len(),
            views(out@) == mid + dep_errors_upto(*step, views(ids@), k as int),
        decreases step.depends_on.len() - k,
    {
        let d = &step.depends_on[k];
        if !holds_text(ids, d.as_str()) {
            quoted_error(out, "step '", step.id.as_str(), "' depends on unknown step '", d.as_str());
        }
        k += 1;
        assert(views(out@) =~= mid + dep_errors_upto(*step, views(ids@), k as int));
    }
    assert(views(out@) =~= start + step_ref_errors(*step, views(ids@)));
}

impl Playbook {
    /// An empty playbook, version "1.0".
    pub fn new(id: &str, name: &str, description: &str) -> (p: Self)
        ensures
            p.id@ == id@,
            p.name@ == name@,
            p.description@ == description@,
            p.version@ == "1.0"@,
            p.steps@.len() == 0,
            p.metadata@.len() == 0,
    {
        Playbook {
            id: string_of(chars_of(id).as_slice()),
            name: string_of(chars_of(name).as_slice()),
            description: string_of(chars_of(description).as_slice()),
            version: String::from_str("1.0"),
            steps: Vec::new(),
            metadata: Vec::new(),
        }
    }

    /// Adds a step after the others.
    pub fn with_step(self, step: PlaybookStep) -> (p: Self)
        ensures
            p == (Playbook { steps: p.steps, ..self }),
            p.steps@ == self.steps@.push(step),
    {
        let mut p = self;
        p.steps.push(step);
        p
    }

    /// The steps of a parallel group, in order.
    pub fn parallel_group_steps(&self, group: &str) -> (r: Vec<&PlaybookStep>)
        ensures
            derefs(r@) == in_group(self.steps@, group@),
    {
        let mut r: Vec<&PlaybookStep> = Vec::new();
        let mut i: usize = 0;
        while i < self.steps.len()
            invariant
                i <= self.steps@.len(),
                derefs(r@) == in_group(self.steps@.take(i as int), group@),
            decreases self.steps.len() - i,
        {
            let s = &self.steps[i];
            let member = match &s.parallel_group {
                Some(g) => same_text(g.as_str(), group),
                None => false,
            };
            if member {
                r.push(s);
            }
            proof {
                let f = |s: PlaybookStep| s.parallel_group matches Some(g) && g@ == group@;
                assert(self.steps@.take(i + 1).drop_last() =~= self.steps@.take(i as int));
                reveal(Seq::filter);
            }
            i += 1;
            assert(derefs(r@) =~= in_group(self.steps@.take(i as int), group@));
        }
        assert(self.steps@.take(i as int) =~= self.steps@);
        r
    }

    /// Checks referential integrity: `Ok` when no step id repeats and every
    /// branch target and dependency names a step; otherwise every error,
    /// in report order.
    pub fn validate(&self) -> (r: Result<(), Vec<String>>)
        ensures
            match r {
                Ok(()) => validation_errors(self.steps@).len() == 0,
                Err(errors) => validation_errors(self.steps@).len() > 0 && views(errors@) == validation_errors(
                    self.steps@,
                ),
            },
    {
        let ids = ids_of(&self.steps);
        let mut errors: Vec<String> = Vec::new();
        let mut k: usize = 0;
        while k < self.steps.len()
            invariant
                k <= self.steps@.len(),
                views(ids@) == step_ids(self.steps@),
                views(errors@) == dup_errors_upto(self.steps@, k as int),
            decreases self.steps.len() - k,
        {
            let mut seen = false;
            let mut j: usize = 0;
            while j < k
                invariant
                    j <= k < self.steps@.len(),
                    seen == step_ids(self.steps@).take(j as int).contains(self.steps@[k as int].id@),
                decreases k - j,
            {
                if !seen && same_text(self.steps[j].id.as_str(), self.steps[k].id.as_str()) {
                    seen = true;
                }
                proof {
                    let ids_s = step_ids(self.steps@);
                    let x = self.steps@[k as int].id@;
                    assert(ids_s.take(j + 1) =~= ids_s.take(j as int).push(self.steps@[j as int].id@));
                    if ids_s.take(j as int).contains(x) {
                        let before = ids_s.take(j as int);
                        let w = choose|w: int| 0 <= w < before.len() && before[w] == x;
                        assert(ids_s.take(j + 1)[w] == x);
                    }
                    if self.steps@[j as int].id@ == x {
                        assert(ids_s.take(j + 1)[j as int] == x);
                    }
                    let next = ids_s.take(j + 1);
                    if next.contains(x) {
                        let w = choose|w: int| 0 <= w < next.len() && next[w] == x;
                        if w < j {
                            assert(ids_s.take(j as int)[w] == x);
                        }
                    }
                }
                j += 1;
            }
            if seen {
                let mut m: Vec<char> = Vec::new();
                push_str(&mut m, "duplicate step id: ");
                push_str(&mut m, self.steps[k].id.as_str());
                errors.push(string_of(m.as_slice()));
            }
            k += 1;
            assert(views(errors@) =~= dup_errors_upto(self.steps@, k as int));
        }
        let ghost dups = views(errors@);
        let mut k: usize = 0;
        while k < self.steps.len()
            invariant
                k <= self.steps@.len(),
                views(ids@) == step_ids(self.steps@),
                views(errors@) == dups + ref_errors_upto(self.steps@, step_ids(self.steps@), k as int),
            decreases self.steps.len() - k,
        {
            step_ref_errors_exec(&mut errors, &self.steps[k], &ids);
            k += 1;
            assert(views(errors@) =~= dups + ref_errors_upto(self.steps@, step_ids(self.steps@), k as int));
        }
        if errors.len() == 0 {
            Ok(())
        } else {
            Err(errors)
        }
    }
}

/// Every dependency of the step has completed.
pub open spec fn deps_done(step: PlaybookStep, completed: Seq<Seq<char>>) -> bool {
    forall|j: int| 0 <= j < step.depends_on@.len() ==> completed.contains(#[trigger] step.depends_on@[j]@)
}

/// A pending step whose dependencies have all completed.
pub open spec fn is_ready(step: PlaybookStep, completed: Seq<Seq<char>>) -> bool {
    step.status == StepStatus::Pending && deps_done(step, completed)
}

/// The ready steps, in playbook order.
pub open spec fn ready_of(steps: Seq<PlaybookStep>, completed: Seq<Seq<char>>) -> Seq<PlaybookStep> {
    steps.filter(|s: PlaybookStep| is_ready(s, completed))
}

/// The position of the first step with id `id`.
pub open spec fn step_position(steps: Seq<PlaybookStep>, id: Seq<char>) -> Option<int> {
    if exists|i: int| 0 <= i < steps.len() && steps[i].id@ == id {
        Some(choose|i: int| 0 <= i < steps.len() && steps[i].id@ == id && forall|j: int| 0 <= j < i ==> steps[j].id@ != id)
    } else {
        None
    }
}

/// A branch fires, judged on the steps and the vulnerabilities found so far.
pub open spec fn fires(b: ConditionalBranch, steps: Seq<PlaybookStep>, vulns: Seq<Seq<char>>) -> bool {
    match b.condition {
        BranchCondition::Always => true,
        BranchCondition::VulnFound(v) => vulns.contains(v@),
        BranchCondition::StepSucceeded(sid) => exists|i: int|
            0 <= i < steps.len() && steps[i].id@ == sid@ && steps[i].status == StepStatus::Succeeded,
        BranchCondition::StepFailed(sid) => exists|i: int|
            0 <= i < steps.len() && steps[i].id@ == sid@ && steps[i].status is Failed,
    }
}

/// The targets of the first `j` branches that fire, in order.
pub open spec fn taken_upto(
    branches: Seq<ConditionalBranch>,
    steps: Seq<PlaybookStep>,
    vulns: Seq<Seq<char>>,
    j: int,
) -> Seq<Seq<char>>
    decreases j,
{
    if j <= 0 {
        Seq::empty()
    } else {
        taken_upto(branches, steps, vulns, j - 1) + if fires(branches[j - 1], steps, vulns) {
            seq![branches[j - 1].target_step_id@]
        } else {
            Seq::empty()
        }
    }
}

/// `acc` followed by each of `ids` that is not already there.
pub open spec fn append_new(acc: Seq<Seq<char>>, ids: Seq<Seq<char>>) -> Seq<Seq<char>>
    decreases ids.len(),
{
    if ids.len() == 0 {
        acc
    } else {
        let a = append_new(acc, ids.drop_last());
        if a.contains(ids.last()) {
            a
        } else {
            a.push(ids.last())
        }
    }
}

/// Two statuses agree: the same variant, and the same message for a
/// failure.
pub open spec fn same_status(a: StepStatus, b: StepStatus) -> bool {
    match (a, b) {
        (StepStatus::Failed(x), StepStatus::Failed(y)) => x@ == y@,
        _ => a == b,
    }
}

/// No step is pending or running.
pub open spec fn all_done(steps: Seq<PlaybookStep>) -> bool {
    forall|i: int|
        0 <= i < steps.len() ==> (#[trigger] steps[i]).status != StepStatus::Pending && steps[i].status
            != StepStatus::Running
}

/// The step after it ran: succeeded with its output, or failed with its
/// output unchanged.
pub open spec fn ran(before: PlaybookStep, after: PlaybookStep, success: bool, output: Option<StepOutput>) -> bool {
    if success {
        after == (PlaybookStep { status: StepStatus::Succeeded, output: output, ..before })
    } else {
        after == (PlaybookStep { status: after.status, ..before }) && (after.status matches StepStatus::Failed(m)
            && m@ == "step execution failed"@)
    }
}

/// The vulnerabilities known after a step: a successful step's findings
/// are added.
pub open spec fn vulns_after(vulns: Seq<Seq<char>>, success: bool, output: Option<StepOutput>) -> Seq<Seq<char>> {
    match output {
        Some(o) => if success {
            vulns + views(o.findings_discovered@)
        } else {
            vulns
        },
        None => vulns,
    }
}

/// Counts of steps by status.
#[derive(Debug, Clone, PartialEq, Eq)]
pub struct StatusSummary {
    pub pending: usize,
    pub running: usize,
    pub succeeded: usize,
    pub failed: usize,
    pub skipped: usize,
}

/// The number of the first `k` steps whose status satisfies `p`.
pub open spec fn count_status(steps: Seq<PlaybookStep>, p: spec_fn(StepStatus) -> bool, k: int) -> nat
    decreases k,
{
    if k <= 0 {
        0
    } else {
        count_status(steps, p, k - 1) + if p(steps[k - 1].status) {
            1nat
        } else {
            0nat
        }
    }
}

impl StatusSummary {
    /// The count under a status name (`pending`, `running`, `succeeded`,
    /// `failed`, `skipped`); `None` for a status no step has, or another
    /// name.
    pub fn get(&self, key: &str) -> (r: Option<&usize>)
        ensures
            r == (if key@ == "pending"@ && self.pending > 0 {
                Some(&self.pending)
            } else if key@ == "running"@ && self.running > 0 {
                Some(&self.running)
            } else if key@ == "succeeded"@ && self.succeeded > 0 {
                Some(&self.succeeded)
            } else if key@ == "failed"@ && self.failed > 0 {
                Some(&self.failed)
            } else if key@ == "skipped"@ && self.skipped > 0 {
                Some(&self.skipped)
            } else {
                None
            }),
    {
        if same_text(key, "pending") && self.pending > 0 {
            Some(&self.pending)
        } else if same_text(key, "running") && self.running > 0 {
            Some(&self.running)
        } else if same_text(key, "succeeded") && self.succeeded > 0 {
            Some(&self.succeeded)
        } else if same_text(key, "failed") && self.failed > 0 {
            Some(&self.failed)
        } else if same_text(key, "skipped") && self.skipped > 0 {
            Some(&self.skipped)
        } else {
            None
        }
    }
}

/// The group names, strictly sorted.
pub open spec fn sorted_texts(v: Seq<Seq<char>>) -> bool {
    forall|i: int, j: int| 0 <= i < j < v.len() ==> text_lt(#[trigger] v[i], #[trigger] v[j])
}

/// The step belongs to the parallel group `g`.
pub open spec fn has_group(s: PlaybookStep, g: Seq<char>) -> bool {
    s.parallel_group matches Some(x) && x@ == g
}

/// The parallel groups of the given steps.
pub open spec fn groups_of(steps: Seq<PlaybookStep>) -> Set<Seq<char>> {
    Set::new(|g: Seq<char>| exists|i: int| 0 <= i < steps.len() && #[trigger] has_group(steps[i], g))
}

fn text_before(v: &Vec<String>, i: usize, c: &[char]) -> (r: bool)
    requires
        i < v@.len(),
    ensures
        r == text_lt(views(v@)[i as int], c@),
{
    let vc = chars_of(v[i].as_str());
    text_less(vc.as_slice(), c)
}

fn insert_sorted(v: &mut Vec<String>, s: &str)
    requires
        sorted_texts(views(old(v)@)),
    ensures
        sorted_texts(views(final(v)@)),
        views(final(v)@).to_set() == views(old(v)@).to_set().insert(s@),
{
    let c = chars_of(s);
    let mut i: usize = 0;
    while i < v.len() && text_before(v, i, c.as_slice())
        invariant
            i <= v@.len(),
            c@ == s@,
            sorted_texts(views(v@)),
            forall|j: int| 0 <= j < i ==> text_lt(#[trigger] views(v@)[j], s@),
        decreases v.len() - i,
    {
        i += 1;
    }
    if i < v.len() {
        let vc = chars_of(v[i].as_str());
        if chars_eq(vc.as_slice(), c.as_slice()) {
            assert(views(v@).to_set() =~= views(v@).to_set().insert(s@)) by {
                assert(views(v@)[i as int] == s@);
            }
            return;
        }
        proof {
            lemma_text_order(views(v@)[i as int], s@, s@);
            assert(text_lt(s@, views(v@)[i as int]));
        }
    }
    let ghost before = views(v@);
    v.insert(i, string_of(c.as_slice()));
    assert(views(v@) =~= before.insert(i as int, s@));
    proof {
        assert forall|k: int| i <= k < before.len() implies text_lt(s@, #[trigger] before[k]) by {
            if k > i {
                lemma_text_order(s@, before[i as int], before[k]);
            }
        }
        assert forall|a: int, b: int| 0 <= a < b < views(v@).len() implies text_lt(
            #[trigger] views(v@)[a],
            #[trigger] views(v@)[b],
        ) by {
            let na = views(v@)[a];
            let nb = views(v@)[b];
            if b < i {
                assert(na == before[a] && nb == before[b]);
            } else if a < i && b == i {
                assert(na == before[a]);
            } else if a < i && b > i {
                assert(na == before[a] && nb == before[b - 1]);
                lemma_text_order(before[a], s@, before[b - 1]);
            } else if a == i {
                assert(nb == before[b - 1]);
            } else {
                assert(na == before[a - 1] && nb == before[b - 1]);
            }
        }
        assert(views(v@).to_set() =~= before.to_set().insert(s@)) by {
            assert forall|x: Seq<char>| views(v@).to_set().contains(x) implies before.to_set().insert(s@).contains(x) by {
                let w = choose|w: int| 0 <= w < views(v@).len() && views(v@)[w] == x;
                if w < i {
                    assert(before[w] == x);
                } else if w > i {
                    assert(before[w - 1] == x);
                }
            }
            assert forall|x: Seq<char>| before.to_set().insert(s@).contains(x) implies views(v@).to_set().contains(x) by {
                if x == s@ {
                    assert(views(v@)[i as int] == x);
                } else {
                    let w = choose|w: int| 0 <= w < before.len() && before[w] == x;
                    if w < i {
                        assert(views(v@)[w] == x);
                    } else {
                        assert(views(v@)[w + 1] == x);
                    }
                }
            }
        }
    }
}

fn deps_done_exec(step: &PlaybookStep, completed: &Vec<String>) -> (r: bool)
    ensures
        r == deps_done(*step, views(completed@)),
{
    let mut j: usize = 0;
    while j < step.depends_on.len()
        invariant
            j <= step.depends_on@.len(),
            forall|m: int| 0 <= m < j ==> views(completed@).contains(#[trigger] step.depends_on@[m]@),
        decreases step.depends_on.len() - j,
    {
        if !holds_text(completed, step.depends_on[j].as_str()) {
            return false;
        }
        j += 1;
    }
    true
}

fn is_pending(st: &StepStatus) -> (r: bool)
    ensures
        r == (*st == StepStatus::Pending),
{
    match st {
        StepStatus::Pending => true,
        _ => false,
    }
}

fn any_step_with(steps: &Vec<PlaybookStep>, sid: &str, succeeded: bool) -> (r: bool)
    ensures
        r == (exists|i: int|
            0 <= i < steps@.len() && steps@[i].id@ == sid@ && if succeeded {
                steps@[i].status == StepStatus::Succeeded
            } else {
                steps@[i].status is Failed
            }),
{
    let mut i: usize = 0;
    while i < steps.len()
        invariant
            i <= steps@.len(),
            forall|m: int|
                0 <= m < i ==> !(steps@[m].id@ == sid@ && if succeeded {
                    steps@[m].status == StepStatus::Succeeded
                } else {
                    steps@[m].status is Failed
                }),
        decreases steps.len() - i,
    {
        let st_ok = match &steps[i].status {
            StepStatus::Succeeded => succeeded,
            StepStatus::Failed(_) => !succeeded,
            _ => false,
        };
        if st_ok && same_text(steps[i].id.as_str(), sid) {
            return true;
        }
        i += 1;
    }
    false
}

fn fires_exec(b: &ConditionalBranch, steps: &Vec<PlaybookStep>, vulns: &Vec<String>) -> (r: bool)
    ensures
        r == fires(*b, steps@, views(vulns@)),
{
    match &b.condition {
        BranchCondition::Always => true,
        BranchCondition::VulnFound(v) => holds_text(vulns, v.as_str()),
        BranchCondition::StepSucceeded(sid) => any_step_with(steps, sid.as_str(), true),
        BranchCondition::StepFailed(sid) => any_step_with(steps, sid.as_str(), false),
    }
}

impl PlaybookExecution {
    /// Starts executing a playbook from its first step.
    pub fn start(playbook: Playbook) -> (e: Self)
        ensures
            e.playbook == playbook,
            e.current_step_index == 0,
            e.completed_steps@.len() == 0,
            e.discovered_vulns@.len() == 0,
            !e.is_finished,
    {
        PlaybookExecution {
            playbook,
            current_step_index: 0,
            completed_steps: Vec::new(),
            discovered_vulns: Vec::new(),
            is_finished: false,
        }
    }

    /// The pending steps whose dependencies have all completed, in order.
    pub fn ready_steps(&self) -> (r: Vec<&PlaybookStep>)
        ensures
            derefs(r@) == ready_of(self.playbook.steps@, views(self.completed_steps@)),
    {
        let ghost done = views(self.completed_steps@);
        let mut r: Vec<&PlaybookStep> = Vec::new();
        let mut i: usize = 0;
        while i < self.playbook.steps.len()
            invariant
                i <= self.playbook.steps@.len(),
                done == views(self.completed_steps@),
                derefs(r@) == ready_of(self.playbook.steps@.take(i as int), done),
            decreases self.playbook.steps.len() - i,
        {
            let s = &self.playbook.steps[i];
            if is_pending(&s.status) && deps_done_exec(s, &self.completed_steps) {
                r.push(s);
            }
            proof {
                assert(self.playbook.steps@.take(i + 1).drop_last() =~= self.playbook.steps@.take(i as int));
                reveal(Seq::filter);
            }
            i += 1;
            assert(derefs(r@) =~= ready_of(self.playbook.steps@.take(i as int), done));
        }
        assert(self.playbook.steps@.take(i as int) =~= self.playbook.steps@);
        r
    }

    /// The parallel groups that have a ready step, sorted, each once.
    pub fn ready_parallel_groups(&self) -> (groups: Vec<String>)
        ensures
            sorted_texts(views(groups@)),
            views(groups@).to_set() == groups_of(ready_of(self.playbook.steps@, views(self.completed_steps@))),
    {
        let ready = self.ready_steps();
        let ghost rs = derefs(ready@);
        let mut groups: Vec<String> = Vec::new();
        let mut i: usize = 0;
        while i < ready.len()
            invariant
                i <= ready@.len(),
                rs == derefs(ready@),
                sorted_texts(views(groups@)),
                views(groups@).to_set() == groups_of(rs.take(i as int)),
            decreases ready.len() - i,
        {
            let ghost prev = views(groups@).to_set();
            proof {
                assert(rs[i as int] == *ready@[i as int]);
                assert(rs.take(i + 1)[i as int] == rs[i as int]);
                assert forall|w: int| 0 <= w < i implies rs.take(i + 1)[w] == #[trigger] rs.take(i as int)[w] by {}
            }
            match &ready[i].parallel_group {
                Some(g) => {
                    insert_sorted(&mut groups, g.as_str());
                    proof {
                        assert(has_group(rs.take(i + 1)[i as int], g@));
                        assert(views(groups@).to_set() =~= groups_of(rs.take(i + 1))) by {
                            assert forall|x: Seq<char>| groups_of(rs.take(i + 1)).contains(x) implies views(groups@).to_set().contains(x) by {
                                let w = choose|w: int| 0 <= w < rs.take(i + 1).len() && #[trigger] has_group(rs.take(i + 1)[w], x);
                                if w < i {
                                    assert(has_group(rs.take(i as int)[w], x));
                                    assert(groups_of(rs.take(i as int)).contains(x));
                                }
                            }
                            assert forall|x: Seq<char>| views(groups@).to_set().contains(x) implies groups_of(rs.take(i + 1)).contains(x) by {
                                if prev.contains(x) {
                                    let w = choose|w: int| 0 <= w < rs.take(i as int).len() && #[trigger] has_group(rs.take(i as int)[w], x);
                                    assert(has_group(rs.take(i + 1)[w], x));
                                }
                            }
                        }
                    }
                },
                None => {
                    proof {
                        assert(views(groups@).to_set() =~= groups_of(rs.take(i + 1))) by {
                            assert forall|x: Seq<char>| groups_of(rs.take(i + 1)).contains(x) implies views(groups@).to_set().contains(x) by {
                                let w = choose|w: int| 0 <= w < rs.take(i + 1).len() && #[trigger] has_group(rs.take(i + 1)[w], x);
                                assert(w < i);
                                assert(has_group(rs.take(i as int)[w], x));
                            }
                            assert forall|x: Seq<char>| views(groups@).to_set().contains(x) implies groups_of(rs.take(i + 1)).contains(x) by {
                                let w = choose|w: int| 0 <= w < rs.take(i as int).len() && #[trigger] has_group(rs.take(i as int)[w], x);
                                assert(has_group(rs.take(i + 1)[w], x));
                            }
                        }
                    }
                },
            }
            i += 1;
        }
        assert(rs.take(i as int) =~= rs);
        groups
    }

    /// How many steps stand in each status.
    pub fn status_summary(&self) -> (r: StatusSummary)
        ensures
            r.pending == count_status(self.playbook.steps@, |st: StepStatus| st is Pending, self.playbook.steps@.len() as int),
            r.running == count_status(self.playbook.steps@, |st: StepStatus| st is Running, self.playbook.steps@.len() as int),
            r.succeeded == count_status(self.playbook.steps@, |st: StepStatus| st is Succeeded, self.playbook.steps@.len() as int),
            r.failed == count_status(self.playbook.steps@, |st: StepStatus| st is Failed, self.playbook.steps@.len() as int),
            r.skipped == count_status(self.playbook.steps@, |st: StepStatus| st is Skipped, self.playbook.steps@.len() as int),
    {
        let ghost steps = self.playbook.steps@;
        let mut r = StatusSummary { pending: 0, running: 0, succeeded: 0, failed: 0, skipped: 0 };
        let mut i: usize = 0;
        while i < self.playbook.steps.len()
            invariant
                i <= steps.len(),
                steps == self.playbook.steps@,
                r.pending == count_status(steps, |st: StepStatus| st is Pending, i as int),
                r.running == count_status(steps, |st: StepStatus| st is Running, i as int),
                r.succeeded == count_status(steps, |st: StepStatus| st is Succeeded, i as int),
                r.failed == count_status(steps, |st: StepStatus| st is Failed, i as int),
                r.skipped == count_status(steps, |st: StepStatus| st is Skipped, i as int),
                r.pending + r.running + r.succeeded + r.failed + r.skipped == i,
            decreases steps.len() - i,
        {
            match &self.playbook.steps[i].status {
                StepStatus::Pending => r.pending = r.pending + 1,
                StepStatus::Running => r.running = r.running + 1,
                StepStatus::Succeeded => r.succeeded = r.succeeded + 1,
                StepStatus::Failed(_) => r.failed = r.failed + 1,
                StepStatus::Skipped => r.skipped = r.skipped + 1,
            }
            i += 1;
        }
        r
    }
}

fn find_step(steps: &Vec<PlaybookStep>, id: &str) -> (r: Option<usize>)
    ensures
        match step_position(steps@, id@) {
            Some(i) => r is Some && r->0 == i && 0 <= i < steps@.len(),
            None => r is None,
        },
{
    let mut i: usize = 0;
    while i < steps.len()
        invariant
            i <= steps@.len(),
            forall|j: int| 0 <= j < i ==> steps@[j].id@ != id@,
        decreases steps.len() - i,
    {
        if same_text(steps[i].id.as_str(), id) {
            proof {
                let f = choose|f: int| 0 <= f < steps@.len() && steps@[f].id@ == id@ && forall|j: int| 0 <= j < f ==> steps@[j].id@ != id@;
                assert(0 <= i < steps@.len() && steps@[i as int].id@ == id@ && forall|j: int| 0 <= j < i ==> steps@[j].id@ != id@);
                if f < i {
                    assert(steps@[f].id@ != id@);
                } else if f > i {
                    assert(steps@[i as int].id@ != id@);
                }
            }
            return Some(i);
        }
        i += 1;
    }
    None
}

fn all_done_exec(steps: &Vec<PlaybookStep>) -> (r: bool)
    ensures
        r == all_done(steps@),
{
    let mut i: usize = 0;
    while i < steps.len()
        invariant
            i <= steps@.len(),
            forall|m: int|
                0 <= m < i ==> (#[trigger] steps@[m]).status != StepStatus::Pending && steps@[m].status
                    != StepStatus::Running,
        decreases steps.len() - i,
    {
        match &steps[i].status {
            StepStatus::Pending => {
                return false;
            },
            StepStatus::Running => {
                return false;
            },
            _ => {},
        }
        i += 1;
    }
    true
}

impl PlaybookExecution {
    /// Records that a step ran: a successful step keeps its output and adds
    /// its findings to the known vulnerabilities, a failed one is marked
    /// failed. Then its branches are judged on the new state, and the next
    /// steps are the targets of the branches that fire followed by every
    /// ready step not already named. The execution is finished once no step
    /// is pending or running. `None`, with nothing changed, when no step
    /// has the id.
    pub fn advance_step(&mut self, step_id: &str, success: bool, output: Option<StepOutput>) -> (r: Option<
        ExecutionAdvance,
    >)
        ensures
            match step_position(old(self).playbook.steps@, step_id@) {
                None => r is None && *final(self) == *old(self),
                Some(idx) => {
                    let steps2 = final(self).playbook.steps@;
                    let before = old(self).playbook.steps@[idx];
                    let vulns2 = vulns_after(views(old(self).discovered_vulns@), success, output);
                    let done2 = views(old(self).completed_steps@).push(step_id@);
                    &&& steps2 == old(self).playbook.steps@.update(idx, steps2[idx])
                    &&& ran(before, steps2[idx], success, output)
                    &&& final(self).playbook == (Playbook { steps: final(self).playbook.steps, ..old(self).playbook })
                    &&& views(final(self).discovered_vulns@) == vulns2
                    &&& views(final(self).completed_steps@) == done2
                    &&& final(self).current_step_index == old(self).current_step_index
                    &&& final(self).is_finished == (old(self).is_finished || all_done(steps2))
                    &&& r matches Some(adv) && {
                        &&& adv.executed_step_id@ == step_id@
                        &&& same_status(adv.status, steps2[idx].status)
                        &&& views(adv.branches_taken@) == taken_upto(
                            before.branches@,
                            steps2,
                            vulns2,
                            before.branches@.len() as int,
                        )
                        &&& views(adv.next_steps@) == append_new(
                            views(adv.branches_taken@),
                            step_ids(ready_of(steps2, done2)),
                        )
                    }
                },
            },
    {
        let found = find_step(&self.playbook.steps, step_id);
        let idx = match found {
            Some(i) => i,
            None => return None,
        };
        assert(step_position(old(self).playbook.steps@, step_id@) == Some(idx as int));
        let ghost old_steps = self.playbook.steps@;
        let ghost old_vulns = views(self.discovered_vulns@);
        let ghost out_spec = output;
        let mut step = self.playbook.steps.remove(idx);
        let ghost before = step;
        let ghost pb = self.playbook;
        if success {
            match &output {
                Some(out) => {
                    let mut k: usize = 0;
                    while k < out.findings_discovered.len()
                        invariant
                            k <= out.findings_discovered@.len(),
                            self.playbook == pb,
                            self.completed_steps == old(self).completed_steps,
                            self.is_finished == old(self).is_finished,
                            self.current_step_index == old(self).current_step_index,
                            views(self.discovered_vulns@) == old_vulns + views(out.findings_discovered@).take(
                                k as int,
                            ),
                        decreases out.findings_discovered.len() - k,
                    {
                        let ghost prev = self.discovered_vulns@;
                        let c = copy_text(out.findings_discovered[k].as_str());
                        self.discovered_vulns.push(c);
                        assert(views(self.discovered_vulns@) =~= views(prev).push(c@));
                        assert(views(out.findings_discovered@).take(k + 1) =~= views(out.findings_discovered@).take(
                            k as int,
                        ).push(c@));
                        k += 1;
                        assert(views(self.discovered_vulns@) =~= old_vulns + views(out.findings_discovered@).take(
                            k as int,
                        ));
                    }
                    assert(views(out.findings_discovered@).take(k as int) =~= views(out.findings_discovered@));
                },
                None => {},
            }
            step.status = StepStatus::Succeeded;
            step.output = output;
        } else {
            step.status = StepStatus::Failed(String::from_str("step execution failed"));
        }
        self.playbook.steps.insert(idx, step);
        assert(self.playbook.steps@ =~= old_steps.update(idx as int, self.playbook.steps@[idx as int]));
        let ghost vulns2 = views(self.discovered_vulns@);
        assert(vulns2 == vulns_after(old_vulns, success, out_spec));
        self.completed_steps.push(copy_text(step_id));
        proof {
            assert(views(self.completed_steps@) =~= views(old(self).completed_steps@).push(step_id@));
        }
        let ghost steps2 = self.playbook.steps@;
        let mut taken: Vec<String> = Vec::new();
        let mut j: usize = 0;
        while j < self.playbook.steps[idx].branches.len()
            invariant
                idx < self.playbook.steps@.len(),
                steps2 == self.playbook.steps@,
                vulns2 == views(self.discovered_vulns@),
                self.playbook.steps@[idx as int].branches@ == before.branches@,
                j <= before.branches@.len(),
                views(taken@) == taken_upto(before.branches@, steps2, vulns2, j as int),
            decreases before.branches@.len() - j,
        {
            let b = &self.playbook.steps[idx].branches[j];
            if fires_exec(b, &self.playbook.steps, &self.discovered_vulns) {
                let ghost prev = taken@;
                taken.push(copy_text(b.target_step_id.as_str()));
                assert(views(taken@) =~= views(prev).push(b.target_step_id@));
            }
            j += 1;
            assert(views(taken@) =~= taken_upto(before.branches@, steps2, vulns2, j as int));
        }
        let mut next: Vec<String> = Vec::new();
        let mut t: usize = 0;
        while t < taken.len()
            invariant
                t <= taken@.len(),
                views(next@) == views(taken@).take(t as int),
            decreases taken.len() - t,
        {
            let ghost prev = next@;
            let c = copy_text(taken[t].as_str());
            next.push(c);
            assert(views(next@) =~= views(prev).push(c@));
            assert(views(taken@).take(t + 1) =~= views(taken@).take(t as int).push(c@));
            t += 1;
            assert(views(next@) =~= views(taken@).take(t as int));
        }
        assert(views(taken@).take(t as int) =~= views(taken@));
        let ghost done2 = views(self.completed_steps@);
        let ready = self.ready_steps();
        let ghost rids = step_ids(derefs(ready@));
        let mut q: usize = 0;
        while q < ready.len()
            invariant
                q <= ready@.len(),
                rids == step_ids(derefs(ready@)),
                views(next@) == append_new(views(taken@), rids.take(q as int)),
            decreases ready.len() - q,
        {
            let id = &ready[q].id;
            assert(rids[q as int] == id@);
            assert(rids.take(q + 1).drop_last() =~= rids.take(q as int));
            if !holds_text(&next, id.as_str()) {
                let ghost prev = next@;
                next.push(copy_text(id.as_str()));
                assert(views(next@) =~= views(prev).push(id@));
            }
            q += 1;
        }
        assert(rids.take(q as int) =~= rids);
        if all_done_exec(&self.playbook.steps) {
            self.is_finished = true;
        }
        let status = if success {
            StepStatus::Succeeded
        } else {
            StepStatus::Failed(String::from_str("step execution failed"))
        };
        Some(ExecutionAdvance { executed_step_id: copy_text(step_id), status, next_steps: next, branches_taken: taken })
    }
}

/// The next steps start with the targets of the branches taken, in order;
/// every ready step is among them; and nothing else is.
pub proof fn law_next_steps(acc: Seq<Seq<char>>, ids: Seq<Seq<char>>)
    ensures
        append_new(acc, ids).len() >= acc.len(),
        append_new(acc, ids).take(acc.len() as int) == acc,
        forall|i: int| 0 <= i < ids.len() ==> append_new(acc, ids).contains(#[trigger] ids[i]),
        forall|i: int|
            0 <= i < append_new(acc, ids).len() ==> acc.contains(#[trigger] append_new(acc, ids)[i]) || ids.contains(
                append_new(acc, ids)[i],
            ),
    decreases ids.len(),
{
    if ids.len() > 0 {
        let rest = ids.drop_last();
        law_next_steps(acc, rest);
        let a = append_new(acc, rest);
        let r = append_new(acc, ids);
        assert(r.take(acc.len() as int) =~= acc) by {
            if !a.contains(ids.last()) {
                assert(a.push(ids.last()).take(acc.len() as int) =~= a.take(acc.len() as int));
            }
        }
        assert forall|i: int| 0 <= i < ids.len() implies r.contains(#[trigger] ids[i]) by {
            if i < ids.len() - 1 {
                assert(rest[i] == ids[i]);
                assert(a.contains(rest[i]));
                if !a.contains(ids.last()) {
                    let w = choose|w: int| 0 <= w < a.len() && a[w] == ids[i];
                    assert(r[w] == ids[i]);
                }
            } else if !a.contains(ids.last()) {
                assert(r[a.len() as int] == ids.last());
            }
        }
        assert forall|i: int| 0 <= i < r.len() implies acc.contains(#[trigger] r[i]) || ids.contains(r[i]) by {
            if i < a.len() {
                assert(r[i] == a[i]);
                if rest.contains(a[i]) {
                    let w = choose|w: int| 0 <= w < rest.len() && rest[w] == a[i];
                    assert(ids[w] == a[i]);
                }
            } else {
                assert(r[i] == ids.last());
                assert(ids[ids.len() - 1] == r[i]);
            }
        }
    }
}

/// A step that ran is no longer pending, so it is never ready again.
pub proof fn law_ran_step_not_ready(
    before: PlaybookStep,
    after: PlaybookStep,
    success: bool,
    output: Option<StepOutput>,
    completed: Seq<Seq<char>>,
)
    requires
        ran(before, after, success, output),
    ensures
        after.status !is Pending,
        !is_ready(after, completed),
{
}

} // verus!
