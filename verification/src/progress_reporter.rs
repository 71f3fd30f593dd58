//! Scan progress across phases and modules.
//!
//! Modules are kept sorted by name; their details come out in that order.
use vstd::prelude::*;
use std::time::{Duration, Instant};
use crate::clock::{elapsed_since, instant_now};
use crate::order::{lemma_text_order, text_less, text_lt};
use crate::text::{chars_eq, chars_of};

verus! {

/// Where a scan module stands.
#[derive(Debug, Clone, Copy, PartialEq, Eq, Structural)]
pub enum ModuleStatus {
    Pending,
    Running,
    Completed,
    Failed,
    Skipped,
}

/// Progress of one module.
#[derive(Debug, Clone)]
pub struct ModuleProgress {
    pub name: String,
    pub status: ModuleStatus,
    pub started_at: Option<Instant>,
    pub duration: Option<Duration>,
    pub findings_count: u64,
}

/// A rendered progress report.
#[derive(Debug, Clone)]
pub enum ProgressOutput {
    Terminal(String),
    Json(String),
    Webhook { url: String, payload: String },
}

/// The modules are sorted by name, strictly: no name occurs twice.
pub open spec fn modules_sorted(ms: Seq<ModuleProgress>) -> bool {
    forall|i: int, j: int| 0 <= i < j < ms.len() ==> text_lt(#[trigger] ms[i].name@, #[trigger] ms[j].name@)
}

/// The position of the module named `name`.
pub open spec fn module_index(ms: Seq<ModuleProgress>, name: Seq<char>) -> Option<int> {
    if exists|i: int| 0 <= i < ms.len() && ms[i].name@ == name {
        Some(choose|i: int| 0 <= i < ms.len() && ms[i].name@ == name)
    } else {
        None
    }
}

/// The module named `name`.
pub open spec fn module_named(ms: Seq<ModuleProgress>, name: Seq<char>) -> Option<ModuleProgress> {
    match module_index(ms, name) {
        Some(i) => Some(ms[i]),
        None => None,
    }
}

/// The names of the running modules, in order.
pub open spec fn running_names(ms: Seq<ModuleProgress>) -> Seq<Seq<char>>
    decreases ms.len(),
{
    if ms.len() == 0 {
        Seq::empty()
    } else {
        running_names(ms.drop_last()) + if ms.last().status == ModuleStatus::Running {
            seq![ms.last().name@]
        } else {
            Seq::empty()
        }
    }
}

proof fn lemma_module_index(ms: Seq<ModuleProgress>, i: int)
    requires
        modules_sorted(ms),
        0 <= i < ms.len(),
    ensures
        module_index(ms, ms[i].name@) == Some(i),
        module_named(ms, ms[i].name@) == Some(ms[i]),
{
    let name = ms[i].name@;
    let j = choose|j: int| 0 <= j < ms.len() && ms[j].name@ == name;
    lemma_text_order(name, name, name);
    if j < i {
        assert(text_lt(ms[j].name@, ms[i].name@));
    } else if j > i {
        assert(text_lt(ms[i].name@, ms[j].name@));
    }
}

/// Replacing module `i` by one of the same name changes what that name
/// looks up and nothing else.
proof fn lemma_module_update(ms: Seq<ModuleProgress>, i: int, m: ModuleProgress)
    requires
        modules_sorted(ms),
        0 <= i < ms.len(),
        m.name@ == ms[i].name@,
    ensures
        modules_sorted(ms.update(i, m)),
        module_named(ms.update(i, m), m.name@) == Some(m),
        forall|n: Seq<char>| n != m.name@ ==> module_named(ms.update(i, m), n) == module_named(ms, n),
{
    let ms2 = ms.update(i, m);
    assert forall|a: int, b: int| 0 <= a < b < ms2.len() implies text_lt(#[trigger] ms2[a].name@, #[trigger] ms2[b].name@) by {
        assert(ms2[a].name@ == ms[a].name@);
        assert(ms2[b].name@ == ms[b].name@);
    }
    lemma_module_index(ms2, i);
    assert forall|n: Seq<char>| n != m.name@ implies module_named(ms2, n) == module_named(ms, n) by {
        if exists|k: int| 0 <= k < ms.len() && ms[k].name@ == n {
            let k = choose|k: int| 0 <= k < ms.len() && ms[k].name@ == n;
            lemma_module_index(ms, k);
            assert(k != i);
            assert(ms2[k] == ms[k]);
            lemma_module_index(ms2, k);
        } else {
            assert forall|k: int| 0 <= k < ms2.len() implies ms2[k].name@ != n by {
                if k != i {
                    assert(ms2[k] == ms[k]);
                }
            }
        }
    }
}

/// Tracks scan progress across phases and modules.
pub struct ProgressReporter {
    scan_start: Instant,
    phases_total: u32,
    phases_completed: u32,
    current_phase: String,
    findings_total: u64,
    modules: Vec<ModuleProgress>,
    estimated_durations: Vec<(String, Duration)>,
}

impl ProgressReporter {
    /// The number of phases of the scan.
    pub closed spec fn spec_phases_total(self) -> u32 {
        self.phases_total
    }

    /// The number of phases completed.
    pub closed spec fn spec_phases_completed(self) -> u32 {
        self.phases_completed
    }

    /// The name of the current phase.
    pub closed spec fn spec_current_phase(self) -> Seq<char> {
        self.current_phase@
    }

    /// The findings reported so far.
    pub closed spec fn spec_findings_total(self) -> u64 {
        self.findings_total
    }

    /// The modules, sorted by name.
    pub closed spec fn spec_modules(self) -> Seq<ModuleProgress> {
        self.modules@
    }

    /// The phases that have an estimated duration.
    pub closed spec fn estimated_phases(self) -> Seq<Seq<char>> {
        self.estimated_durations@.map_values(|e: (String, Duration)| e.0@)
    }

    /// The modules are kept sorted by name.
    pub closed spec fn wf(self) -> bool {
        modules_sorted(self.modules@)
    }

    /// A reporter for a scan of `phases_total` phases, started now.
    pub fn new(phases_total: u32) -> (r: Self)
        ensures
            r.wf(),
            r.spec_phases_total() == phases_total,
            r.spec_phases_completed() == 0,
            r.spec_current_phase() == "initializing"@,
            r.spec_findings_total() == 0,
            r.spec_modules() == Seq::<ModuleProgress>::empty(),
            r.estimated_phases() == Seq::<Seq<char>>::empty(),
    {
        let r = ProgressReporter {
            scan_start: instant_now(),
            phases_total,
            phases_completed: 0,
            current_phase: String::from_str("initializing"),
            findings_total: 0,
            modules: Vec::new(),
            estimated_durations: Vec::new(),
        };
        assert(r.estimated_phases() =~= Seq::<Seq<char>>::empty());
        r
    }

    /// Records the estimated duration of a phase, replacing an earlier one.
    pub fn set_phase_estimate(&mut self, phase: &str, duration: Duration)
        ensures
            final(self).wf() == old(self).wf(),
            forall|p: Seq<char>| final(self).estimated_phases().contains(p) <==> (old(self).estimated_phases().contains(p) || p == phase@),
            final(self).spec_phases_total() == old(self).spec_phases_total(),
            final(self).spec_phases_completed() == old(self).spec_phases_completed(),
            final(self).spec_current_phase() == old(self).spec_current_phase(),
            final(self).spec_findings_total() == old(self).spec_findings_total(),
            final(self).spec_modules() == old(self).spec_modules(),
    {
        let p = chars_of(phase);
        let ghost before = self.estimated_phases();
        let mut i: usize = 0;
        while i < self.estimated_durations.len()
            invariant
                self.estimated_durations@ == old(self).estimated_durations@,
                self.modules@ == old(self).modules@,
                self.phases_total == old(self).phases_total,
                self.phases_completed == old(self).phases_completed,
                self.current_phase == old(self).current_phase,
                self.findings_total == old(self).findings_total,
                before == old(self).estimated_phases(),
                p@ == phase@,
                i <= self.estimated_durations@.len(),
                forall|k: int| 0 <= k < i ==> before[k] != phase@,
            decreases self.estimated_durations.len() - i,
        {
            let k = chars_of(self.estimated_durations[i].0.as_str());
            if chars_eq(k.as_slice(), p.as_slice()) {
                let key = String::from_str(phase);
                self.estimated_durations.set(i, (key, duration));
                proof {
                    assert(self.estimated_phases() =~= before.update(i as int, phase@));
                    assert forall|q: Seq<char>| self.estimated_phases().contains(q) <==> (before.contains(q) || q == phase@) by {
                        if before.contains(q) && q != phase@ {
                            let k = choose|k: int| 0 <= k < before.len() && before[k] == q;
                            assert(self.estimated_phases()[k] == q);
                        }
                        if self.estimated_phases().contains(q) && q != phase@ {
                            let k = choose|k: int| 0 <= k < before.len() && self.estimated_phases()[k] == q;
                            assert(before[k] == q);
                        }
                        if q == phase@ {
                            assert(self.estimated_phases()[i as int] == q);
                        }
                    }
                }
                return;
            }
            i += 1;
        }
        let key = String::from_str(phase);
        self.estimated_durations.push((key, duration));
        proof {
            assert(self.estimated_phases() =~= before.push(phase@));
            assert forall|q: Seq<char>| self.estimated_phases().contains(q) <==> (before.contains(q) || q == phase@) by {
                if before.contains(q) {
                    let k = choose|k: int| 0 <= k < before.len() && before[k] == q;
                    assert(self.estimated_phases()[k] == q);
                }
                if self.estimated_phases().contains(q) && q != phase@ {
                    let k = choose|k: int| 0 <= k < self.estimated_phases().len() && self.estimated_phases()[k] == q;
                    assert(k < before.len());
                    assert(before[k] == q);
                }
                if q == phase@ {
                    assert(self.estimated_phases()[before.len() as int] == q);
                }
            }
        }
    }

    /// Marks a phase as started.
    pub fn begin_phase(&mut self, phase: &str)
        ensures
            final(self).spec_current_phase() == phase@,
            final(self).wf() == old(self).wf(),
            final(self).spec_phases_total() == old(self).spec_phases_total(),
            final(self).spec_phases_completed() == old(self).spec_phases_completed(),
            final(self).spec_findings_total() == old(self).spec_findings_total(),
            final(self).spec_modules() == old(self).spec_modules(),
            final(self).estimated_phases() == old(self).estimated_phases(),
    {
        self.current_phase = String::from_str(phase);
    }

    /// Marks a phase as completed with its findings. When it is the current
    /// phase, the current phase becomes `done` once every phase has
    /// completed, `transitioning` before.
    pub fn complete_phase(&mut self, phase: &str, findings: u64)
        requires
            old(self).spec_phases_completed() < u32::MAX,
            old(self).spec_findings_total() + findings <= u64::MAX,
        ensures
            final(self).spec_phases_completed() == old(self).spec_phases_completed() + 1,
            final(self).spec_findings_total() == old(self).spec_findings_total() + findings,
            final(self).spec_current_phase() == if old(self).spec_current_phase() == phase@ {
                if final(self).spec_phases_completed() >= old(self).spec_phases_total() {
                    "done"@
                } else {
                    "transitioning"@
                }
            } else {
                old(self).spec_current_phase()
            },
            final(self).wf() == old(self).wf(),
            final(self).spec_phases_total() == old(self).spec_phases_total(),
            final(self).spec_modules() == old(self).spec_modules(),
            final(self).estimated_phases() == old(self).estimated_phases(),
    {
        self.phases_completed = self.phases_completed + 1;
        self.findings_total = self.findings_total + findings;
        let cur = chars_of(self.current_phase.as_str());
        let p = chars_of(phase);
        if chars_eq(cur.as_slice(), p.as_slice()) {
            if self.phases_completed >= self.phases_total {
                self.current_phase = String::from_str("done");
            } else {
                self.current_phase = String::from_str("transitioning");
            }
        }
    }

    /// The position of the module named `name`.
    fn module_position(&self, name: &[char]) -> (r: Option<usize>)
        requires
            self.wf(),
        ensures
            match r {
                Some(i) => i < self.modules@.len() && module_index(self.modules@, name@) == Some(i as int),
                None => module_index(self.modules@, name@) is None,
            },
    {
        let mut i: usize = 0;
        while i < self.modules.len()
            invariant
                self.wf(),
                i <= self.modules@.len(),
                forall|k: int| 0 <= k < i ==> self.modules@[k].name@ != name@,
            decreases self.modules.len() - i,
        {
            let n = chars_of(self.modules[i].name.as_str());
            if chars_eq(n.as_slice(), name) {
                proof { lemma_module_index(self.modules@, i as int); }
                return Some(i);
            }
            i += 1;
        }
        None
    }

    /// Where a module named `name`, absent from the table, belongs.
    fn module_insertion_point(&self, name: &[char]) -> (p: usize)
        requires
            self.wf(),
            forall|k: int| 0 <= k < self.modules@.len() ==> self.modules@[k].name@ != name@,
        ensures
            p <= self.modules@.len(),
            forall|k: int| 0 <= k < p ==> text_lt(self.modules@[k].name@, name@),
            forall|k: int| p <= k < self.modules@.len() ==> text_lt(name@, self.modules@[k].name@),
    {
        let mut p: usize = 0;
        while p < self.modules.len()
            invariant
                self.wf(),
                forall|k: int| 0 <= k < self.modules@.len() ==> self.modules@[k].name@ != name@,
                p <= self.modules@.len(),
                forall|k: int| 0 <= k < p ==> text_lt(self.modules@[k].name@, name@),
            decreases self.modules.len() - p,
        {
            let n = chars_of(self.modules[p].name.as_str());
            if !text_less(n.as_slice(), name) {
                proof {
                    lemma_text_order(name@, self.modules@[p as int].name@, name@);
                    assert forall|k: int| p <= k < self.modules@.len() implies text_lt(name@, self.modules@[k].name@) by {
                        if k > p {
                            lemma_text_order(name@, self.modules@[p as int].name@, self.modules@[k].name@);
                        }
                    }
                }
                return p;
            }
            p += 1;
        }
        p
    }

    /// Registers `name` as running, started now, with no findings; a module
    /// of that name is replaced.
    pub fn start_module(&mut self, name: &str)
        requires
            old(self).wf(),
        ensures
            final(self).wf(),
            module_named(final(self).spec_modules(), name@) matches Some(m) && m.name@ == name@
                && m.status == ModuleStatus::Running && m.started_at is Some && m.duration is None
                && m.findings_count == 0,
            forall|n: Seq<char>| n != name@ ==> module_named(final(self).spec_modules(), n) == module_named(old(self).spec_modules(), n),
            final(self).spec_phases_total() == old(self).spec_phases_total(),
            final(self).spec_phases_completed() == old(self).spec_phases_completed(),
            final(self).spec_current_phase() == old(self).spec_current_phase(),
            final(self).spec_findings_total() == old(self).spec_findings_total(),
            final(self).estimated_phases() == old(self).estimated_phases(),
    {
        let nm = chars_of(name);
        let entry = ModuleProgress {
            name: String::from_str(name),
            status: ModuleStatus::Running,
            started_at: Some(instant_now()),
            duration: None,
            findings_count: 0,
        };
        let ghost ms = self.modules@;
        match self.module_position(nm.as_slice()) {
            Some(i) => {
                self.modules.set(i, entry);
                proof {
                    lemma_module_index(ms, i as int);
                    lemma_module_update(ms, i as int, self.modules@[i as int]);
                }
            },
            None => {
                proof {
                    assert forall|k: int| 0 <= k < ms.len() implies ms[k].name@ != name@ by {
                        if ms[k].name@ == name@ {
                            assert(module_index(ms, name@) is Some);
                        }
                    }
                }
                let p = self.module_insertion_point(nm.as_slice());
                self.modules.insert(p, entry);
                let ghost ms2 = self.modules@;
                proof {
                    assert forall|a: int, b: int| 0 <= a < b < ms2.len() implies text_lt(#[trigger] ms2[a].name@, #[trigger] ms2[b].name@) by {
                        if b < p {
                            assert(ms2[a] == ms[a] && ms2[b] == ms[b]);
                        } else if b == p {
                            assert(ms2[a] == ms[a]);
                        } else if a == p {
                            assert(ms2[b] == ms[b - 1]);
                        } else if a < p {
                            assert(ms2[a] == ms[a] && ms2[b] == ms[b - 1]);
                            lemma_text_order(ms[a].name@, name@, ms[b - 1].name@);
                        } else {
                            assert(ms2[a] == ms[a - 1] && ms2[b] == ms[b - 1]);
                        }
                    }
                    lemma_module_index(ms2, p as int);
                    assert forall|n: Seq<char>| n != name@ implies module_named(ms2, n) == module_named(ms, n) by {
                        if exists|k: int| 0 <= k < ms.len() && ms[k].name@ == n {
                            let k = choose|k: int| 0 <= k < ms.len() && ms[k].name@ == n;
                            lemma_module_index(ms, k);
                            let k2 = if k < p { k } else { k + 1 };
                            assert(ms2[k2] == ms[k]);
                            lemma_module_index(ms2, k2);
                        } else {
                            assert forall|k: int| 0 <= k < ms2.len() implies ms2[k].name@ != n by {
                                if k < p {
                                    assert(ms2[k] == ms[k]);
                                } else if k > p {
                                    assert(ms2[k] == ms[k - 1]);
                                }
                            }
                        }
                    }
                }
            },
        }
    }

    /// Ends module `name` with `status` and, when given, its findings; its
    /// duration is the time since it started.
    fn finish_module(&mut self, name: &str, status: ModuleStatus, findings: Option<u64>)
        requires
            old(self).wf(),
        ensures
            final(self).wf(),
            match module_named(old(self).spec_modules(), name@) {
                Some(m) => module_named(final(self).spec_modules(), name@) matches Some(n) && n.name == m.name
                    && n.status == status && n.started_at == m.started_at
                    && (n.duration is Some <==> m.started_at is Some)
                    && n.findings_count == match findings {
                        Some(f) => f,
                        None => m.findings_count,
                    },
                None => final(self).spec_modules() == old(self).spec_modules(),
            },
            forall|n: Seq<char>| n != name@ ==> module_named(final(self).spec_modules(), n) == module_named(old(self).spec_modules(), n),
            final(self).spec_phases_total() == old(self).spec_phases_total(),
            final(self).spec_phases_completed() == old(self).spec_phases_completed(),
            final(self).spec_current_phase() == old(self).spec_current_phase(),
            final(self).spec_findings_total() == old(self).spec_findings_total(),
            final(self).estimated_phases() == old(self).estimated_phases(),
    {
        let nm = chars_of(name);
        match self.module_position(nm.as_slice()) {
            Some(i) => {
                let ghost ms = self.modules@;
                proof { lemma_module_index(ms, i as int); }
                let duration = match &self.modules[i].started_at {
                    Some(start) => Some(elapsed_since(start)),
                    None => None,
                };
                self.modules[i].status = status;
                match findings {
                    Some(f) => {
                        self.modules[i].findings_count = f;
                    },
                    None => {},
                }
                self.modules[i].duration = duration;
                proof {
                    assert(self.modules@ =~= ms.update(i as int, self.modules@[i as int]));
                    lemma_module_update(ms, i as int, self.modules@[i as int]);
                }
            },
            None => {},
        }
    }

    /// Marks module `name` as completed with its findings.
    pub fn complete_module(&mut self, name: &str, findings: u64)
        requires
            old(self).wf(),
        ensures
            completes_module(*old(self), *final(self), name@, findings),
    {
        self.finish_module(name, ModuleStatus::Completed, Some(findings));
    }

    /// Marks module `name` as failed.
    pub fn fail_module(&mut self, name: &str)
        requires
            old(self).wf(),
        ensures
            final(self).wf(),
            match module_named(old(self).spec_modules(), name@) {
                Some(m) => module_named(final(self).spec_modules(), name@) matches Some(n) && n.name == m.name
                    && n.status == ModuleStatus::Failed && n.findings_count == m.findings_count
                    && n.started_at == m.started_at && (n.duration is Some <==> m.started_at is Some),
                None => final(self).spec_modules() == old(self).spec_modules(),
            },
            forall|n: Seq<char>| n != name@ ==> module_named(final(self).spec_modules(), n) == module_named(old(self).spec_modules(), n),
            final(self).spec_phases_total() == old(self).spec_phases_total(),
            final(self).spec_phases_completed() == old(self).spec_phases_completed(),
            final(self).spec_current_phase() == old(self).spec_current_phase(),
            final(self).spec_findings_total() == old(self).spec_findings_total(),
            final(self).estimated_phases() == old(self).estimated_phases(),
    {
        self.finish_module(name, ModuleStatus::Failed, None);
    }

    /// Adds findings to the running total.
    pub fn add_findings(&mut self, count: u64)
        requires
            old(self).spec_findings_total() + count <= u64::MAX,
        ensures
            final(self).spec_findings_total() == old(self).spec_findings_total() + count,
            final(self).wf() == old(self).wf(),
            final(self).spec_phases_total() == old(self).spec_phases_total(),
            final(self).spec_phases_completed() == old(self).spec_phases_completed(),
            final(self).spec_current_phase() == old(self).spec_current_phase(),
            final(self).spec_modules() == old(self).spec_modules(),
            final(self).estimated_phases() == old(self).estimated_phases(),
    {
        self.findings_total = self.findings_total + count;
    }

    /// The number of phases of the scan.
    pub fn phases_total(&self) -> (n: u32)
        ensures
            n == self.spec_phases_total(),
    {
        self.phases_total
    }

    /// The number of phases completed.
    pub fn phases_completed(&self) -> (n: u32)
        ensures
            n == self.spec_phases_completed(),
    {
        self.phases_completed
    }

    /// The name of the current phase.
    pub fn current_phase(&self) -> (s: &str)
        ensures
            s@ == self.spec_current_phase(),
    {
        self.current_phase.as_str()
    }

    /// The findings reported so far.
    pub fn findings_total(&self) -> (n: u64)
        ensures
            n == self.spec_findings_total(),
    {
        self.findings_total
    }

    /// The time since the reporter was created.
    pub fn elapsed(&self) -> Duration {
        elapsed_since(&self.scan_start)
    }

    /// Every module's progress, sorted by name.
    pub fn module_details(&self) -> (ms: &[ModuleProgress])
        ensures
            ms@ == self.spec_modules(),
    {
        self.modules.as_slice()
    }

    /// The names of the running modules, sorted.
    pub fn active_modules(&self) -> (names: Vec<String>)
        ensures
            crate::text::views(names@) == running_names(self.spec_modules()),
    {
        let mut names: Vec<String> = Vec::new();
        let mut i: usize = 0;
        while i < self.modules.len()
            invariant
                i <= self.modules@.len(),
                crate::text::views(names@) == running_names(self.modules@.take(i as int)),
            decreases self.modules.len() - i,
        {
            let ghost before = names@;
            if self.modules[i].status == ModuleStatus::Running {
                names.push(self.modules[i].name.clone());
            }
            proof {
                assert(self.modules@.take(i + 1).drop_last() =~= self.modules@.take(i as int));
                assert(crate::text::views(names@) =~= running_names(self.modules@.take(i + 1)));
            }
            i += 1;
        }
        assert(self.modules@.take(i as int) =~= self.modules@);
        names
    }

    /// The estimated time left, in milliseconds, from the time elapsed: the
    /// mean time of a completed phase times the phases left, cut to 64 bits.
    /// `None` before the first phase completes and after the last.
    pub fn estimate_remaining_millis(&self, elapsed_ms: u128) -> (r: Option<u64>)
        requires
            elapsed_ms <= u64::MAX as u128 * 1000 + 999,
        ensures
            self.spec_phases_completed() == 0 || self.spec_phases_completed() >= self.spec_phases_total() ==> r is None,
            self.spec_phases_completed() > 0 && self.spec_phases_completed() < self.spec_phases_total() ==> r == Some(
                ((elapsed_ms / self.spec_phases_completed() as u128) * (self.spec_phases_total()
                    - self.spec_phases_completed()) as u128) as u64,
            ),
    {
        if self.phases_completed == 0 || self.phases_completed >= self.phases_total {
            return None;
        }
        let avg = elapsed_ms / (self.phases_completed as u128);
        let left = (self.phases_total - self.phases_completed) as u128;
        assert(avg <= elapsed_ms);
        assert(avg * left <= elapsed_ms * 0xffff_ffff) by (nonlinear_arith)
            requires
                avg <= elapsed_ms,
                left <= 0xffff_ffff,
        ;
        let ms = avg * left;
        let cut: u64 = #[verifier::truncate] (ms as u64);
        Some(cut)
    }
}

/// A name among the running names belongs to a running module.
proof fn lemma_running_names_member(ms: Seq<ModuleProgress>, name: Seq<char>)
    ensures
        running_names(ms).contains(name) ==> exists|i: int|
            0 <= i < ms.len() && ms[i].name@ == name && ms[i].status == ModuleStatus::Running,
    decreases ms.len(),
{
    if ms.len() > 0 {
        let init = ms.drop_last();
        lemma_running_names_member(init, name);
        if running_names(ms).contains(name) {
            let tail: Seq<Seq<char>> = if ms.last().status == ModuleStatus::Running {
                seq![ms.last().name@]
            } else {
                Seq::empty()
            };
            assert(running_names(ms) == running_names(init) + tail);
            let k = choose|k: int| 0 <= k < running_names(ms).len() && running_names(ms)[k] == name;
            if k < running_names(init).len() {
                assert(running_names(init)[k] == name);
                let i = choose|i: int| 0 <= i < init.len() && init[i].name@ == name && init[i].status == ModuleStatus::Running;
                assert(ms[i] == init[i]);
            } else {
                assert(ms[ms.len() - 1].name@ == name);
            }
        }
    }
}

/// Only running modules are active: a module that is not running, such as
/// one completed or failed, is not among the running module names.
pub proof fn law_finished_module_not_active(r: ProgressReporter, name: Seq<char>)
    requires
        r.wf(),
        module_named(r.spec_modules(), name) matches Some(m) && m.status != ModuleStatus::Running,
    ensures
        !running_names(r.spec_modules()).contains(name),
{
    let ms = r.spec_modules();
    lemma_running_names_member(ms, name);
    if running_names(ms).contains(name) {
        let i = choose|i: int| 0 <= i < ms.len() && ms[i].name@ == name && ms[i].status == ModuleStatus::Running;
        let j = module_index(ms, name)->0;
        if i < j {
            lemma_text_order(ms[i].name@, ms[j].name@, ms[j].name@);
        } else if j < i {
            lemma_text_order(ms[j].name@, ms[i].name@, ms[i].name@);
        }
    }
}

/// What completing module `name` with `findings` does: a known module
/// becomes `Completed` with those findings, keeping its start and getting a
/// duration when it had started; an unknown name changes no module; the
/// other modules and every counter stay as they were.
pub open spec fn completes_module(before: ProgressReporter, after: ProgressReporter, name: Seq<char>, findings: u64) -> bool {
    &&& after.wf()
    &&& match module_named(before.spec_modules(), name) {
        Some(m) => module_named(after.spec_modules(), name) matches Some(n) && n.name == m.name
            && n.status == ModuleStatus::Completed && n.findings_count == findings
            && n.started_at == m.started_at && (n.duration is Some <==> m.started_at is Some),
        None => after.spec_modules() == before.spec_modules(),
    }
    &&& forall|n: Seq<char>| n != name ==> module_named(after.spec_modules(), n) == module_named(before.spec_modules(), n)
    &&& after.spec_phases_total() == before.spec_phases_total()
    &&& after.spec_phases_completed() == before.spec_phases_completed()
    &&& after.spec_current_phase() == before.spec_current_phase()
    &&& after.spec_findings_total() == before.spec_findings_total()
    &&& after.estimated_phases() == before.estimated_phases()
}

/// Completing a started module reports it completed, with its findings and
/// a duration, and no longer active; the other modules stay as they were;
/// completing a module never started changes no module.
pub proof fn law_complete_module(before: ProgressReporter, after: ProgressReporter, name: Seq<char>, findings: u64)
    requires
        before.wf(),
        completes_module(before, after, name, findings),
    ensures
        module_named(before.spec_modules(), name) matches Some(m) && m.started_at is Some ==> (module_named(
            after.spec_modules(),
            name,
        ) matches Some(n) && n.status == ModuleStatus::Completed && n.findings_count == findings && n.duration is Some),
        module_named(before.spec_modules(), name) is Some ==> !running_names(after.spec_modules()).contains(name),
        forall|n: Seq<char>| n != name ==> module_named(after.spec_modules(), n) == module_named(before.spec_modules(), n),
        module_named(before.spec_modules(), name) is None ==> after.spec_modules() == before.spec_modules(),
{
    if module_named(before.spec_modules(), name) is Some {
        law_finished_module_not_active(after, name);
    }
}

} // verus!
