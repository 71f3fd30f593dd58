//! A registry of plugins: manifests, factories that build instances, and
//! the lifecycle of each plugin (`Unloaded` → `Loaded` → `Initialized`).
//!
//! Plugins are kept sorted by name, so listing them needs no sorting and a
//! name is registered at most once.
use vstd::prelude::*;
use std::path::PathBuf;
use std::time::{Duration, SystemTime};
use crate::clock::duration_millis;
use crate::order::{lemma_text_order, text_less, text_lt};
use crate::text::{chars_eq, chars_of, lower, lower_chars, push_decimal, push_str, string_of};

verus! {

/// Hard ceiling on simultaneously registered plugins.
pub const MAX_PLUGINS: usize = 256;

#[verifier::external_type_specification]
#[verifier::external_body]
pub struct ExPathBuf(PathBuf);

#[verifier::external_type_specification]
#[verifier::external_body]
pub struct ExSystemTime(SystemTime);

/// `SystemTime::now` from std: the current time; nothing is stated of it.
#[verifier::external_body]
fn system_time_now() -> SystemTime {
    SystemTime::now()
}

/// `SystemTime::duration_since` from std, against the Unix epoch; `None`
/// for a time before it. Nothing is stated of the duration.
#[verifier::external_body]
fn since_unix_epoch(t: &SystemTime) -> Option<Duration> {
    match t.duration_since(std::time::UNIX_EPOCH) {
        Ok(d) => Some(d),
        Err(_) => None,
    }
}

/// Milliseconds since the Unix epoch, truncated to 64 bits; 0 before the epoch.
fn now_millis() -> u64 {
    let now = system_time_now();
    match since_unix_epoch(&now) {
        Some(d) => {
            let ms = duration_millis(&d);
            #[verifier::truncate]
            (ms as u64)
        },
        None => 0,
    }
}

/// The broad category of a plugin.
#[derive(Debug, Clone, PartialEq, Eq, Hash)]
pub enum PluginType {
    Scanner,
    Reporter,
    Transformer,
    Analyzer,
    Custom(String),
}

/// A `PluginType` with its text as a character sequence.
pub enum PluginTypeModel {
    Scanner,
    Reporter,
    Transformer,
    Analyzer,
    Custom(Seq<char>),
}

impl View for PluginType {
    type V = PluginTypeModel;

    open spec fn view(&self) -> PluginTypeModel {
        match self {
            PluginType::Scanner => PluginTypeModel::Scanner,
            PluginType::Reporter => PluginTypeModel::Reporter,
            PluginType::Transformer => PluginTypeModel::Transformer,
            PluginType::Analyzer => PluginTypeModel::Analyzer,
            PluginType::Custom(s) => PluginTypeModel::Custom(s@),
        }
    }
}

/// The type a lowercased name stands for.
pub open spec fn plugin_type_named(l: Seq<char>) -> PluginTypeModel {
    if l == "scanner"@ {
        PluginTypeModel::Scanner
    } else if l == "reporter"@ {
        PluginTypeModel::Reporter
    } else if l == "transformer"@ {
        PluginTypeModel::Transformer
    } else if l == "analyzer"@ {
        PluginTypeModel::Analyzer
    } else {
        PluginTypeModel::Custom(l)
    }
}

impl PluginTypeModel {
    /// The type's name.
    pub open spec fn text(self) -> Seq<char> {
        match self {
            PluginTypeModel::Scanner => "scanner"@,
            PluginTypeModel::Reporter => "reporter"@,
            PluginTypeModel::Transformer => "transformer"@,
            PluginTypeModel::Analyzer => "analyzer"@,
            PluginTypeModel::Custom(s) => "custom:"@ + s,
        }
    }
}

impl PluginType {
    /// The type named by `s`, ignoring ASCII case; any other name is a
    /// custom type holding the lowercased name.
    pub fn from_str_loose(s: &str) -> (t: Self)
        ensures
            t@ == plugin_type_named(lower(s@)),
    {
        let c = chars_of(s);
        let l = lower_chars(c.as_slice());
        let ls = l.as_slice();
        if crate::text::eq_text(ls, "scanner") {
            PluginType::Scanner
        } else if crate::text::eq_text(ls, "reporter") {
            PluginType::Reporter
        } else if crate::text::eq_text(ls, "transformer") {
            PluginType::Transformer
        } else if crate::text::eq_text(ls, "analyzer") {
            PluginType::Analyzer
        } else {
            PluginType::Custom(string_of(ls))
        }
    }

    /// Renders the type's name.
    pub fn to_string(&self) -> (s: String)
        ensures
            s@ == self@.text(),
    {
        match self {
            PluginType::Scanner => String::from_str("scanner"),
            PluginType::Reporter => String::from_str("reporter"),
            PluginType::Transformer => String::from_str("transformer"),
            PluginType::Analyzer => String::from_str("analyzer"),
            PluginType::Custom(c) => {
                let mut out: Vec<char> = Vec::new();
                push_str(&mut out, "custom:");
                push_str(&mut out, c.as_str());
                string_of(out.as_slice())
            },
        }
    }
}

/// Errors of plugin lifecycle operations.
#[derive(Debug, Clone, PartialEq, Eq)]
pub enum PluginError {
    NotFound(String),
    AlreadyLoaded(String),
    InitializationFailed(String),
    ExecutionFailed(String),
    ManifestParseError(String),
    DependencyMissing(String),
    PermissionDenied(String),
    InvalidState(String),
}

/// A `PluginError` with its text as a character sequence.
pub enum PluginErrorModel {
    NotFound(Seq<char>),
    AlreadyLoaded(Seq<char>),
    InitializationFailed(Seq<char>),
    ExecutionFailed(Seq<char>),
    ManifestParseError(Seq<char>),
    DependencyMissing(Seq<char>),
    PermissionDenied(Seq<char>),
    InvalidState(Seq<char>),
}

impl View for PluginError {
    type V = PluginErrorModel;

    open spec fn view(&self) -> PluginErrorModel {
        match self {
            PluginError::NotFound(s) => PluginErrorModel::NotFound(s@),
            PluginError::AlreadyLoaded(s) => PluginErrorModel::AlreadyLoaded(s@),
            PluginError::InitializationFailed(s) => PluginErrorModel::InitializationFailed(s@),
            PluginError::ExecutionFailed(s) => PluginErrorModel::ExecutionFailed(s@),
            PluginError::ManifestParseError(s) => PluginErrorModel::ManifestParseError(s@),
            PluginError::DependencyMissing(s) => PluginErrorModel::DependencyMissing(s@),
            PluginError::PermissionDenied(s) => PluginErrorModel::PermissionDenied(s@),
            PluginError::InvalidState(s) => PluginErrorModel::InvalidState(s@),
        }
    }
}

impl PluginErrorModel {
    /// The error's description.
    pub open spec fn text(self) -> Seq<char> {
        match self {
            PluginErrorModel::NotFound(s) => "plugin not found: "@ + s,
            PluginErrorModel::AlreadyLoaded(s) => "plugin already loaded: "@ + s,
            PluginErrorModel::InitializationFailed(s) => "initialization failed: "@ + s,
            PluginErrorModel::ExecutionFailed(s) => "execution failed: "@ + s,
            PluginErrorModel::ManifestParseError(s) => "manifest parse error: "@ + s,
            PluginErrorModel::DependencyMissing(s) => "dependency missing: "@ + s,
            PluginErrorModel::PermissionDenied(s) => "permission denied: "@ + s,
            PluginErrorModel::InvalidState(s) => "invalid state: "@ + s,
        }
    }
}

impl PluginError {
    /// Renders the error's description.
    pub fn to_string(&self) -> (s: String)
        ensures
            s@ == self@.text(),
    {
        let mut out: Vec<char> = Vec::new();
        match self {
            PluginError::NotFound(s) => {
                push_str(&mut out, "plugin not found: ");
                push_str(&mut out, s.as_str());
            },
            PluginError::AlreadyLoaded(s) => {
                push_str(&mut out, "plugin already loaded: ");
                push_str(&mut out, s.as_str());
            },
            PluginError::InitializationFailed(s) => {
                push_str(&mut out, "initialization failed: ");
                push_str(&mut out, s.as_str());
            },
            PluginError::ExecutionFailed(s) => {
                push_str(&mut out, "execution failed: ");
                push_str(&mut out, s.as_str());
            },
            PluginError::ManifestParseError(s) => {
                push_str(&mut out, "manifest parse error: ");
                push_str(&mut out, s.as_str());
            },
            PluginError::DependencyMissing(s) => {
                push_str(&mut out, "dependency missing: ");
                push_str(&mut out, s.as_str());
            },
            PluginError::PermissionDenied(s) => {
                push_str(&mut out, "permission denied: ");
                push_str(&mut out, s.as_str());
            },
            PluginError::InvalidState(s) => {
                push_str(&mut out, "invalid state: ");
                push_str(&mut out, s.as_str());
            },
        }
        assert(out@ =~= self@.text());
        string_of(out.as_slice())
    }
}

/// What every plugin implements. The lifecycle is: construct, `initialize`,
/// `execute` any number of times, `shutdown`.
pub trait PluginModule: Send {
    fn name(&self) -> &str;
    fn version(&self) -> &str;
    fn description(&self) -> &str;
    fn module_type(&self) -> PluginType;

    /// `r` is a result that initializing this plugin may give. A plugin
    /// that states nothing may give any result.
    closed spec fn initialized(&self, r: Result<(), PluginError>) -> bool {
        true
    }

    /// `r` is a result that running this plugin on `input` may give. A
    /// plugin that states nothing may give any result.
    closed spec fn executed(&self, input: Seq<char>, r: Result<String, PluginError>) -> bool {
        true
    }

    fn initialize(&mut self) -> (r: Result<(), PluginError>)
        ensures
            old(self).initialized(r),
    ;

    fn execute(&self, input: &str) -> (r: Result<String, PluginError>)
        ensures
            self.executed(input@, r),
    ;

    /// `r` is a result that shutting this plugin down may give, so it was
    /// shut down. A plugin that states nothing may give any result.
    closed spec fn shut_down(&self, r: Result<(), PluginError>) -> bool {
        true
    }

    fn shutdown(&mut self) -> (r: Result<(), PluginError>)
        ensures
            old(self).shut_down(r),
    ;
}

/// What initializing a plugin reports when the plugin's own `initialize`
/// returned `out`: `Ok` and `Initialized`, or `InitializationFailed` and
/// `Error`, both carrying the text of the plugin's error.
pub open spec fn init_reported(out: Result<(), PluginError>, r: Result<(), PluginError>, state: PluginStateModel) -> bool {
    match out {
        Ok(()) => r is Ok && state is Initialized,
        Err(x) => r matches Err(err) && err@ == PluginErrorModel::InitializationFailed(x@.text())
            && state == PluginStateModel::Error(x@.text()),
    }
}

/// A plugin instance that a factory has just built.
pub struct BuiltPlugin {
    pub instance: Box<dyn PluginModule>,
}

/// Builds new instances of a plugin. Closures `Fn() -> Box<dyn PluginModule>`
/// are factories.
pub trait PluginFactory {
    /// `b` is an instance this factory may build.
    spec fn built(&self, b: BuiltPlugin) -> bool;

    fn build(&self) -> (b: BuiltPlugin)
        ensures
            self.built(b),
    ;
}

/// Calls a closure registered as a factory: the instance is what the
/// closure returns, so where the closure's own precondition holds, its
/// postcondition holds of the instance. Nothing more is stated of it.
#[verifier::external_body]
fn call_factory_closure<F: Fn() -> Box<dyn PluginModule>>(f: &F) -> (b: BuiltPlugin)
    ensures
        call_requires(*f, ()) ==> call_ensures(*f, (), b.instance),
{
    BuiltPlugin { instance: f() }
}

impl<F: Fn() -> Box<dyn PluginModule>> PluginFactory for F {
    /// The closure's postcondition holds of `instance` wherever its
    /// precondition holds.
    open spec fn built(&self, b: BuiltPlugin) -> bool {
        call_requires(*self, ()) ==> call_ensures(*self, (), b.instance)
    }

    fn build(&self) -> (b: BuiltPlugin) {
        call_factory_closure(self)
    }
}

/// A factory behind a pointer: the default factory of a registry.
impl PluginFactory for Box<dyn PluginFactory> {
    /// What the factory inside may build.
    open spec fn built(&self, b: BuiltPlugin) -> bool {
        (**self).built(b)
    }

    fn build(&self) -> (b: BuiltPlugin) {
        (**self).build()
    }
}

/// What a closure may build as a factory: any instance that its
/// postcondition allows wherever its precondition holds.
pub proof fn lemma_closure_built<F: Fn() -> Box<dyn PluginModule>>(f: F)
    ensures
        forall|b: BuiltPlugin| #[trigger] f.built(b) == (call_requires(f, ()) ==> call_ensures(f, (), b.instance)),
{
}

/// The descriptor shipped with a plugin.
#[derive(Debug, Clone, PartialEq, Eq)]
pub struct PluginManifest {
    pub name: String,
    pub version: String,
    pub description: String,
    pub author: String,
    pub plugin_type: String,
    pub entry_point: String,
    pub dependencies: Vec<String>,
    pub min_aegis_version: String,
    pub permissions: Vec<String>,
}

/// Where a plugin stands in its lifecycle.
#[derive(Debug, Clone, PartialEq, Eq)]
pub enum PluginState {
    Unloaded,
    Loaded,
    Initialized,
    Running,
    Error(String),
    Disabled,
}

/// A `PluginState` with its text as a character sequence.
pub enum PluginStateModel {
    Unloaded,
    Loaded,
    Initialized,
    Running,
    Error(Seq<char>),
    Disabled,
}

impl View for PluginState {
    type V = PluginStateModel;

    open spec fn view(&self) -> PluginStateModel {
        match self {
            PluginState::Unloaded => PluginStateModel::Unloaded,
            PluginState::Loaded => PluginStateModel::Loaded,
            PluginState::Initialized => PluginStateModel::Initialized,
            PluginState::Running => PluginStateModel::Running,
            PluginState::Error(e) => PluginStateModel::Error(e@),
            PluginState::Disabled => PluginStateModel::Disabled,
        }
    }
}

impl PluginStateModel {
    /// The state's name.
    pub open spec fn text(self) -> Seq<char> {
        match self {
            PluginStateModel::Unloaded => "unloaded"@,
            PluginStateModel::Loaded => "loaded"@,
            PluginStateModel::Initialized => "initialized"@,
            PluginStateModel::Running => "running"@,
            PluginStateModel::Error(e) => "error("@ + e + ")"@,
            PluginStateModel::Disabled => "disabled"@,
        }
    }
}

impl PluginState {
    /// Appends the state's name to `out`.
    fn push_text(&self, out: &mut Vec<char>)
        ensures
            final(out)@ == old(out)@ + self@.text(),
    {
        match self {
            PluginState::Unloaded => push_str(out, "unloaded"),
            PluginState::Loaded => push_str(out, "loaded"),
            PluginState::Initialized => push_str(out, "initialized"),
            PluginState::Running => push_str(out, "running"),
            PluginState::Error(e) => {
                push_str(out, "error(");
                push_str(out, e.as_str());
                push_str(out, ")");
                assert(final(out)@ =~= old(out)@ + self@.text());
            },
            PluginState::Disabled => push_str(out, "disabled"),
        }
    }

    /// Renders the state's name.
    pub fn to_string(&self) -> (s: String)
        ensures
            s@ == self@.text(),
    {
        let mut out: Vec<char> = Vec::new();
        self.push_text(&mut out);
        assert(out@ =~= self@.text());
        string_of(out.as_slice())
    }
}

/// The bookkeeping of one registered plugin.
pub struct PluginEntry {
    pub manifest: PluginManifest,
    pub state: PluginState,
    pub instance: Option<BuiltPlugin>,
    pub loaded_at: Option<u64>,
}

/// The entries are sorted by name, strictly: no name occurs twice.
pub open spec fn sorted_by_name(es: Seq<PluginEntry>) -> bool {
    forall|i: int, j: int| 0 <= i < j < es.len() ==> text_lt(#[trigger] es[i].manifest.name@, #[trigger] es[j].manifest.name@)
}

/// The position of the entry named `name`.
pub open spec fn index_of(es: Seq<PluginEntry>, name: Seq<char>) -> Option<int> {
    if exists|i: int| 0 <= i < es.len() && es[i].manifest.name@ == name {
        Some(choose|i: int| 0 <= i < es.len() && es[i].manifest.name@ == name)
    } else {
        None
    }
}

/// The entry named `name`.
pub open spec fn lookup(es: Seq<PluginEntry>, name: Seq<char>) -> Option<PluginEntry> {
    match index_of(es, name) {
        Some(i) => Some(es[i]),
        None => None,
    }
}

/// In a sorted table the entry named like entry `i` is entry `i`.
proof fn lemma_index_of(es: Seq<PluginEntry>, i: int)
    requires
        sorted_by_name(es),
        0 <= i < es.len(),
    ensures
        index_of(es, es[i].manifest.name@) == Some(i),
        lookup(es, es[i].manifest.name@) == Some(es[i]),
{
    let name = es[i].manifest.name@;
    let j = choose|j: int| 0 <= j < es.len() && es[j].manifest.name@ == name;
    lemma_text_order(name, name, name);
    if j < i {
        assert(text_lt(es[j].manifest.name@, es[i].manifest.name@));
    } else if j > i {
        assert(text_lt(es[i].manifest.name@, es[j].manifest.name@));
    }
}

/// No entry of the table is named `name`.
proof fn lemma_lookup_none(es: Seq<PluginEntry>, name: Seq<char>)
    requires
        forall|k: int| 0 <= k < es.len() ==> es[k].manifest.name@ != name,
    ensures
        index_of(es, name) is None,
        lookup(es, name) is None,
{
}

/// Replacing entry `i` by one of the same name changes what that name
/// looks up and nothing else.
proof fn lemma_update_frame(es: Seq<PluginEntry>, i: int, e: PluginEntry)
    requires
        sorted_by_name(es),
        0 <= i < es.len(),
        e.manifest.name@ == es[i].manifest.name@,
    ensures
        sorted_by_name(es.update(i, e)),
        lookup(es.update(i, e), e.manifest.name@) == Some(e),
        forall|n: Seq<char>| n != e.manifest.name@ ==> lookup(es.update(i, e), n) == lookup(es, n),
{
    let es2 = es.update(i, e);
    assert forall|a: int, b: int| 0 <= a < b < es2.len() implies text_lt(#[trigger] es2[a].manifest.name@, #[trigger] es2[b].manifest.name@) by {
        assert(es2[a].manifest.name@ == es[a].manifest.name@);
        assert(es2[b].manifest.name@ == es[b].manifest.name@);
    }
    lemma_index_of(es2, i);
    assert forall|n: Seq<char>| n != e.manifest.name@ implies lookup(es2, n) == lookup(es, n) by {
        if exists|k: int| 0 <= k < es.len() && es[k].manifest.name@ == n {
            let k = choose|k: int| 0 <= k < es.len() && es[k].manifest.name@ == n;
            lemma_index_of(es, k);
            assert(k != i);
            assert(es2[k] == es[k]);
            lemma_index_of(es2, k);
        } else {
            assert forall|k: int| 0 <= k < es2.len() implies es2[k].manifest.name@ != n by {
                if k != i {
                    assert(es2[k] == es[k]);
                }
            }
            lemma_lookup_none(es2, n);
        }
    }
}

/// The registered plugins, sorted by name.
pub struct PluginTable {
    entries: Vec<PluginEntry>,
}

impl View for PluginTable {
    type V = Seq<PluginEntry>;

    closed spec fn view(&self) -> Seq<PluginEntry> {
        self.entries@
    }
}

impl PluginTable {
    /// The table is sorted by name.
    pub open spec fn wf(self) -> bool {
        sorted_by_name(self@)
    }

    pub fn new() -> (t: Self)
        ensures
            t@ == Seq::<PluginEntry>::empty(),
            t.wf(),
    {
        PluginTable { entries: Vec::new() }
    }

    /// How many plugins are registered.
    pub fn len(&self) -> (n: usize)
        ensures
            n == self@.len(),
    {
        self.entries.len()
    }

    /// Whether no plugin is registered.
    pub fn is_empty(&self) -> (b: bool)
        ensures
            b == (self@.len() == 0),
    {
        self.entries.len() == 0
    }

    /// The position of the entry named `name`.
    fn position(&self, name: &[char]) -> (r: Option<usize>)
        requires
            self.wf(),
        ensures
            match r {
                Some(i) => i < self@.len() && index_of(self@, name@) == Some(i as int),
                None => index_of(self@, name@) is None,
            },
    {
        let mut i: usize = 0;
        while i < self.entries.len()
            invariant
                self.wf(),
                i <= self@.len(),
                forall|k: int| 0 <= k < i ==> self@[k].manifest.name@ != name@,
            decreases self.entries.len() - i,
        {
            let n = chars_of(self.entries[i].manifest.name.as_str());
            if chars_eq(n.as_slice(), name) {
                proof { lemma_index_of(self@, i as int); }
                return Some(i);
            }
            i += 1;
        }
        proof { lemma_lookup_none(self@, name@); }
        None
    }

    /// The entry named `name`.
    pub fn get(&self, name: &str) -> (r: Option<&PluginEntry>)
        requires
            self.wf(),
        ensures
            match lookup(self@, name@) {
                Some(e) => r is Some && *r->0 == e,
                None => r is None,
            },
    {
        let n = chars_of(name);
        match self.position(n.as_slice()) {
            Some(i) => Some(&self.entries[i]),
            None => None,
        }
    }

    /// Where an entry named `name`, absent from the table, belongs.
    fn insertion_point(&self, name: &[char]) -> (p: usize)
        requires
            self.wf(),
            forall|k: int| 0 <= k < self@.len() ==> self@[k].manifest.name@ != name@,
        ensures
            p <= self@.len(),
            forall|k: int| 0 <= k < p ==> text_lt(self@[k].manifest.name@, name@),
            forall|k: int| p <= k < self@.len() ==> text_lt(name@, self@[k].manifest.name@),
    {
        let mut p: usize = 0;
        while p < self.entries.len()
            invariant
                self.wf(),
                forall|k: int| 0 <= k < self@.len() ==> self@[k].manifest.name@ != name@,
                p <= self@.len(),
                forall|k: int| 0 <= k < p ==> text_lt(self@[k].manifest.name@, name@),
            decreases self.entries.len() - p,
        {
            let n = chars_of(self.entries[p].manifest.name.as_str());
            if !text_less(n.as_slice(), name) {
                proof {
                    lemma_text_order(name@, self@[p as int].manifest.name@, name@);
                    assert forall|k: int| p <= k < self@.len() implies text_lt(name@, self@[k].manifest.name@) by {
                        if k > p {
                            lemma_text_order(name@, self@[p as int].manifest.name@, self@[k].manifest.name@);
                        }
                    }
                }
                return p;
            }
            p += 1;
        }
        p
    }

    /// Adds an entry whose name is not registered, keeping the table sorted.
    fn insert_new(&mut self, e: PluginEntry)
        requires
            old(self).wf(),
            lookup(old(self)@, e.manifest.name@) is None,
        ensures
            final(self).wf(),
            final(self)@.len() == old(self)@.len() + 1,
            lookup(final(self)@, e.manifest.name@) == Some(e),
            forall|n: Seq<char>| n != e.manifest.name@ ==> lookup(final(self)@, n) == lookup(old(self)@, n),
    {
        let n = chars_of(e.manifest.name.as_str());
        proof {
            if exists|k: int| 0 <= k < old(self)@.len() && old(self)@[k].manifest.name@ == e.manifest.name@ {
                assert(index_of(old(self)@, e.manifest.name@) is Some);
            }
        }
        let p = self.insertion_point(n.as_slice());
        let ghost es = self@;
        self.entries.insert(p, e);
        let ghost es2 = self@;
        proof {
            assert(es2 == es.insert(p as int, e));
            assert forall|a: int, b: int| 0 <= a < b < es2.len() implies text_lt(#[trigger] es2[a].manifest.name@, #[trigger] es2[b].manifest.name@) by {
                if b < p {
                    assert(es2[a] == es[a] && es2[b] == es[b]);
                } else if b == p {
                    assert(es2[a] == es[a]);
                } else if a == p {
                    assert(es2[b] == es[b - 1]);
                } else if a < p {
                    assert(es2[a] == es[a] && es2[b] == es[b - 1]);
                    lemma_text_order(es[a].manifest.name@, e.manifest.name@, es[b - 1].manifest.name@);
                } else {
                    assert(es2[a] == es[a - 1] && es2[b] == es[b - 1]);
                }
            }
            assert(es2[p as int] == e);
            lemma_index_of(es2, p as int);
            assert forall|m: Seq<char>| m != e.manifest.name@ implies lookup(es2, m) == lookup(es, m) by {
                if exists|k: int| 0 <= k < es.len() && es[k].manifest.name@ == m {
                    let k = choose|k: int| 0 <= k < es.len() && es[k].manifest.name@ == m;
                    lemma_index_of(es, k);
                    let k2 = if k < p { k } else { k + 1 };
                    assert(es2[k2] == es[k]);
                    lemma_index_of(es2, k2);
                } else {
                    assert forall|k: int| 0 <= k < es2.len() implies es2[k].manifest.name@ != m by {
                        if k < p {
                            assert(es2[k] == es[k]);
                        } else if k > p {
                            assert(es2[k] == es[k - 1]);
                        }
                    }
                    lemma_lookup_none(es2, m);
                }
            }
        }
    }
}

/// `"plugin '<name>' is in state '<state>', expected '<wanted>'"`.
pub open spec fn wrong_state_text(name: Seq<char>, state: PluginStateModel, wanted: Seq<char>) -> Seq<char> {
    "plugin '"@ + name + "' is in state '"@ + state.text() + "', expected '"@ + wanted + "'"@
}

/// Appends `"plugin '<name>' is in state '<state>', expected '"` to `out`.
fn push_wrong_state(out: &mut Vec<char>, name: &[char], state: &PluginState)
    ensures
        final(out)@ == old(out)@ + "plugin '"@ + name@ + "' is in state '"@ + state@.text() + "', expected '"@,
{
    push_str(out, "plugin '");
    let mut i: usize = 0;
    let ghost base = out@;
    while i < name.len()
        invariant
            i <= name@.len(),
            out@ == base + name@.take(i as int),
        decreases name.len() - i,
    {
        out.push(name[i]);
        assert(name@.take(i + 1) =~= name@.take(i as int).push(name@[i as int]));
        i += 1;
    }
    assert(name@.take(name@.len() as int) =~= name@);
    push_str(out, "' is in state '");
    state.push_text(out);
    push_str(out, "', expected '");
    assert(final(out)@ =~= old(out)@ + "plugin '"@ + name@ + "' is in state '"@ + state@.text() + "', expected '"@);
}

/// The error for a plugin found in `state` where `wanted` was expected.
fn wrong_state(name: &[char], state: &PluginState, wanted: &str) -> (e: PluginError)
    ensures
        e@ == PluginErrorModel::InvalidState(wrong_state_text(name@, state@, wanted@)),
{
    let mut out: Vec<char> = Vec::new();
    push_wrong_state(&mut out, name, state);
    push_str(&mut out, wanted);
    push_str(&mut out, "'");
    assert(out@ =~= wrong_state_text(name@, state@, wanted@));
    PluginError::InvalidState(string_of(out.as_slice()))
}

/// Appends the characters `s` to `out`.
fn push_chars(out: &mut Vec<char>, s: &[char])
    ensures
        final(out)@ == old(out)@ + s@,
{
    let mut i: usize = 0;
    while i < s.len()
        invariant
            i <= s@.len(),
            out@ == old(out)@ + s@.take(i as int),
        decreases s.len() - i,
    {
        out.push(s[i]);
        assert(s@.take(i + 1) =~= s@.take(i as int).push(s@[i as int]));
        i += 1;
    }
    assert(s@.take(s@.len() as int) =~= s@);
}

/// The text `pre`, then `name`, then `post`.
fn framed(pre: &str, name: &[char], post: &str) -> (s: String)
    ensures
        s@ == pre@ + name@ + post@,
{
    let mut out: Vec<char> = Vec::new();
    push_str(&mut out, pre);
    let ghost base = out@;
    let mut i: usize = 0;
    while i < name.len()
        invariant
            i <= name@.len(),
            out@ == base + name@.take(i as int),
        decreases name.len() - i,
    {
        out.push(name[i]);
        assert(name@.take(i + 1) =~= name@.take(i as int).push(name@[i as int]));
        i += 1;
    }
    assert(name@.take(name@.len() as int) =~= name@);
    push_str(&mut out, post);
    assert(out@ =~= pre@ + name@ + post@);
    string_of(out.as_slice())
}

/// The dependency `d` is not usable: not registered, or unloaded or disabled.
pub open spec fn dependency_unmet(es: Seq<PluginEntry>, d: Seq<char>) -> bool {
    match lookup(es, d) {
        Some(e) => e.state@ is Unloaded || e.state@ is Disabled,
        None => true,
    }
}

/// The first unusable dependency among `deps`.
pub open spec fn first_unmet(es: Seq<PluginEntry>, deps: Seq<Seq<char>>) -> Option<int> {
    if exists|k: int| 0 <= k < deps.len() && dependency_unmet(es, deps[k]) {
        Some(choose|k: int| 0 <= k < deps.len() && dependency_unmet(es, deps[k])
            && forall|m: int| 0 <= m < k ==> !dependency_unmet(es, deps[m]))
    } else {
        None
    }
}

/// The report on an unusable dependency `d`.
pub open spec fn unmet_text(es: Seq<PluginEntry>, d: Seq<char>) -> Seq<char> {
    match lookup(es, d) {
        Some(e) => "dependency '"@ + d + "' exists but is in state '"@ + e.state@.text() + "'"@,
        None => "dependency '"@ + d + "' is not registered"@,
    }
}

/// The entry named `name` after a change to its bookkeeping.
pub open spec fn changed_entry(old_es: Seq<PluginEntry>, new_es: Seq<PluginEntry>, name: Seq<char>) -> bool {
    &&& sorted_by_name(new_es)
    &&& new_es.len() == old_es.len()
    &&& lookup(new_es, name) is Some
    &&& lookup(new_es, name)->0.manifest == lookup(old_es, name)->0.manifest
    &&& forall|n: Seq<char>| n != name ==> lookup(new_es, n) == lookup(old_es, n)
}

/// What unloading `name` does: the instance, if any, is shut down (its
/// result ignored) and the plugin returns to `Unloaded` without an
/// instance; `NotFound` for an unknown name.
pub open spec fn unload_effect<F: PluginFactory>(
    before: PluginRegistry<F>,
    after: PluginRegistry<F>,
    name: Seq<char>,
    r: Result<(), PluginError>,
) -> bool {
    &&& after.plugins.wf()
    &&& after.plugin_dir == before.plugin_dir
    &&& after.factory_names() == before.factory_names()
    &&& after.factories@ == before.factories@
    &&& match lookup(before.plugins@, name) {
        None => {
            &&& r matches Err(e) && e@ == PluginErrorModel::NotFound(name)
            &&& after.plugins@ == before.plugins@
        },
        Some(e) => {
            &&& r is Ok
            &&& e.instance matches Some(b) ==> exists|out: Result<(), PluginError>| b.instance.shut_down(out)
            &&& changed_entry(before.plugins@, after.plugins@, name)
            &&& lookup(after.plugins@, name) matches Some(n) && n.state@ is Unloaded
                && n.instance is None && n.loaded_at is None
        }
    }
}

/// What loading `name` does: an `Unloaded` plugin with a factory becomes
/// `Loaded` with an instance its factory may build; each other case is its error.
pub open spec fn load_effect<F: PluginFactory>(
    before: PluginRegistry<F>,
    after: PluginRegistry<F>,
    name: Seq<char>,
    r: Result<(), PluginError>,
) -> bool {
    &&& after.plugins.wf()
    &&& after.plugin_dir == before.plugin_dir
    &&& after.factory_names() == before.factory_names()
    &&& after.factories@ == before.factories@
    &&& match lookup(before.plugins@, name) {
        None => {
            &&& r matches Err(e) && e@ == PluginErrorModel::NotFound(name)
            &&& after.plugins@ == before.plugins@
        },
        Some(e) => if !(e.state@ is Unloaded) {
            &&& r matches Err(err) && err@ == PluginErrorModel::InvalidState(
                wrong_state_text(name, e.state@, "unloaded"@),
            )
            &&& after.plugins@ == before.plugins@
        } else if !before.has_factory(name) {
            &&& r matches Err(err) && err@ == PluginErrorModel::NotFound(
                "no factory registered for '"@ + name + "'"@,
            )
            &&& after.plugins@ == before.plugins@
        } else {
            &&& r is Ok
            &&& changed_entry(before.plugins@, after.plugins@, name)
            &&& lookup(after.plugins@, name) matches Some(n) && n.state@ is Loaded
                && n.instance is Some && n.loaded_at is Some
                && before.factory_built(name, n.instance->0)
        }
    }
}

/// What initializing `name` does: a `Loaded` plugin with an instance
/// reports what the instance's `initialize` returned; each other case is its error.
pub open spec fn initialize_effect<F: PluginFactory>(
    before: PluginRegistry<F>,
    after: PluginRegistry<F>,
    name: Seq<char>,
    r: Result<(), PluginError>,
) -> bool {
    &&& after.plugins.wf()
    &&& after.plugin_dir == before.plugin_dir
    &&& after.factory_names() == before.factory_names()
    &&& after.factories@ == before.factories@
    &&& match lookup(before.plugins@, name) {
        None => {
            &&& r matches Err(e) && e@ == PluginErrorModel::NotFound(name)
            &&& after.plugins@ == before.plugins@
        },
        Some(e) => if !(e.state@ is Loaded) {
            &&& r matches Err(err) && err@ == PluginErrorModel::InvalidState(
                wrong_state_text(name, e.state@, "loaded"@),
            )
            &&& after.plugins@ == before.plugins@
        } else if e.instance is None {
            &&& r matches Err(err) && err@ == PluginErrorModel::InvalidState("no instance present"@)
            &&& after.plugins@ == before.plugins@
        } else {
            &&& changed_entry(before.plugins@, after.plugins@, name)
            &&& lookup(after.plugins@, name) matches Some(n)
                && n.instance is Some && n.loaded_at == e.loaded_at
                && exists|out: Result<(), PluginError>| (e.instance->0).instance.initialized(out)
                    && init_reported(out, r, n.state@)
        }
    }
}

/// What reloading `name` does: unloading, then loading, then initializing,
/// stopping at the first step that fails, with that step's error.
pub open spec fn reload_effect<F: PluginFactory>(
    before: PluginRegistry<F>,
    after: PluginRegistry<F>,
    name: Seq<char>,
    r: Result<(), PluginError>,
) -> bool {
    exists|s1: PluginRegistry<F>, r1: Result<(), PluginError>| {
        &&& #[trigger] unload_effect(before, s1, name, r1)
        &&& match r1 {
            Err(_) => after == s1 && r == r1,
            Ok(_) => exists|s2: PluginRegistry<F>, r2: Result<(), PluginError>| {
                &&& #[trigger] load_effect(s1, s2, name, r2)
                &&& match r2 {
                    Err(_) => after == s2 && r == r2,
                    Ok(_) => initialize_effect(s2, after, name, r),
                }
            },
        }
    }
}

/// A factory registered under a plugin name.
pub struct FactoryEntry<F> {
    pub name: String,
    pub factory: F,
}

/// A factory entry for `name`.
fn factory_entry<F>(name: String, factory: F) -> (e: FactoryEntry<F>)
    ensures
        e.name == name,
        e.factory == factory,
{
    FactoryEntry { name, factory }
}

/// Appends a factory entry.
fn push_factory<F>(v: &mut Vec<FactoryEntry<F>>, e: FactoryEntry<F>)
    ensures
        final(v)@ == old(v)@.push(e),
{
    v.push(e);
}

/// Replaces factory entry `i`.
fn set_factory<F>(v: &mut Vec<FactoryEntry<F>>, i: usize, e: FactoryEntry<F>)
    requires
        i < old(v)@.len(),
    ensures
        final(v)@ == old(v)@.update(i as int, e),
{
    v.set(i, e);
}

/// Tracks manifests, the factories that build plugins, and live instances.
pub struct PluginRegistry<F = Box<dyn PluginFactory>> {
    pub plugins: PluginTable,
    pub plugin_dir: PathBuf,
    pub factories: Vec<FactoryEntry<F>>,
}

impl PluginRegistry<Box<dyn PluginFactory>> {
    /// An empty registry rooted at `plugin_dir`.
    pub fn new(plugin_dir: PathBuf) -> (r: Self)
        ensures
            r.plugins@ == Seq::<PluginEntry>::empty(),
            r.plugins.wf(),
            r.plugin_dir == plugin_dir,
            forall|n: Seq<char>| !r.has_factory(n),
    {
        Self::empty(plugin_dir)
    }
}

impl<F: PluginFactory> PluginRegistry<F> {
    /// The names that have a factory, in registration order.
    pub closed spec fn factory_names(self) -> Seq<Seq<char>> {
        self.factories@.map_values(|f: FactoryEntry<F>| f.name@)
    }

    /// The factory registered for `name`, the first of that name, may build
    /// `instance`.
    pub open spec fn factory_built(self, name: Seq<char>, b: BuiltPlugin) -> bool {
        exists|i: int|
            0 <= i < self.factories@.len() && self.factories@[i].name@ == name && (forall|k: int|
                0 <= k < i ==> self.factories@[k].name@ != name) && #[trigger] self.factories@[i].factory.built(b)
    }

    /// A factory is registered for `name`.
    pub open spec fn has_factory(self, name: Seq<char>) -> bool {
        self.factory_names().contains(name)
    }

    /// An empty registry rooted at `plugin_dir`, for factories of type `F`.
    pub fn empty(plugin_dir: PathBuf) -> (r: Self)
        ensures
            r.plugins@ == Seq::<PluginEntry>::empty(),
            r.plugins.wf(),
            r.plugin_dir == plugin_dir,
            forall|n: Seq<char>| !r.has_factory(n),
    {
        let r = PluginRegistry { plugins: PluginTable::new(), plugin_dir, factories: Vec::new() };
        assert(r.factory_names() =~= Seq::<Seq<char>>::empty());
        r
    }

    /// Registers the factory that builds plugin `name`, replacing any
    /// earlier one.
    pub fn register_factory(&mut self, name: &str, factory: F)
        ensures
            final(self).plugins@ == old(self).plugins@,
            final(self).plugin_dir == old(self).plugin_dir,
            forall|n: Seq<char>| final(self).has_factory(n) <==> (old(self).has_factory(n) || n == name@),
            forall|inst: BuiltPlugin| #[trigger] final(self).factory_built(name@, inst) == factory.built(inst),
            forall|n: Seq<char>, inst: BuiltPlugin|
                n != name@ ==> #[trigger] final(self).factory_built(n, inst) == old(self).factory_built(n, inst),
    {
        let nm = chars_of(name);
        let mut i: usize = 0;
        while i < self.factories.len()
            invariant
                self.factories@ == old(self).factories@,
                self.plugins == old(self).plugins,
                self.plugin_dir == old(self).plugin_dir,
                nm@ == name@,
                i <= self.factories@.len(),
                forall|k: int| 0 <= k < i ==> self.factory_names()[k] != name@,
            decreases self.factories.len() - i,
        {
            let f = chars_of(self.factories[i].name.as_str());
            if chars_eq(f.as_slice(), nm.as_slice()) {
                let ghost before = self.factory_names();
                let ghost fs = self.factories@;
                let key = String::from_str(name);
                assert(key@ == name@);
                let entry = factory_entry(key, factory);
                set_factory(&mut self.factories, i, entry);
                proof {
                    assert forall|k: int| 0 <= k < fs.len() implies self.factories@[k].name@ == before.update(i as int, name@)[k] by {
                        if k != i {
                            assert(self.factories@[k] == fs[k]);
                        }
                    }
                    assert(self.factory_names() =~= before.update(i as int, name@));
                    assert forall|n: Seq<char>| self.has_factory(n) <==> (old(self).has_factory(n) || n == name@) by {
                        if old(self).has_factory(n) && n != name@ {
                            let k = choose|k: int| 0 <= k < before.len() && before[k] == n;
                            assert(self.factory_names()[k] == n);
                        }
                        if self.has_factory(n) && n != name@ {
                            let k = choose|k: int| 0 <= k < self.factory_names().len() && self.factory_names()[k] == n;
                            assert(k != i);
                            assert(before[k] == n);
                        }
                        if n == name@ {
                            assert(self.factory_names()[i as int] == n);
                        }
                    }
                    let ghost fnew = self.factories@;
                    assert(forall|k: int| 0 <= k < fs.len() ==> fnew[k].name@ == fs[k].name@) by {
                        assert forall|k: int| 0 <= k < fs.len() implies fnew[k].name@ == fs[k].name@ by {
                            assert(self.factory_names()[k] == fnew[k].name@);
                            assert(before[k] == fs[k].name@);
                        }
                    }
                    assert(forall|k: int| 0 <= k < i ==> fs[k].name@ != name@) by {
                        assert forall|k: int| 0 <= k < i implies fs[k].name@ != name@ by {
                            assert(before[k] == fs[k].name@);
                        }
                    }
                    assert forall|inst: BuiltPlugin| #[trigger] self.factory_built(name@, inst) == factory.built(inst) by {
                        if self.factory_built(name@, inst) {
                            let j = choose|j: int|
                                0 <= j < fnew.len() && fnew[j].name@ == name@ && (forall|k: int|
                                    0 <= k < j ==> fnew[k].name@ != name@) && #[trigger] fnew[j].factory.built(inst);
                            if j < i {
                                assert(fnew[j] == fs[j]);
                            }
                            if j > i {
                                assert(fnew[i as int].name@ == name@);
                            }
                        }
                        if factory.built(inst) {
                            assert(fnew[i as int].factory.built(inst));
                        }
                    }
                    assert forall|n: Seq<char>, inst: BuiltPlugin|
                        n != name@ implies #[trigger] self.factory_built(n, inst) == old(self).factory_built(n, inst) by {
                        if self.factory_built(n, inst) {
                            let j = choose|j: int|
                                0 <= j < fnew.len() && fnew[j].name@ == n && (forall|k: int|
                                    0 <= k < j ==> fnew[k].name@ != n) && #[trigger] fnew[j].factory.built(inst);
                            assert(j != i);
                            assert(fnew[j] == fs[j]);
                            assert(fs[j].factory.built(inst));
                        }
                        if old(self).factory_built(n, inst) {
                            let j = choose|j: int|
                                0 <= j < fs.len() && fs[j].name@ == n && (forall|k: int|
                                    0 <= k < j ==> fs[k].name@ != n) && #[trigger] fs[j].factory.built(inst);
                            assert(j != i);
                            assert(fnew[j] == fs[j]);
                            assert(fnew[j].factory.built(inst));
                        }
                    }
                }
                return;
            }
            i += 1;
        }
        let ghost before = self.factory_names();
        let ghost fs = self.factories@;
        let key = String::from_str(name);
        assert(key@ == name@);
        let entry = factory_entry(key, factory);
        push_factory(&mut self.factories, entry);
        proof {
            assert forall|k: int| 0 <= k < fs.len() + 1 implies self.factories@[k].name@ == before.push(name@)[k] by {
                if k < fs.len() {
                    assert(self.factories@[k] == fs[k]);
                }
            }
            assert(self.factory_names() =~= before.push(name@));
            assert forall|n: Seq<char>| self.has_factory(n) <==> (old(self).has_factory(n) || n == name@) by {
                if old(self).has_factory(n) {
                    let k = choose|k: int| 0 <= k < before.len() && before[k] == n;
                    assert(self.factory_names()[k] == n);
                }
                if self.has_factory(n) && n != name@ {
                    let k = choose|k: int| 0 <= k < self.factory_names().len() && self.factory_names()[k] == n;
                    assert(k < before.len());
                    assert(before[k] == n);
                }
                if n == name@ {
                    assert(self.factory_names()[before.len() as int] == n);
                }
            }
            let fnew = self.factories@;
            let m = fs.len() as int;
            assert(fnew == fs.push(entry));
            assert(forall|k: int| 0 <= k < m ==> fs[k].name@ != name@) by {
                assert forall|k: int| 0 <= k < m implies fs[k].name@ != name@ by {
                    assert(before[k] == fs[k].name@);
                }
            }
            assert forall|inst: BuiltPlugin| #[trigger] self.factory_built(name@, inst) == factory.built(inst) by {
                if self.factory_built(name@, inst) {
                    let j = choose|j: int|
                        0 <= j < fnew.len() && fnew[j].name@ == name@ && (forall|k: int|
                            0 <= k < j ==> fnew[k].name@ != name@) && #[trigger] fnew[j].factory.built(inst);
                    if j < m {
                        assert(fnew[j] == fs[j]);
                    }
                }
                if factory.built(inst) {
                    assert(fnew[m].factory.built(inst));
                    assert forall|k: int| 0 <= k < m implies fnew[k].name@ != name@ by {
                        assert(fnew[k] == fs[k]);
                    }
                }
            }
            assert forall|n: Seq<char>, inst: BuiltPlugin|
                n != name@ implies #[trigger] self.factory_built(n, inst) == old(self).factory_built(n, inst) by {
                if self.factory_built(n, inst) {
                    let j = choose|j: int|
                        0 <= j < fnew.len() && fnew[j].name@ == n && (forall|k: int|
                            0 <= k < j ==> fnew[k].name@ != n) && #[trigger] fnew[j].factory.built(inst);
                    assert(j != m);
                    assert(fnew[j] == fs[j]);
                    assert(fs[j].factory.built(inst));
                    assert forall|k: int| 0 <= k < j implies fs[k].name@ != n by {
                        assert(fnew[k] == fs[k]);
                    }
                }
                if old(self).factory_built(n, inst) {
                    let j = choose|j: int|
                        0 <= j < fs.len() && fs[j].name@ == n && (forall|k: int|
                            0 <= k < j ==> fs[k].name@ != n) && #[trigger] fs[j].factory.built(inst);
                    assert(fnew[j] == fs[j]);
                    assert(fnew[j].factory.built(inst));
                    assert forall|k: int| 0 <= k < j implies fnew[k].name@ != n by {
                        assert(fnew[k] == fs[k]);
                    }
                }
            }
        }
    }

    /// The position of the factory for `name`.
    fn factory_position(&self, name: &[char]) -> (r: Option<usize>)
        ensures
            match r {
                Some(i) => i < self.factories@.len() && self.factory_names()[i as int] == name@
                    && forall|k: int| 0 <= k < i ==> self.factory_names()[k] != name@,
                None => !self.has_factory(name@),
            },
    {
        let mut i: usize = 0;
        while i < self.factories.len()
            invariant
                i <= self.factories@.len(),
                forall|k: int| 0 <= k < i ==> self.factory_names()[k] != name@,
            decreases self.factories.len() - i,
        {
            let f = chars_of(self.factories[i].name.as_str());
            if chars_eq(f.as_slice(), name) {
                return Some(i);
            }
            i += 1;
        }
        None
    }

    /// Registers the plugin a manifest describes, `Unloaded`, and returns
    /// its name. A name registered already is `AlreadyLoaded`; a full
    /// registry (`MAX_PLUGINS`) is `PermissionDenied`.
    pub fn add_manifest(&mut self, manifest: PluginManifest) -> (r: Result<String, PluginError>)
        requires
            old(self).plugins.wf(),
        ensures
            final(self).plugins.wf(),
            final(self).plugin_dir == old(self).plugin_dir,
            final(self).factory_names() == old(self).factory_names(),
            final(self).factories@ == old(self).factories@,
            lookup(old(self).plugins@, manifest.name@) is Some ==> {
                &&& r matches Err(e) && e@ == PluginErrorModel::AlreadyLoaded(manifest.name@)
                &&& final(self).plugins@ == old(self).plugins@
            },
            lookup(old(self).plugins@, manifest.name@) is None && old(self).plugins@.len() >= MAX_PLUGINS ==> {
                &&& r matches Err(e) && e@ == PluginErrorModel::PermissionDenied(
                    "registry full \u{2014} max "@ + crate::text::decimal(MAX_PLUGINS as nat) + " plugins"@,
                )
                &&& final(self).plugins@ == old(self).plugins@
            },
            lookup(old(self).plugins@, manifest.name@) is None && old(self).plugins@.len() < MAX_PLUGINS ==> {
                &&& r matches Ok(n) && n@ == manifest.name@
                &&& final(self).plugins@.len() == old(self).plugins@.len() + 1
                &&& lookup(final(self).plugins@, manifest.name@) matches Some(e) && e.manifest == manifest
                    && e.state@ is Unloaded && e.instance is None && e.loaded_at is None
                &&& forall|n: Seq<char>| n != manifest.name@ ==> lookup(final(self).plugins@, n) == lookup(old(self).plugins@, n)
            },
    {
        let nm = chars_of(manifest.name.as_str());
        match self.plugins.position(nm.as_slice()) {
            Some(_) => {
                return Err(PluginError::AlreadyLoaded(manifest.name.clone()));
            },
            None => {},
        }
        if self.plugins.len() >= MAX_PLUGINS {
            let mut out: Vec<char> = Vec::new();
            push_str(&mut out, "registry full \u{2014} max ");
            push_decimal(&mut out, MAX_PLUGINS as u64);
            push_str(&mut out, " plugins");
            return Err(PluginError::PermissionDenied(string_of(out.as_slice())));
        }
        let name = manifest.name.clone();
        let entry = PluginEntry { manifest, state: PluginState::Unloaded, instance: None, loaded_at: None };
        self.plugins.insert_new(entry);
        Ok(name)
    }

    /// Builds an instance of `name` with its factory: `Unloaded` becomes
    /// `Loaded`, with the time of loading.
    pub fn load_plugin(&mut self, name: &str) -> (r: Result<(), PluginError>)
        requires
            old(self).plugins.wf(),
        ensures
            load_effect(*old(self), *final(self), name@, r),
    {
        let nm = chars_of(name);
        let i = match self.plugins.position(nm.as_slice()) {
            Some(i) => i,
            None => return Err(PluginError::NotFound(String::from_str(name))),
        };
        match &self.plugins.entries[i].state {
            PluginState::Unloaded => {},
            other => return Err(wrong_state(nm.as_slice(), other, "unloaded")),
        }
        let f = match self.factory_position(nm.as_slice()) {
            Some(f) => f,
            None => return Err(PluginError::NotFound(framed("no factory registered for '", nm.as_slice(), "'"))),
        };
        let built = self.factories[f].factory.build();
        proof {
            assert(self.factories@[f as int].factory.built(built));
            assert forall|k: int| 0 <= k < f implies self.factories@[k].name@ != name@ by {
                assert(self.factory_names()[k] == self.factories@[k].name@);
            }
            assert(self.factory_names()[f as int] == self.factories@[f as int].name@);
            assert(self.factory_built(name@, built));
        }
        let now = now_millis();
        let ghost es = self.plugins@;
        let ghost old_entry = self.plugins@[i as int];
        self.plugins.entries[i].instance = Some(built);
        self.plugins.entries[i].state = PluginState::Loaded;
        self.plugins.entries[i].loaded_at = Some(now);
        proof {
            lemma_index_of(es, i as int);
            lemma_update_frame(es, i as int, self.plugins@[i as int]);
            assert(self.plugins@ =~= es.update(i as int, self.plugins@[i as int]));
        }
        Ok(())
    }

    /// Initializes a `Loaded` plugin: `Initialized` when the plugin's
    /// `initialize` succeeds, `Error` with its message when it fails.
    pub fn initialize_plugin(&mut self, name: &str) -> (r: Result<(), PluginError>)
        requires
            old(self).plugins.wf(),
        ensures
            initialize_effect(*old(self), *final(self), name@, r),
    {
        let nm = chars_of(name);
        let i = match self.plugins.position(nm.as_slice()) {
            Some(i) => i,
            None => return Err(PluginError::NotFound(String::from_str(name))),
        };
        proof { lemma_index_of(self.plugins@, i as int); }
        match &self.plugins.entries[i].state {
            PluginState::Loaded => {},
            other => return Err(wrong_state(nm.as_slice(), other, "loaded")),
        }
        if self.plugins.entries[i].instance.is_none() {
            return Err(PluginError::InvalidState(String::from_str("no instance present")));
        }
        let ghost es = self.plugins@;
        let ghost inst0 = es[i as int].instance->0.instance;
        let outcome = match &mut self.plugins.entries[i].instance {
            Some(inst) => inst.instance.initialize(),
            None => Ok(()),
        };
        assert(inst0.initialized(outcome));
        let r = match outcome {
            Ok(()) => {
                self.plugins.entries[i].state = PluginState::Initialized;
                Ok(())
            },
            Err(e) => {
                let msg = e.to_string();
                let msg2 = e.to_string();
                self.plugins.entries[i].state = PluginState::Error(msg);
                Err(PluginError::InitializationFailed(msg2))
            },
        };
        proof {
            lemma_update_frame(es, i as int, self.plugins@[i as int]);
            assert(self.plugins@ =~= es.update(i as int, self.plugins@[i as int]));
        }
        r
    }

    /// Runs an `Initialized` or `Running` plugin on `input`; what it returns
    /// is the plugin's own.
    pub fn execute_plugin(&self, name: &str, input: &str) -> (r: Result<String, PluginError>)
        requires
            self.plugins.wf(),
        ensures
            match lookup(self.plugins@, name@) {
                None => r matches Err(e) && e@ == PluginErrorModel::NotFound(name@),
                Some(e) => if !(e.state@ is Initialized || e.state@ is Running) {
                    r matches Err(err) && err@ == PluginErrorModel::InvalidState(
                        wrong_state_text(name@, e.state@, "initialized' or 'running"@),
                    )
                } else if e.instance is None {
                    r matches Err(err) && err@ == PluginErrorModel::InvalidState("no instance present"@)
                } else {
                    (e.instance->0).instance.executed(input@, r)
                },
            },
    {
        let nm = chars_of(name);
        let i = match self.plugins.position(nm.as_slice()) {
            Some(i) => i,
            None => return Err(PluginError::NotFound(String::from_str(name))),
        };
        proof { lemma_index_of(self.plugins@, i as int); }
        let entry = &self.plugins.entries[i];
        match &entry.state {
            PluginState::Initialized | PluginState::Running => {},
            other => return Err(wrong_state(nm.as_slice(), other, "initialized' or 'running")),
        }
        match &entry.instance {
            Some(inst) => inst.instance.execute(input),
            None => Err(PluginError::InvalidState(String::from_str("no instance present"))),
        }
    }

    /// Shuts a plugin down and returns it to `Unloaded`, dropping its instance.
    pub fn unload_plugin(&mut self, name: &str) -> (r: Result<(), PluginError>)
        requires
            old(self).plugins.wf(),
        ensures
            unload_effect(*old(self), *final(self), name@, r),
    {
        let nm = chars_of(name);
        let i = match self.plugins.position(nm.as_slice()) {
            Some(i) => i,
            None => return Err(PluginError::NotFound(String::from_str(name))),
        };
        proof { lemma_index_of(self.plugins@, i as int); }
        let ghost es = self.plugins@;
        let ghost inst0 = es[i as int].instance->0.instance;
        match &mut self.plugins.entries[i].instance {
            Some(inst) => {
                let out = inst.instance.shutdown();
                assert(inst0.shut_down(out));
            },
            None => {},
        }
        self.plugins.entries[i].instance = None;
        self.plugins.entries[i].state = PluginState::Unloaded;
        self.plugins.entries[i].loaded_at = None;
        proof {
            lemma_update_frame(es, i as int, self.plugins@[i as int]);
            assert(self.plugins@ =~= es.update(i as int, self.plugins@[i as int]));
        }
        Ok(())
    }

    /// Unloads, loads and initializes a plugin in one step, stopping at the
    /// first failure.
    pub fn reload_plugin(&mut self, name: &str) -> (r: Result<(), PluginError>)
        requires
            old(self).plugins.wf(),
        ensures
            reload_effect(*old(self), *final(self), name@, r),
            final(self).plugins.wf(),
            final(self).plugin_dir == old(self).plugin_dir,
            final(self).factory_names() == old(self).factory_names(),
            final(self).factories@ == old(self).factories@,
            lookup(old(self).plugins@, name@) is None ==> {
                &&& r matches Err(e) && e@ == PluginErrorModel::NotFound(name@)
                &&& final(self).plugins@ == old(self).plugins@
            },
            lookup(old(self).plugins@, name@) is Some ==> {
                &&& changed_entry(old(self).plugins@, final(self).plugins@, name@)
                &&& if !old(self).has_factory(name@) {
                    &&& r matches Err(e) && e@ == PluginErrorModel::NotFound(
                        "no factory registered for '"@ + name@ + "'"@,
                    )
                    &&& lookup(final(self).plugins@, name@) matches Some(n) && n.state@ is Unloaded
                        && n.instance is None && n.loaded_at is None
                } else {
                    &&& lookup(final(self).plugins@, name@) matches Some(n) && n.instance is Some
                        && n.loaded_at is Some && exists|fresh: BuiltPlugin, out: Result<(), PluginError>|
                            old(self).factory_built(name@, fresh) && fresh.instance.initialized(out)
                            && init_reported(out, r, n.state@)
                }
            },
    {
        let ghost es0 = self.plugins@;
        let ghost s0 = *self;
        let unloaded = self.unload_plugin(name);
        let ghost s1 = *self;
        match unloaded {
            Ok(()) => {},
            Err(e) => {
                assert(unload_effect(s0, s1, name@, unloaded));
                return Err(e);
            },
        }
        let ghost es1 = self.plugins@;
        let loaded = self.load_plugin(name);
        let ghost s2 = *self;
        match loaded {
            Ok(()) => {},
            Err(e) => {
                proof {
                    assert forall|n: Seq<char>| n != name@ implies lookup(self.plugins@, n) == lookup(es0, n) by {
                        assert(lookup(es1, n) == lookup(es0, n));
                    }
                    assert(unload_effect(s0, s1, name@, unloaded));
                    assert(load_effect(s1, s2, name@, loaded));
                }
                return Err(e);
            },
        }
        let ghost es2 = self.plugins@;
        let r = self.initialize_plugin(name);
        proof {
            assert(unload_effect(s0, s1, name@, unloaded));
            assert(load_effect(s1, s2, name@, loaded));
        }
        proof {
            assert forall|n: Seq<char>| n != name@ implies lookup(self.plugins@, n) == lookup(es0, n) by {
                assert(lookup(es1, n) == lookup(es0, n));
                assert(lookup(es2, n) == lookup(es1, n));
            }
        }
        r
    }

    /// Every plugin's name and state, sorted by name.
    pub fn list_plugins(&self) -> (r: Vec<(&str, &PluginState)>)
        requires
            self.plugins.wf(),
        ensures
            r@.len() == self.plugins@.len(),
            forall|i: int| 0 <= i < r@.len() ==> (#[trigger] r@[i]).0@ == self.plugins@[i].manifest.name@
                && *r@[i].1 == self.plugins@[i].state,
            forall|i: int, j: int| 0 <= i < j < r@.len() ==> text_lt((#[trigger] r@[i]).0@, (#[trigger] r@[j]).0@),
    {
        let mut out: Vec<(&str, &PluginState)> = Vec::new();
        let mut i: usize = 0;
        while i < self.plugins.entries.len()
            invariant
                self.plugins.wf(),
                i <= self.plugins@.len(),
                out@.len() == i,
                forall|k: int| 0 <= k < i ==> (#[trigger] out@[k]).0@ == self.plugins@[k].manifest.name@
                    && *out@[k].1 == self.plugins@[k].state,
            decreases self.plugins.entries.len() - i,
        {
            let e = &self.plugins.entries[i];
            out.push((e.manifest.name.as_str(), &e.state));
            i += 1;
        }
        proof {
            assert forall|a: int, b: int| 0 <= a < b < out@.len() implies text_lt((#[trigger] out@[a]).0@, (#[trigger] out@[b]).0@) by {
                assert(text_lt(self.plugins@[a].manifest.name@, self.plugins@[b].manifest.name@));
            }
        }
        out
    }

    /// The state of plugin `name`, if it is registered.
    pub fn get_plugin_state(&self, name: &str) -> (r: Option<&PluginState>)
        requires
            self.plugins.wf(),
        ensures
            match lookup(self.plugins@, name@) {
                Some(e) => r is Some && *r->0 == e.state,
                None => r is None,
            },
    {
        match self.plugins.get(name) {
            Some(e) => Some(&e.state),
            None => None,
        }
    }

    /// The dependencies of plugin `name`, in manifest order, when every one
    /// is registered and neither unloaded nor disabled; else the first that
    /// is not, as `DependencyMissing`.
    pub fn resolve_dependencies(&self, name: &str) -> (r: Result<Vec<String>, PluginError>)
        requires
            self.plugins.wf(),
        ensures
            match lookup(self.plugins@, name@) {
                None => r matches Err(e) && e@ == PluginErrorModel::NotFound(name@),
                Some(e) => {
                    let deps = crate::text::views(e.manifest.dependencies@);
                    match first_unmet(self.plugins@, deps) {
                        None => r matches Ok(v) && crate::text::views(v@) == deps,
                        Some(k) => r matches Err(err) && err@ == PluginErrorModel::DependencyMissing(
                            unmet_text(self.plugins@, deps[k]),
                        ),
                    }
                },
            },
    {
        let nm = chars_of(name);
        let i = match self.plugins.position(nm.as_slice()) {
            Some(i) => i,
            None => return Err(PluginError::NotFound(String::from_str(name))),
        };
        proof { lemma_index_of(self.plugins@, i as int); }
        let deps = &self.plugins.entries[i].manifest.dependencies;
        let ghost dv = crate::text::views(deps@);
        let mut resolved: Vec<String> = Vec::new();
        let mut k: usize = 0;
        while k < deps.len()
            invariant
                self.plugins.wf(),
                i < self.plugins@.len(),
                lookup(self.plugins@, name@) == Some(self.plugins@[i as int]),
                deps@ == self.plugins@[i as int].manifest.dependencies@,
                dv == crate::text::views(deps@),
                k <= deps@.len(),
                crate::text::views(resolved@) == dv.take(k as int),
                forall|m: int| 0 <= m < k ==> !dependency_unmet(self.plugins@, dv[m]),
            decreases deps.len() - k,
        {
            let d = chars_of(deps[k].as_str());
            assert(d@ == dv[k as int]);
            match self.plugins.position(d.as_slice()) {
                None => {
                    proof { lemma_first_unmet(self.plugins@, dv, k as int); }
                    return Err(PluginError::DependencyMissing(framed("dependency '", d.as_slice(), "' is not registered")));
                },
                Some(j) => {
                    let st = &self.plugins.entries[j].state;
                    let unusable = match st {
                        PluginState::Unloaded | PluginState::Disabled => true,
                        _ => false,
                    };
                    if unusable {
                        proof { lemma_first_unmet(self.plugins@, dv, k as int); }
                        let mut out: Vec<char> = Vec::new();
                        push_str(&mut out, "dependency '");
                        push_chars(&mut out, d.as_slice());
                        push_str(&mut out, "' exists but is in state '");
                        st.push_text(&mut out);
                        push_str(&mut out, "'");
                        assert(out@ =~= unmet_text(self.plugins@, dv[k as int]));
                        return Err(PluginError::DependencyMissing(string_of(out.as_slice())));
                    }
                    let c = deps[k].clone();
                    assert(c@ == dv[k as int]);
                    let ghost before = resolved@;
                    resolved.push(c);
                    assert(crate::text::views(resolved@) =~= crate::text::views(before).push(dv[k as int]));
                    assert(dv.take(k + 1) =~= dv.take(k as int).push(dv[k as int]));
                },
            }
            k += 1;
        }
        proof {
            assert(dv.take(k as int) =~= dv);
            assert(!exists|m: int| 0 <= m < dv.len() && dependency_unmet(self.plugins@, dv[m]));
        }
        Ok(resolved)
    }
}

/// `first_unmet` is the first unusable dependency.
proof fn lemma_first_unmet(es: Seq<PluginEntry>, deps: Seq<Seq<char>>, k: int)
    requires
        0 <= k < deps.len(),
        dependency_unmet(es, deps[k]),
        forall|m: int| 0 <= m < k ==> !dependency_unmet(es, deps[m]),
    ensures
        first_unmet(es, deps) == Some(k),
{
    let f = choose|f: int| 0 <= f < deps.len() && dependency_unmet(es, deps[f])
        && forall|m: int| 0 <= m < f ==> !dependency_unmet(es, deps[m]);
    assert(0 <= k < deps.len() && dependency_unmet(es, deps[k]) && forall|m: int| 0 <= m < k ==> !dependency_unmet(es, deps[m]));
    if f < k {
        assert(!dependency_unmet(es, deps[f]));
    } else if f > k {
        assert(!dependency_unmet(es, deps[k]));
    }
}

} // verus!
