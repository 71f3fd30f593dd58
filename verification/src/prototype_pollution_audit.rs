//! Server-side prototype pollution probes: the URLs that carry a canary
//! through `__proto__` and `constructor.prototype`, and the reading of the
//! responses.
use vstd::prelude::*;
use crate::strings::index_of_char;
use crate::text::{chars_of, has_substr, has_text, is_prefix, push_str, slice_chars, starts_with, string_of};

verus! {

/// The property name that the probes try to pollute.
pub const CANARY_KEY: &'static str = "aegispptest";

/// The value that the probes assign to it.
pub const CANARY_VALUE: &'static str = "polluted42";

#[derive(Debug, Clone, PartialEq)]
pub enum PrototypePollutionIssue {
    ProtoReflected { vector: String },
    ConstructorReflected { vector: String },
}

/// A `PrototypePollutionIssue` with its text field as a character sequence.
pub enum PrototypePollutionIssueModel {
    ProtoReflected { vector: Seq<char> },
    ConstructorReflected { vector: Seq<char> },
}

impl View for PrototypePollutionIssue {
    type V = PrototypePollutionIssueModel;

    open spec fn view(&self) -> PrototypePollutionIssueModel {
        match self {
            PrototypePollutionIssue::ProtoReflected { vector } => PrototypePollutionIssueModel::ProtoReflected {
                vector: vector@,
            },
            PrototypePollutionIssue::ConstructorReflected { vector } => {
                PrototypePollutionIssueModel::ConstructorReflected { vector: vector@ }
            },
        }
    }
}

/// The issue that a response shows for a vector: the canary key and value
/// both come back. Vectors named `proto...` pollute through `__proto__`.
pub open spec fn pollution_finding(body: Seq<char>, vector: Seq<char>) -> Option<PrototypePollutionIssueModel> {
    if has_substr(body, "aegispptest"@) && has_substr(body, "polluted42"@) {
        if is_prefix("proto"@, vector) {
            Some(PrototypePollutionIssueModel::ProtoReflected { vector })
        } else {
            Some(PrototypePollutionIssueModel::ConstructorReflected { vector })
        }
    } else {
        None
    }
}

/// Reads the response to one probe.
pub fn analyze_pollution_response(body: &str, vector_name: &str) -> (r: Option<PrototypePollutionIssue>)
    ensures
        match pollution_finding(body@, vector_name@) {
            Some(m) => r is Some && r->0@ == m,
            None => r is None,
        },
{
    let b = chars_of(body);
    if has_text(b.as_slice(), CANARY_KEY) && has_text(b.as_slice(), CANARY_VALUE) {
        let v = chars_of(vector_name);
        let vector = string_of(v.as_slice());
        if starts_with(v.as_slice(), "proto") {
            Some(PrototypePollutionIssue::ProtoReflected { vector })
        } else {
            Some(PrototypePollutionIssue::ConstructorReflected { vector })
        }
    } else {
        None
    }
}

/// `s` without its trailing `c`s.
pub open spec fn drop_trailing(s: Seq<char>, c: char) -> Seq<char>
    decreases s.len(),
{
    if s.len() > 0 && s.last() == c {
        drop_trailing(s.drop_last(), c)
    } else {
        s
    }
}

fn drop_trailing_exec(s: &[char], c: char) -> (r: Vec<char>)
    ensures
        r@ == drop_trailing(s@, c),
{
    let mut end = s.len();
    assert(s@.take(end as int) =~= s@);
    while end > 0 && s[end - 1] == c
        invariant
            end <= s@.len(),
            drop_trailing(s@.take(end as int), c) == drop_trailing(s@, c),
        decreases end,
    {
        assert(s@.take(end as int).drop_last() =~= s@.take(end - 1));
        end -= 1;
    }
    slice_chars(s, 0, end)
}

/// One probe: the URL to request and the vector it exercises.
#[derive(Debug, Clone)]
pub struct PollutionProbe {
    pub url: String,
    pub vector: String,
}

/// The query parameter and name of each vector, in probing order.
pub open spec fn pollution_vector(k: int) -> (Seq<char>, Seq<char>) {
    if k == 0 {
        ("__proto__[aegispptest]=polluted42"@, "proto_bracket"@)
    } else if k == 1 {
        ("__proto__.aegispptest=polluted42"@, "proto_dot"@)
    } else if k == 2 {
        ("constructor[prototype][aegispptest]=polluted42"@, "constructor_bracket"@)
    } else {
        ("constructor.prototype.aegispptest=polluted42"@, "constructor_dot"@)
    }
}

/// The URL that carries `param`: the target without trailing slashes,
/// then `&` if it already has a query and `?` otherwise.
pub open spec fn probe_url(target: Seq<char>, param: Seq<char>) -> Seq<char> {
    let base = drop_trailing(target, '/');
    base + (if index_of_char(base, '?') is Some { seq!['&'] } else { seq!['?'] }) + param
}

fn vector_text(k: usize) -> (r: (&'static str, &'static str))
    requires
        k < 4,
    ensures
        r.0@ == pollution_vector(k as int).0,
        r.1@ == pollution_vector(k as int).1,
{
    if k == 0 {
        ("__proto__[aegispptest]=polluted42", "proto_bracket")
    } else if k == 1 {
        ("__proto__.aegispptest=polluted42", "proto_dot")
    } else if k == 2 {
        ("constructor[prototype][aegispptest]=polluted42", "constructor_bracket")
    } else {
        ("constructor.prototype.aegispptest=polluted42", "constructor_dot")
    }
}

/// The four probes for `target`, in order.
pub fn pollution_probes(target: &str) -> (probes: Vec<PollutionProbe>)
    ensures
        probes@.len() == 4,
        forall|k: int|
            0 <= k < 4 ==> (#[trigger] probes@[k]).url@ == probe_url(target@, pollution_vector(k).0)
                && probes@[k].vector@ == pollution_vector(k).1,
{
    let t = chars_of(target);
    let base = drop_trailing_exec(t.as_slice(), '/');
    let has_query = crate::strings::find_char(base.as_slice(), '?').is_some();
    let mut probes: Vec<PollutionProbe> = Vec::new();
    let mut k: usize = 0;
    while k < 4
        invariant
            k <= 4,
            base@ == drop_trailing(target@, '/'),
            has_query == (index_of_char(base@, '?') is Some),
            probes@.len() == k,
            forall|j: int|
                0 <= j < k ==> (#[trigger] probes@[j]).url@ == probe_url(target@, pollution_vector(j).0)
                    && probes@[j].vector@ == pollution_vector(j).1,
        decreases 4 - k,
    {
        let (param, name) = vector_text(k);
        let mut url = base.clone();
        assert(url@ == base@);
        if has_query {
            url.push('&');
        } else {
            url.push('?');
        }
        push_str(&mut url, param);
        assert(url@ =~= probe_url(target@, pollution_vector(k as int).0));
        probes.push(PollutionProbe { url: string_of(url.as_slice()), vector: string_of(chars_of(name).as_slice()) });
        k += 1;
    }
    probes
}

impl PrototypePollutionIssueModel {
    /// The issue's description.
    pub open spec fn message(self) -> Seq<char> {
        match self {
            PrototypePollutionIssueModel::ProtoReflected { vector } => "proto_reflected:"@ + vector,
            PrototypePollutionIssueModel::ConstructorReflected { vector } => "constructor_reflected:"@ + vector,
        }
    }
}

impl PrototypePollutionIssue {
    /// Renders the issue's description.
    pub fn to_string(&self) -> (s: String)
        ensures
            s@ == self@.message(),
    {
        let mut out: Vec<char> = Vec::new();
        match self {
            PrototypePollutionIssue::ProtoReflected { vector } => {
                push_str(&mut out, "proto_reflected:");
                push_str(&mut out, vector.as_str());
            },
            PrototypePollutionIssue::ConstructorReflected { vector } => {
                push_str(&mut out, "constructor_reflected:");
                push_str(&mut out, vector.as_str());
            },
        }
        string_of(out.as_slice())
    }
}

} // verus!
