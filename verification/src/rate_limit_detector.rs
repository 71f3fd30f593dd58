//! Rate-limit headers: whether a response announces a limit, and how well.
use vstd::prelude::*;
use crate::text::{
    chars_of, emit_if, has_substr, has_text, is_prefix, join, lower, lower_chars, parse_u64, parse_u64_spec,
    push_decimal, push_str, starts_with, string_of, views, eq_text, lemma_contains_add, lemma_contains_emit_if,
};

verus! {

/// The response headers that announce a rate limit, in the order they are
/// looked for.
pub const RATE_LIMIT_HEADERS: [&'static str; 10] = [
    "x-ratelimit-limit",
    "x-ratelimit-remaining",
    "x-ratelimit-reset",
    "x-rate-limit-limit",
    "x-rate-limit-remaining",
    "x-rate-limit-reset",
    "ratelimit-limit",
    "ratelimit-remaining",
    "ratelimit-reset",
    "retry-after",
];

/// Rate-limit headers found on a response, name and value.
#[derive(Debug, Clone)]
pub struct RateLimitInfo {
    pub headers: Vec<(String, String)>,
}

/// The first header of `headers` named `name`: its value where that value
/// is text, `None` inside where it is not; `None` where no header is so
/// named.
pub open spec fn first_header(headers: Seq<(&str, Option<&str>)>, name: Seq<char>) -> Option<Option<Seq<char>>>
    decreases headers.len(),
{
    if headers.len() == 0 {
        None
    } else if headers[0].0@ == name {
        Some(
            match headers[0].1 {
                Some(v) => Some(v@),
                None => None,
            },
        )
    } else {
        first_header(headers.drop_first(), name)
    }
}

/// The names among `names`, in order, whose first header in `headers` has
/// a text value, each with that value.
pub open spec fn found_headers(headers: Seq<(&str, Option<&str>)>, names: Seq<&str>) -> Seq<(Seq<char>, Seq<char>)>
    decreases names.len(),
{
    if names.len() == 0 {
        Seq::empty()
    } else {
        let prev = found_headers(headers, names.drop_last());
        match first_header(headers, names.last()@) {
            Some(Some(v)) => prev.push((names.last()@, v)),
            _ => prev,
        }
    }
}

/// The first header of `headers` named `name`.
fn first_header_exec(headers: &[(&str, Option<&str>)], name: &str) -> (r: Option<Option<String>>)
    ensures
        match r {
            Some(Some(v)) => first_header(headers@, name@) == Some(Some(v@)),
            Some(None) => first_header(headers@, name@) == Some(None::<Seq<char>>),
            None => first_header(headers@, name@) is None,
        },
{
    let mut i: usize = 0;
    assert(headers@.skip(0) =~= headers@);
    while i < headers.len()
        invariant
            i <= headers@.len(),
            first_header(headers@, name@) == first_header(headers@.skip(i as int), name@),
        decreases headers.len() - i,
    {
        let ghost rest = headers@.skip(i as int);
        assert(rest.drop_first() =~= headers@.skip(i + 1));
        assert(rest[0] == headers@[i as int]);
        let hn = chars_of(headers[i].0);
        if eq_text(hn.as_slice(), name) {
            return Some(
                match headers[i].1 {
                    Some(v) => Some(String::from_str(v)),
                    None => None,
                },
            );
        }
        i += 1;
    }
    None
}

/// The rate-limit headers among a response's headers, given in response
/// order as name and value (`None` for a value that is not text): for each
/// name of `RATE_LIMIT_HEADERS`, in that order, its first header where that
/// header's value is text. `None` where there is none.
pub fn rate_limit_info(headers: &[(&str, Option<&str>)]) -> (r: Option<RateLimitInfo>)
    ensures
        match r {
            Some(info) => {
                &&& found_headers(headers@, RATE_LIMIT_HEADERS@).len() > 0
                &&& info.headers@.len() == found_headers(headers@, RATE_LIMIT_HEADERS@).len()
                &&& forall|k: int| 0 <= k < info.headers@.len() ==> (#[trigger] info.headers@[k]).0@
                    == found_headers(headers@, RATE_LIMIT_HEADERS@)[k].0 && info.headers@[k].1@
                    == found_headers(headers@, RATE_LIMIT_HEADERS@)[k].1
            },
            None => found_headers(headers@, RATE_LIMIT_HEADERS@).len() == 0,
        },
{
    let ghost names = RATE_LIMIT_HEADERS@;
    let mut found: Vec<(String, String)> = Vec::new();
    let mut j: usize = 0;
    while j < 10
        invariant
            names == RATE_LIMIT_HEADERS@,
            names.len() == 10,
            j <= 10,
            found@.len() == found_headers(headers@, names.take(j as int)).len(),
            forall|k: int| 0 <= k < found@.len() ==> (#[trigger] found@[k]).0@
                == found_headers(headers@, names.take(j as int))[k].0 && found@[k].1@
                == found_headers(headers@, names.take(j as int))[k].1,
        decreases 10 - j,
    {
        let name = RATE_LIMIT_HEADERS[j];
        assert(names.take(j + 1).drop_last() =~= names.take(j as int));
        assert(names.take(j + 1).last() == name);
        match first_header_exec(headers, name) {
            Some(Some(v)) => {
                found.push((String::from_str(name), v));
            },
            _ => {},
        }
        j += 1;
    }
    assert(names.take(10) =~= names);
    if found.len() == 0 {
        None
    } else {
        Some(RateLimitInfo { headers: found })
    }
}

#[derive(Debug, Clone, PartialEq)]
pub enum RateLimitIssue {
    NoRateLimiting,
    HighLimit { limit: u64 },
    NoResetHeader,
    InconsistentHeaders { headers: Vec<String> },
    RetryAfterMissing,
    LowBurstAllowance { remaining: u64, limit: u64 },
    NoLimitOnAuth,
    RateLimitBypassable { method: String },
}

/// A `RateLimitIssue` with its text fields as character sequences.
pub enum RateLimitIssueModel {
    NoRateLimiting,
    HighLimit { limit: u64 },
    NoResetHeader,
    InconsistentHeaders { headers: Seq<Seq<char>> },
    RetryAfterMissing,
    LowBurstAllowance { remaining: u64, limit: u64 },
    NoLimitOnAuth,
    RateLimitBypassable { method: Seq<char> },
}

impl View for RateLimitIssue {
    type V = RateLimitIssueModel;

    open spec fn view(&self) -> RateLimitIssueModel {
        match self {
            RateLimitIssue::NoRateLimiting => RateLimitIssueModel::NoRateLimiting,
            RateLimitIssue::HighLimit { limit } => RateLimitIssueModel::HighLimit { limit: *limit },
            RateLimitIssue::NoResetHeader => RateLimitIssueModel::NoResetHeader,
            RateLimitIssue::InconsistentHeaders { headers } => RateLimitIssueModel::InconsistentHeaders {
                headers: views(headers@),
            },
            RateLimitIssue::RetryAfterMissing => RateLimitIssueModel::RetryAfterMissing,
            RateLimitIssue::LowBurstAllowance { remaining, limit } => RateLimitIssueModel::LowBurstAllowance {
                remaining: *remaining,
                limit: *limit,
            },
            RateLimitIssue::NoLimitOnAuth => RateLimitIssueModel::NoLimitOnAuth,
            RateLimitIssue::RateLimitBypassable { method } => RateLimitIssueModel::RateLimitBypassable {
                method: method@,
            },
        }
    }
}

pub open spec fn rate_limit_views(v: Seq<RateLimitIssue>) -> Seq<RateLimitIssueModel> {
    v.map_values(|i: RateLimitIssue| i@)
}

impl RateLimitIssueModel {
    /// The issue's label.
    pub open spec fn text(self) -> Seq<char> {
        match self {
            RateLimitIssueModel::NoRateLimiting => "no_rate_limiting"@,
            RateLimitIssueModel::HighLimit { limit } => "high_limit:"@ + crate::text::decimal(limit as nat),
            RateLimitIssueModel::NoResetHeader => "no_reset_header"@,
            RateLimitIssueModel::InconsistentHeaders { headers } => "inconsistent_headers:"@ + join(headers, ","@),
            RateLimitIssueModel::RetryAfterMissing => "retry_after_missing"@,
            RateLimitIssueModel::LowBurstAllowance { remaining, limit } => "low_burst_allowance:"@
                + crate::text::decimal(remaining as nat) + "/"@ + crate::text::decimal(limit as nat),
            RateLimitIssueModel::NoLimitOnAuth => "no_limit_on_auth"@,
            RateLimitIssueModel::RateLimitBypassable { method } => "rate_limit_bypassable:"@ + method,
        }
    }
}

impl RateLimitIssue {
    /// Renders the issue's label.
    pub fn to_string(&self) -> (s: String)
        ensures
            s@ == self@.text(),
    {
        let mut out: Vec<char> = Vec::new();
        match self {
            RateLimitIssue::NoRateLimiting => push_str(&mut out, "no_rate_limiting"),
            RateLimitIssue::HighLimit { limit } => {
                push_str(&mut out, "high_limit:");
                push_decimal(&mut out, *limit);
            },
            RateLimitIssue::NoResetHeader => push_str(&mut out, "no_reset_header"),
            RateLimitIssue::InconsistentHeaders { headers } => {
                push_str(&mut out, "inconsistent_headers:");
                let joined = crate::text::join_strings(headers, ",");
                push_str(&mut out, joined.as_str());
            },
            RateLimitIssue::RetryAfterMissing => push_str(&mut out, "retry_after_missing"),
            RateLimitIssue::LowBurstAllowance { remaining, limit } => {
                push_str(&mut out, "low_burst_allowance:");
                push_decimal(&mut out, *remaining);
                push_str(&mut out, "/");
                push_decimal(&mut out, *limit);
            },
            RateLimitIssue::NoLimitOnAuth => push_str(&mut out, "no_limit_on_auth"),
            RateLimitIssue::RateLimitBypassable { method } => {
                push_str(&mut out, "rate_limit_bypassable:");
                push_str(&mut out, method.as_str());
            },
        }
        assert(out@ =~= self@.text());
        string_of(out.as_slice())
    }
}

/// The kinds of rate-limit header names the analysis looks for.
pub enum HeaderKind {
    /// A name holding `ratelimit-limit` or `rate-limit-limit`.
    Limit,
    /// A name holding `ratelimit-reset` or `rate-limit-reset`.
    Reset,
    /// A name holding `ratelimit-remaining` or `rate-limit-remaining`.
    Remaining,
    /// `retry-after`.
    RetryAfter,
    /// The `x-ratelimit-*` family.
    XRatelimit,
    /// The standard `ratelimit-*` family.
    Standard,
    /// The `x-rate-limit-*` family.
    XRateLimit,
}

/// The lowercased header name `k` is of kind `kind`.
pub open spec fn name_is(k: Seq<char>, kind: HeaderKind) -> bool {
    match kind {
        HeaderKind::Limit => has_substr(k, "ratelimit-limit"@) || has_substr(k, "rate-limit-limit"@),
        HeaderKind::Reset => has_substr(k, "ratelimit-reset"@) || has_substr(k, "rate-limit-reset"@),
        HeaderKind::Remaining => has_substr(k, "ratelimit-remaining"@) || has_substr(k, "rate-limit-remaining"@),
        HeaderKind::RetryAfter => k == "retry-after"@,
        HeaderKind::XRatelimit => is_prefix("x-ratelimit-"@, k),
        HeaderKind::Standard => is_prefix("ratelimit-"@, k) && !is_prefix("x-"@, k),
        HeaderKind::XRateLimit => is_prefix("x-rate-limit-"@, k),
    }
}

/// The headers with their names ASCII-lowercased.
pub open spec fn lowered_headers(hs: Seq<(&str, &str)>) -> Seq<(Seq<char>, Seq<char>)> {
    hs.map_values(|h: (&str, &str)| (lower(h.0@), h.1@))
}

/// The position of the first header whose name is of kind `kind`.
#[verifier::opaque]
pub open spec fn first_named(ps: Seq<(Seq<char>, Seq<char>)>, kind: HeaderKind) -> Option<int> {
    if exists|i: int| 0 <= i < ps.len() && name_is(ps[i].0, kind) {
        Some(choose|i: int| 0 <= i < ps.len() && name_is(ps[i].0, kind)
            && forall|j: int| 0 <= j < i ==> !name_is(ps[j].0, kind))
    } else {
        None
    }
}

/// The value of the first header of kind `kind`, read as a `u64`.
pub open spec fn first_value(ps: Seq<(Seq<char>, Seq<char>)>, kind: HeaderKind) -> Option<u64> {
    match first_named(ps, kind) {
        Some(i) => parse_u64_spec(ps[i].1),
        None => None,
    }
}

/// The header families in use, named as the report names them.
pub open spec fn header_styles(ps: Seq<(Seq<char>, Seq<char>)>) -> Seq<Seq<char>> {
    emit_if(first_named(ps, HeaderKind::XRatelimit) is Some, "x-ratelimit-*"@)
        + emit_if(first_named(ps, HeaderKind::Standard) is Some, "ratelimit-*"@)
        + emit_if(first_named(ps, HeaderKind::XRateLimit) is Some, "x-rate-limit-*"@)
}

/// Fewer than one request in twenty is left of the limit.
pub open spec fn low_burst(remaining: u64, limit: u64) -> bool {
    limit > 0 && 20 * remaining < limit
}

/// The issues that `analyze_rate_limit_headers` reports, in report order.
pub open spec fn rate_limit_issues(hs: Seq<(&str, &str)>) -> Seq<RateLimitIssueModel> {
    issues_of_headers(lowered_headers(hs))
}

/// The issues of headers whose names are lowercased, in report order.
pub open spec fn issues_of_headers(ps: Seq<(Seq<char>, Seq<char>)>) -> Seq<RateLimitIssueModel> {
    let has_limit = first_named(ps, HeaderKind::Limit) is Some;
    if !has_limit && first_named(ps, HeaderKind::RetryAfter) is None {
        seq![RateLimitIssueModel::NoRateLimiting]
    } else {
        let limit = first_value(ps, HeaderKind::Limit);
        let styles = header_styles(ps);
        (match limit {
            Some(l) => emit_if(l > 10000, RateLimitIssueModel::HighLimit { limit: l }),
            None => Seq::empty(),
        })
        + emit_if(has_limit && first_named(ps, HeaderKind::Reset) is None, RateLimitIssueModel::NoResetHeader)
        + (if styles.len() > 1 {
            seq![RateLimitIssueModel::InconsistentHeaders { headers: styles }]
        } else {
            Seq::empty()
        })
        + (match (limit, first_value(ps, HeaderKind::Remaining)) {
            (Some(l), Some(r)) => emit_if(low_burst(r, l), RateLimitIssueModel::LowBurstAllowance {
                remaining: r,
                limit: l,
            }),
            _ => Seq::empty(),
        })
    }
}

fn name_is_exec(k: &[char], kind: &HeaderKind) -> (r: bool)
    ensures
        r == name_is(k@, *kind),
{
    match kind {
        HeaderKind::Limit => has_text(k, "ratelimit-limit") || has_text(k, "rate-limit-limit"),
        HeaderKind::Reset => has_text(k, "ratelimit-reset") || has_text(k, "rate-limit-reset"),
        HeaderKind::Remaining => has_text(k, "ratelimit-remaining") || has_text(k, "rate-limit-remaining"),
        HeaderKind::RetryAfter => eq_text(k, "retry-after"),
        HeaderKind::XRatelimit => starts_with(k, "x-ratelimit-"),
        HeaderKind::Standard => starts_with(k, "ratelimit-") && !starts_with(k, "x-"),
        HeaderKind::XRateLimit => starts_with(k, "x-rate-limit-"),
    }
}

pub open spec fn pair_views(ps: Seq<(Vec<char>, Vec<char>)>) -> Seq<(Seq<char>, Seq<char>)> {
    ps.map_values(|p: (Vec<char>, Vec<char>)| (p.0@, p.1@))
}

/// The position of the first header of kind `kind`.
fn first_named_exec(ps: &Vec<(Vec<char>, Vec<char>)>, kind: HeaderKind) -> (r: Option<usize>)
    ensures
        match r {
            Some(i) => i < ps@.len() && first_named(pair_views(ps@), kind) == Some(i as int),
            None => first_named(pair_views(ps@), kind) is None,
        },
{
    reveal(first_named);
    let ghost pv = pair_views(ps@);
    let mut i: usize = 0;
    while i < ps.len()
        invariant
            pv == pair_views(ps@),
            i <= ps@.len(),
            forall|j: int| 0 <= j < i ==> !name_is(pv[j].0, kind),
        decreases ps.len() - i,
    {
        if name_is_exec(ps[i].0.as_slice(), &kind) {
            proof {
                reveal(first_named);
                assert(name_is(pv[i as int].0, kind));
                let f = choose|f: int| 0 <= f < pv.len() && name_is(pv[f].0, kind)
                    && forall|j: int| 0 <= j < f ==> !name_is(pv[j].0, kind);
                assert(0 <= i < pv.len() && name_is(pv[i as int].0, kind)
                    && forall|j: int| 0 <= j < i ==> !name_is(pv[j].0, kind));
                if f < i {
                    assert(!name_is(pv[f].0, kind));
                } else if f > i {
                    assert(!name_is(pv[i as int].0, kind));
                }
            }
            return Some(i);
        }
        i += 1;
    }
    None
}

/// The value of the first header of kind `kind`, read as a `u64`.
fn first_value_exec(ps: &Vec<(Vec<char>, Vec<char>)>, kind: HeaderKind) -> (r: Option<u64>)
    ensures
        r == first_value(pair_views(ps@), kind),
{
    match first_named_exec(ps, kind) {
        Some(i) => parse_u64(ps[i].1.as_slice()),
        None => None,
    }
}

/// The headers with their names ASCII-lowercased, as characters.
fn lowered_pairs(headers: &[(&str, &str)]) -> (ps: Vec<(Vec<char>, Vec<char>)>)
    ensures
        pair_views(ps@) == lowered_headers(headers@),
{
    let ghost lh = lowered_headers(headers@);
    let mut ps: Vec<(Vec<char>, Vec<char>)> = Vec::new();
    let mut i: usize = 0;
    while i < headers.len()
        invariant
            i <= headers@.len(),
            lh == lowered_headers(headers@),
            pair_views(ps@) == lh.take(i as int),
        decreases headers.len() - i,
    {
        let (k, v) = headers[i];
        assert(headers@[i as int] == (k, v));
        assert(lh[i as int] == (lower(k@), v@));
        let kc = chars_of(k);
        let kl = lower_chars(kc.as_slice());
        let vc = chars_of(v);
        assert((kl@, vc@) == lh[i as int]);
        let ghost before = ps@;
        ps.push((kl, vc));
        assert(pair_views(ps@) =~= pair_views(before).push(lh[i as int]));
        assert(lh.take(i + 1) =~= lh.take(i as int).push(lh[i as int]));
        i += 1;
    }
    assert(lh.take(i as int) =~= lh);
    ps
}

/// Audits rate-limit headers: no limit at all, a limit above ten thousand,
/// a limit without a reset header, several header families mixed, and less
/// than a twentieth of the limit remaining. Header names are matched
/// without regard to ASCII case.
pub fn analyze_rate_limit_headers(headers: &[(&str, &str)]) -> (issues: Vec<RateLimitIssue>)
    ensures
        rate_limit_views(issues@) == rate_limit_issues(headers@),
{
    let ps = lowered_pairs(headers);
    issues_from_pairs(&ps)
}

/// The issues of headers whose names are lowercased.
#[verifier::rlimit(30)]
fn issues_from_pairs(ps: &Vec<(Vec<char>, Vec<char>)>) -> (issues: Vec<RateLimitIssue>)
    ensures
        rate_limit_views(issues@) == issues_of_headers(pair_views(ps@)),
{
    let ghost pv = pair_views(ps@);
    let mut issues: Vec<RateLimitIssue> = Vec::new();
    let has_limit = first_named_exec(ps, HeaderKind::Limit).is_some();
    let has_retry = first_named_exec(ps, HeaderKind::RetryAfter).is_some();
    if !has_limit && !has_retry {
        issues.push(RateLimitIssue::NoRateLimiting);
        assert(rate_limit_views(issues@) =~= issues_of_headers(pv));
        return issues;
    }
    let limit = first_value_exec(ps, HeaderKind::Limit);
    let has_reset = first_named_exec(ps, HeaderKind::Reset).is_some();
    let x_ratelimit = first_named_exec(ps, HeaderKind::XRatelimit).is_some();
    let standard = first_named_exec(ps, HeaderKind::Standard).is_some();
    let x_rate_limit = first_named_exec(ps, HeaderKind::XRateLimit).is_some();
    let remaining = first_value_exec(ps, HeaderKind::Remaining);
    let mut styles: Vec<String> = Vec::new();
    if x_ratelimit {
        styles.push(String::from_str("x-ratelimit-*"));
    }
    if standard {
        styles.push(String::from_str("ratelimit-*"));
    }
    if x_rate_limit {
        styles.push(String::from_str("x-rate-limit-*"));
    }
    assert(views(styles@) =~= header_styles(pv));
    let high = match limit {
        Some(l) => l > 10000,
        None => false,
    };
    let low = match (limit, remaining) {
        (Some(l), Some(r)) => l > 0 && (r as u128) * 20 < (l as u128),
        _ => false,
    };
    let ghost s0 = rate_limit_views(issues@);
    if high {
        issues.push(RateLimitIssue::HighLimit { limit: limit.unwrap() });
    }
    let ghost s1 = rate_limit_views(issues@);
    assert(s1 =~= s0 + match limit {
        Some(l) => emit_if(l > 10000, RateLimitIssueModel::HighLimit { limit: l }),
        None => Seq::<RateLimitIssueModel>::empty(),
    });
    if has_limit && !has_reset {
        issues.push(RateLimitIssue::NoResetHeader);
    }
    let ghost s2 = rate_limit_views(issues@);
    assert(s2 =~= s1 + emit_if(has_limit && !has_reset, RateLimitIssueModel::NoResetHeader));
    let n_styles = styles.len();
    if n_styles > 1 {
        issues.push(RateLimitIssue::InconsistentHeaders { headers: styles });
    }
    let ghost s3 = rate_limit_views(issues@);
    assert(s3 =~= s2 + if header_styles(pv).len() > 1 {
        seq![RateLimitIssueModel::InconsistentHeaders { headers: header_styles(pv) }]
    } else {
        Seq::<RateLimitIssueModel>::empty()
    });
    if low {
        issues.push(RateLimitIssue::LowBurstAllowance { remaining: remaining.unwrap(), limit: limit.unwrap() });
    }
    assert(rate_limit_views(issues@) =~= issues_of_headers(pv));
    issues
}

/// Some header of `hs` has a name that, lowercased, holds `pat`.
pub open spec fn some_name_holds(hs: Seq<(&str, &str)>, pat: Seq<char>) -> bool {
    exists|i: int| 0 <= i < hs.len() && #[trigger] has_substr(lower(hs[i].0@), pat)
}

/// The position of the first header of kind `kind` among lowercased names
/// exists exactly when some name is of that kind.
proof fn lemma_first_named_some(ps: Seq<(Seq<char>, Seq<char>)>, kind: HeaderKind)
    ensures
        first_named(ps, kind) is Some <==> exists|i: int| 0 <= i < ps.len() && name_is(ps[i].0, kind),
{
    reveal(first_named);
    if exists|i: int| 0 <= i < ps.len() && name_is(ps[i].0, kind) {
        let i0 = choose|i: int| 0 <= i < ps.len() && name_is(ps[i].0, kind);
        lemma_first_satisfying(ps, kind, i0);
    }
}

/// Where some name is of kind `kind`, a first one is.
proof fn lemma_first_satisfying(ps: Seq<(Seq<char>, Seq<char>)>, kind: HeaderKind, i0: int)
    requires
        0 <= i0 < ps.len(),
        name_is(ps[i0].0, kind),
    ensures
        exists|i: int| 0 <= i < ps.len() && name_is(ps[i].0, kind) && forall|j: int| 0 <= j < i ==> !name_is(ps[j].0, kind),
    decreases i0,
{
    if exists|j: int| 0 <= j < i0 && name_is(ps[j].0, kind) {
        let j = choose|j: int| 0 <= j < i0 && name_is(ps[j].0, kind);
        lemma_first_satisfying(ps, kind, j);
    } else {
        assert(forall|j: int| 0 <= j < i0 ==> !name_is(ps[j].0, kind));
    }
}

/// A reset header is one whose name, lowercased, holds `ratelimit-reset`
/// or `rate-limit-reset`: with such a header present the audit never
/// reports `NoResetHeader`; with a limit header (a name holding
/// `ratelimit-limit` or `rate-limit-limit`) and no such header it always
/// does.
pub proof fn law_reset_header_recognised(hs: Seq<(&str, &str)>)
    ensures
        some_name_holds(hs, "ratelimit-reset"@) || some_name_holds(hs, "rate-limit-reset"@)
            ==> !rate_limit_issues(hs).contains(RateLimitIssueModel::NoResetHeader),
        (some_name_holds(hs, "ratelimit-limit"@) || some_name_holds(hs, "rate-limit-limit"@))
            && !some_name_holds(hs, "ratelimit-reset"@) && !some_name_holds(hs, "rate-limit-reset"@)
            ==> rate_limit_issues(hs).contains(RateLimitIssueModel::NoResetHeader),
{
    let ps = lowered_headers(hs);
    let x = RateLimitIssueModel::NoResetHeader;
    assert forall|i: int| 0 <= i < ps.len() implies ps[i].0 == lower(hs[i].0@) by {}
    lemma_first_named_some(ps, HeaderKind::Reset);
    lemma_first_named_some(ps, HeaderKind::Limit);
    if some_name_holds(hs, "ratelimit-reset"@) || some_name_holds(hs, "rate-limit-reset"@) {
        let i = choose|i: int| 0 <= i < hs.len() && (has_substr(lower(hs[i].0@), "ratelimit-reset"@) || has_substr(
            lower(hs[i].0@),
            "rate-limit-reset"@,
        ));
        assert(name_is(ps[i].0, HeaderKind::Reset));
    } else {
        assert forall|i: int| 0 <= i < ps.len() implies !name_is(ps[i].0, HeaderKind::Reset) by {
            if name_is(ps[i].0, HeaderKind::Reset) {
                assert(has_substr(lower(hs[i].0@), "ratelimit-reset"@) || has_substr(lower(hs[i].0@), "rate-limit-reset"@));
            }
        }
    }
    if some_name_holds(hs, "ratelimit-limit"@) || some_name_holds(hs, "rate-limit-limit"@) {
        let i = choose|i: int| 0 <= i < hs.len() && (has_substr(lower(hs[i].0@), "ratelimit-limit"@) || has_substr(
            lower(hs[i].0@),
            "rate-limit-limit"@,
        ));
        assert(name_is(ps[i].0, HeaderKind::Limit));
    }
    let has_limit = first_named(ps, HeaderKind::Limit) is Some;
    if !has_limit && first_named(ps, HeaderKind::RetryAfter) is None {
        assert(rate_limit_issues(hs) == seq![RateLimitIssueModel::NoRateLimiting]);
        assert(!seq![RateLimitIssueModel::NoRateLimiting].contains(x)) by {
            lemma_contains_emit_if(true, RateLimitIssueModel::NoRateLimiting, x);
            assert(emit_if(true, RateLimitIssueModel::NoRateLimiting) =~= seq![RateLimitIssueModel::NoRateLimiting]);
        }
    } else {
        let limit = first_value(ps, HeaderKind::Limit);
        let styles = header_styles(ps);
        let p1: Seq<RateLimitIssueModel> = match limit {
            Some(l) => emit_if(l > 10000, RateLimitIssueModel::HighLimit { limit: l }),
            None => Seq::empty(),
        };
        let c2 = has_limit && first_named(ps, HeaderKind::Reset) is None;
        let p2 = emit_if(c2, x);
        let p3: Seq<RateLimitIssueModel> = if styles.len() > 1 {
            emit_if(true, RateLimitIssueModel::InconsistentHeaders { headers: styles })
        } else {
            Seq::empty()
        };
        let p4: Seq<RateLimitIssueModel> = match (limit, first_value(ps, HeaderKind::Remaining)) {
            (Some(l), Some(r)) => emit_if(low_burst(r, l), RateLimitIssueModel::LowBurstAllowance {
                remaining: r,
                limit: l,
            }),
            _ => Seq::empty(),
        };
        assert(rate_limit_issues(hs) =~= p1 + p2 + p3 + p4);
        match limit {
            Some(l) => lemma_contains_emit_if(l > 10000, RateLimitIssueModel::HighLimit { limit: l }, x),
            None => {},
        }
        lemma_contains_emit_if(c2, x, x);
        if styles.len() > 1 {
            lemma_contains_emit_if(true, RateLimitIssueModel::InconsistentHeaders { headers: styles }, x);
        }
        match (limit, first_value(ps, HeaderKind::Remaining)) {
            (Some(l), Some(r)) => lemma_contains_emit_if(low_burst(r, l), RateLimitIssueModel::LowBurstAllowance {
                remaining: r,
                limit: l,
            }, x),
            _ => {},
        }
        lemma_contains_add(p1, p2, x);
        lemma_contains_add(p1 + p2, p3, x);
        lemma_contains_add(p1 + p2 + p3, p4, x);
    }
}

} // verus!
