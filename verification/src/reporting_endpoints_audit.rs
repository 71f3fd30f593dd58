//! Analysis of the `Reporting-Endpoints` and `Report-To` response headers.
use vstd::prelude::*;
use crate::recon_client::{host_part, is_external, outside_domain, truncate, truncatable, truncatable_exec, truncated};
use crate::strings::{
    char_views, find_char, index_of_char, split_char, split_char_exec, trim, trim_char,
    trim_char_exec, trim_exec,
};
use crate::text::{
    chars_eq, chars_of, emit_if, has_substr, has_text, is_prefix, lower, lower_chars, push_decimal,
    push_str, slice_chars, starts_with, string_of,
};

verus! {

/// More endpoints than this is reported.
pub const MAX_ENDPOINTS: usize = 5;

/// Bytes kept of a URL quoted in a report.
pub const URL_REPORT_LEN: usize = 60;

#[derive(Debug, Clone, PartialEq)]
pub enum ReportingEndpointIssue {
    Present,
    ExternalCollector { url: String },
    HttpEndpoint { url: String },
    TooManyEndpoints { count: usize },
    DuplicateEndpointNames { name: String },
    InvalidEndpointUrl { name: String, url: String },
    ThirdPartyCollector { service: String },
    DeprecatedReportTo,
}

/// A `ReportingEndpointIssue` with its text fields as character sequences.
pub enum ReportingEndpointIssueModel {
    Present,
    ExternalCollector { url: Seq<char> },
    HttpEndpoint { url: Seq<char> },
    TooManyEndpoints { count: usize },
    DuplicateEndpointNames { name: Seq<char> },
    InvalidEndpointUrl { name: Seq<char>, url: Seq<char> },
    ThirdPartyCollector { service: Seq<char> },
    DeprecatedReportTo,
}

impl View for ReportingEndpointIssue {
    type V = ReportingEndpointIssueModel;

    open spec fn view(&self) -> ReportingEndpointIssueModel {
        match self {
            ReportingEndpointIssue::Present => ReportingEndpointIssueModel::Present,
            ReportingEndpointIssue::ExternalCollector { url } => ReportingEndpointIssueModel::ExternalCollector {
                url: url@,
            },
            ReportingEndpointIssue::HttpEndpoint { url } => ReportingEndpointIssueModel::HttpEndpoint { url: url@ },
            ReportingEndpointIssue::TooManyEndpoints { count } => ReportingEndpointIssueModel::TooManyEndpoints {
                count: *count,
            },
            ReportingEndpointIssue::DuplicateEndpointNames { name } => {
                ReportingEndpointIssueModel::DuplicateEndpointNames { name: name@ }
            },
            ReportingEndpointIssue::InvalidEndpointUrl { name, url } => {
                ReportingEndpointIssueModel::InvalidEndpointUrl { name: name@, url: url@ }
            },
            ReportingEndpointIssue::ThirdPartyCollector { service } => {
                ReportingEndpointIssueModel::ThirdPartyCollector { service: service@ }
            },
            ReportingEndpointIssue::DeprecatedReportTo => ReportingEndpointIssueModel::DeprecatedReportTo,
        }
    }
}

pub open spec fn endpoint_views(v: Seq<ReportingEndpointIssue>) -> Seq<ReportingEndpointIssueModel> {
    v.map_values(|i: ReportingEndpointIssue| i@)
}

/// The entries of a `Reporting-Endpoints` value: its comma-separated
/// pieces, each trimmed.
#[verifier::opaque]
pub open spec fn endpoint_entries(val: Seq<char>) -> Seq<Seq<char>> {
    split_char(val, ',').map_values(|e: Seq<char>| trim(e))
}

/// The name and URL of an entry `name="url"`: the name is trimmed, the URL
/// trimmed and stripped of quotes; `None` without `=` or with an empty URL.
#[verifier::opaque]
pub open spec fn endpoint_parts(entry: Seq<char>) -> Option<(Seq<char>, Seq<char>)> {
    match index_of_char(entry, '=') {
        Some(eq) => {
            let name = trim(entry.take(eq));
            let url = trim_char(trim(entry.skip(eq + 1)), '"');
            if url.len() == 0 {
                None
            } else {
                Some((name, url))
            }
        },
        None => None,
    }
}

/// The collector service that a URL belongs to, by the first known
/// pattern it contains.
pub open spec fn third_party_service(url: Seq<char>) -> Option<Seq<char>> {
    if has_substr(url, "sentry.io"@) {
        Some("Sentry"@)
    } else if has_substr(url, "report-uri.com"@) {
        Some("Report URI"@)
    } else if has_substr(url, "uriports.com"@) {
        Some("URIports"@)
    } else {
        None
    }
}

/// The URL leaves the target domain, when one is known.
pub open spec fn leaves_domain(url: Seq<char>, domain: Option<Seq<char>>) -> bool {
    match domain {
        Some(d) => match host_part(url) {
            Some(h) => outside_domain(h, d),
            None => false,
        },
        None => false,
    }
}

/// A report quotes the URL (invalid, plain-HTTP or external collector).
pub open spec fn url_quoted(url: Seq<char>, domain: Option<Seq<char>>) -> bool {
    !is_prefix("https://"@, url) || leaves_domain(url, domain)
}

/// The issues of one endpoint, given whether its name was already used.
#[verifier::opaque]
pub open spec fn endpoint_issues(
    name: Seq<char>,
    url: Seq<char>,
    dup: bool,
    domain: Option<Seq<char>>,
) -> Seq<ReportingEndpointIssueModel> {
    let cut = truncated(url, 60);
    emit_if(dup, ReportingEndpointIssueModel::DuplicateEndpointNames { name }) + if !is_prefix("http://"@, url)
        && !is_prefix("https://"@, url) {
        seq![ReportingEndpointIssueModel::InvalidEndpointUrl { name, url: cut }]
    } else {
        emit_if(is_prefix("http://"@, url), ReportingEndpointIssueModel::HttpEndpoint { url: cut }) + emit_if(
            leaves_domain(url, domain),
            ReportingEndpointIssueModel::ExternalCollector { url: cut },
        ) + match third_party_service(url) {
            Some(s) => seq![ReportingEndpointIssueModel::ThirdPartyCollector { service: s }],
            None => Seq::empty(),
        }
    }
}

/// The lower-cased names of the well-formed entries among the first `k`.
pub open spec fn seen_names(entries: Seq<Seq<char>>, k: int) -> Seq<Seq<char>>
    decreases k,
{
    if k <= 0 {
        Seq::empty()
    } else {
        seen_names(entries, k - 1) + match endpoint_parts(entries[k - 1]) {
            Some(p) => seq![lower(p.0)],
            None => Seq::empty(),
        }
    }
}

/// The issues of the first `k` entries.
pub open spec fn entries_issues(entries: Seq<Seq<char>>, k: int, domain: Option<Seq<char>>) -> Seq<
    ReportingEndpointIssueModel,
>
    decreases k,
{
    if k <= 0 {
        Seq::empty()
    } else {
        entries_issues(entries, k - 1, domain) + entry_issues(entries, k - 1, domain)
    }
}

/// The issues of entry `k`, given the names of the entries before it.
pub open spec fn entry_issues(entries: Seq<Seq<char>>, k: int, domain: Option<Seq<char>>) -> Seq<
    ReportingEndpointIssueModel,
> {
    match endpoint_parts(entries[k]) {
        Some(p) => endpoint_issues(p.0, p.1, seen_names(entries, k).contains(lower(p.0)), domain),
        None => Seq::empty(),
    }
}

/// Every URL that a report would quote can be cut at 57 bytes.
pub open spec fn quotable(val: Seq<char>, domain: Option<Seq<char>>) -> bool {
    let es = endpoint_entries(val);
    forall|k: int|
        0 <= k < es.len() ==> match #[trigger] endpoint_parts(es[k]) {
            Some(p) => url_quoted(p.1, domain) ==> truncatable(p.1, 60),
            None => true,
        }
}

/// What `analyze_reporting_endpoints` reports, in order: `Report-To`
/// first, then the presence of `Reporting-Endpoints`, too many entries,
/// and each entry in turn.
pub open spec fn reporting_endpoint_issues(
    reporting_endpoints: Option<Seq<char>>,
    report_to: bool,
    domain: Option<Seq<char>>,
) -> Seq<ReportingEndpointIssueModel> {
    emit_if(report_to, ReportingEndpointIssueModel::DeprecatedReportTo) + match reporting_endpoints {
        Some(v) => {
            let es = endpoint_entries(v);
            seq![ReportingEndpointIssueModel::Present] + emit_if(
                es.len() > 5,
                ReportingEndpointIssueModel::TooManyEndpoints { count: es.len() as usize },
            ) + entries_issues(es, es.len() as int, domain)
        },
        None => Seq::empty(),
    }
}

pub open spec fn opt_view(s: Option<&str>) -> Option<Seq<char>> {
    match s {
        Some(t) => Some(t@),
        None => None,
    }
}

fn push_issue(v: &mut Vec<ReportingEndpointIssue>, x: ReportingEndpointIssue)
    ensures
        endpoint_views(final(v)@) == endpoint_views(old(v)@).push(x@),
{
    v.push(x);
    assert(endpoint_views(v@) =~= endpoint_views(old(v)@).push(x@));
}

fn endpoint_parts_exec(entry: &[char]) -> (r: Option<(Vec<char>, Vec<char>)>)
    ensures
        match endpoint_parts(entry@) {
            Some(p) => r matches Some((n, u)) && n@ == p.0 && u@ == p.1,
            None => r is None,
        },
{
    reveal(endpoint_parts);
    let eq = match find_char(entry, '=') {
        Some(i) => i,
        None => return None,
    };
    let head = slice_chars(entry, 0, eq);
    assert(eq < entry.len());
    let tail = slice_chars(entry, eq + 1, entry.len());
    assert(head@ =~= entry@.take(eq as int));
    assert(tail@ =~= entry@.skip(eq + 1));
    let name = trim_exec(head.as_slice());
    let t = trim_exec(tail.as_slice());
    let url = trim_char_exec(t.as_slice(), '"');
    if url.len() == 0 {
        None
    } else {
        Some((name, url))
    }
}

/// The URL of an entry `name="url"`, trimmed and unquoted; `None` without
/// `=` or with an empty URL.
pub fn extract_endpoint_url(entry: &str) -> (r: Option<String>)
    ensures
        match endpoint_parts(entry@) {
            Some(p) => r is Some && r->0@ == p.1,
            None => r is None,
        },
{
    let c = chars_of(entry);
    match endpoint_parts_exec(c.as_slice()) {
        Some((_, url)) => Some(string_of(url.as_slice())),
        None => None,
    }
}

fn third_party_service_exec(url: &[char]) -> (r: Option<String>)
    ensures
        match third_party_service(url@) {
            Some(s) => r is Some && r->0@ == s,
            None => r is None,
        },
{
    if has_text(url, "sentry.io") {
        Some(String::from_str("Sentry"))
    } else if has_text(url, "report-uri.com") {
        Some(String::from_str("Report URI"))
    } else if has_text(url, "uriports.com") {
        Some(String::from_str("URIports"))
    } else {
        None
    }
}

fn seen_contains(seen: &Vec<Vec<char>>, name: &[char]) -> (r: bool)
    ensures
        r == char_views(seen@).contains(name@),
{
    let mut i: usize = 0;
    while i < seen.len()
        invariant
            i <= seen@.len(),
            forall|j: int| 0 <= j < i ==> seen@[j]@ != name@,
        decreases seen.len() - i,
    {
        if chars_eq(seen[i].as_slice(), name) {
            assert(char_views(seen@)[i as int] == name@);
            return true;
        }
        i += 1;
    }
    proof {
        if char_views(seen@).contains(name@) {
            let j = choose|j: int| 0 <= j < char_views(seen@).len() && char_views(seen@)[j] == name@;
            assert(seen@[j]@ == name@);
        }
    }
    false
}

/// Appends the issues of one endpoint.
fn add_endpoint_issues(
    issues: &mut Vec<ReportingEndpointIssue>,
    name: &[char],
    url: &[char],
    dup: bool,
    target_domain: Option<&str>,
)
    requires
        url_quoted(url@, opt_view(target_domain)) ==> truncatable(url@, 60),
    ensures
        endpoint_views(final(issues)@) == endpoint_views(old(issues)@) + endpoint_issues(
            name@,
            url@,
            dup,
            opt_view(target_domain),
        ),
{
    reveal(endpoint_issues);
    let ghost start = endpoint_views(issues@);
    let ghost domain = opt_view(target_domain);
    if dup {
        push_issue(issues, ReportingEndpointIssue::DuplicateEndpointNames { name: string_of(name) });
    }
    proof {
        reveal_strlit("http://");
        reveal_strlit("https://");
    }
    let is_http = starts_with(url, "http://");
    let is_https = starts_with(url, "https://");
    let url_s = string_of(url);
    if !is_http && !is_https {
        let cut = truncate(url_s.as_str(), URL_REPORT_LEN);
        push_issue(issues, ReportingEndpointIssue::InvalidEndpointUrl { name: string_of(name), url: cut });
        assert(endpoint_views(issues@) =~= start + endpoint_issues(name@, url@, dup, domain));
        return;
    }
    let ghost mid = endpoint_views(issues@);
    if is_http {
        assert(url@.subrange(0, 7)[4] == ':');
        assert(!is_prefix("https://"@, url@)) by {
            if is_prefix("https://"@, url@) {
                assert(url@.subrange(0, 8)[4] == 's');
            }
        }
        let cut = truncate(url_s.as_str(), URL_REPORT_LEN);
        push_issue(issues, ReportingEndpointIssue::HttpEndpoint { url: cut });
    }
    let ghost mid2 = endpoint_views(issues@);
    let external = match target_domain {
        Some(d) => is_external(url_s.as_str(), d),
        None => false,
    };
    assert(external == leaves_domain(url@, domain));
    if external {
        let cut = truncate(url_s.as_str(), URL_REPORT_LEN);
        push_issue(issues, ReportingEndpointIssue::ExternalCollector { url: cut });
    }
    let ghost mid3 = endpoint_views(issues@);
    match third_party_service_exec(url) {
        Some(service) => {
            push_issue(issues, ReportingEndpointIssue::ThirdPartyCollector { service });
        },
        None => {},
    }
    assert(endpoint_views(issues@) =~= start + endpoint_issues(name@, url@, dup, domain));
}

/// Appends the issues of entry `k` and records its name.
fn add_entry(
    issues: &mut Vec<ReportingEndpointIssue>,
    seen: &mut Vec<Vec<char>>,
    es: &Vec<Vec<char>>,
    k: usize,
    target_domain: Option<&str>,
)
    requires
        k < es@.len(),
        char_views(old(seen)@) == seen_names(char_views(es@), k as int),
        match endpoint_parts(char_views(es@)[k as int]) {
            Some(p) => url_quoted(p.1, opt_view(target_domain)) ==> truncatable(p.1, 60),
            None => true,
        },
    ensures
        char_views(final(seen)@) == seen_names(char_views(es@), k + 1),
        endpoint_views(final(issues)@) == endpoint_views(old(issues)@) + entry_issues(
            char_views(es@),
            k as int,
            opt_view(target_domain),
        ),
{
    let ghost ev = char_views(es@);
    assert(es@[k as int]@ == ev[k as int]);
    match endpoint_parts_exec(es[k].as_slice()) {
        Some((name, url)) => {
            let lname = lower_chars(name.as_slice());
            let dup = seen_contains(seen, lname.as_slice());
            add_endpoint_issues(issues, name.as_slice(), url.as_slice(), dup, target_domain);
            seen.push(lname);
            assert(char_views(seen@) =~= seen_names(ev, k + 1));
        },
        None => {
            assert(char_views(seen@) =~= seen_names(ev, k + 1));
            assert(endpoint_views(issues@) =~= endpoint_views(old(issues)@));
        },
    }
}

fn entries_exec(val: &str) -> (es: Vec<Vec<char>>)
    ensures
        char_views(es@) == endpoint_entries(val@),
{
    reveal(endpoint_entries);
    let c = chars_of(val);
    let parts = split_char_exec(c.as_slice(), ',');
    let mut es: Vec<Vec<char>> = Vec::new();
    let mut i: usize = 0;
    while i < parts.len()
        invariant
            i <= parts@.len(),
            char_views(parts@) == split_char(c@, ','),
            c@ == val@,
            es@.len() == i,
            forall|j: int| 0 <= j < i ==> es@[j]@ == trim(#[trigger] parts@[j]@),
        decreases parts.len() - i,
    {
        let t = trim_exec(parts[i].as_slice());
        es.push(t);
        i += 1;
    }
    assert(char_views(es@) =~= endpoint_entries(val@)) by {
        assert forall|j: int| 0 <= j < es@.len() implies char_views(es@)[j] == endpoint_entries(val@)[j] by {
            assert(char_views(parts@)[j] == parts@[j]@);
        }
    }
    es
}

/// Examines the `Reporting-Endpoints` value and the presence of the
/// deprecated `Report-To` header. URLs quoted in a report are cut to 57
/// bytes and `...`; the cut must fall between characters.
pub fn analyze_reporting_endpoints(
    reporting_endpoints: Option<&str>,
    report_to: Option<&str>,
    target_domain: Option<&str>,
) -> (issues: Vec<ReportingEndpointIssue>)
    requires
        match reporting_endpoints {
            Some(v) => quotable(v@, opt_view(target_domain)),
            None => true,
        },
    ensures
        endpoint_views(issues@) == reporting_endpoint_issues(
            opt_view(reporting_endpoints),
            report_to is Some,
            opt_view(target_domain),
        ),
{
    let ghost domain = opt_view(target_domain);
    let mut issues: Vec<ReportingEndpointIssue> = Vec::new();
    if report_to.is_some() {
        push_issue(&mut issues, ReportingEndpointIssue::DeprecatedReportTo);
    }
    let ghost head = endpoint_views(issues@);
    assert(head =~= emit_if(report_to is Some, ReportingEndpointIssueModel::DeprecatedReportTo));
    let val = match reporting_endpoints {
        Some(v) => v,
        None => {
            assert(endpoint_views(issues@) =~= reporting_endpoint_issues(None, report_to is Some, domain));
            return issues;
        },
    };
    push_issue(&mut issues, ReportingEndpointIssue::Present);
    let es = entries_exec(val);
    let ghost ev = endpoint_entries(val@);
    if es.len() > MAX_ENDPOINTS {
        push_issue(&mut issues, ReportingEndpointIssue::TooManyEndpoints { count: es.len() });
    }
    let ghost prefix = endpoint_views(issues@);
    let mut seen: Vec<Vec<char>> = Vec::new();
    let mut k: usize = 0;
    while k < es.len()
        invariant
            k <= es@.len(),
            char_views(es@) == ev,
            ev == endpoint_entries(val@),
            quotable(val@, domain),
            domain == opt_view(target_domain),
            char_views(seen@) == seen_names(ev, k as int),
            endpoint_views(issues@) == prefix + entries_issues(ev, k as int, domain),
        decreases es.len() - k,
    {
        assert(match endpoint_parts(ev[k as int]) {
            Some(p) => url_quoted(p.1, domain) ==> truncatable(p.1, 60),
            None => true,
        });
        add_entry(&mut issues, &mut seen, &es, k, target_domain);
        assert(endpoint_views(issues@) =~= prefix + entries_issues(ev, k + 1, domain));
        k += 1;
    }
    assert(es@.len() == ev.len());
    assert(endpoint_views(issues@) =~= reporting_endpoint_issues(Some(val@), report_to is Some, domain));
    issues
}

impl ReportingEndpointIssueModel {
    /// The issue's description.
    pub open spec fn message(self) -> Seq<char> {
        match self {
            ReportingEndpointIssueModel::Present => "present"@,
            ReportingEndpointIssueModel::ExternalCollector { url } => "external_collector: "@ + url,
            ReportingEndpointIssueModel::HttpEndpoint { url } => "http_endpoint: "@ + url,
            ReportingEndpointIssueModel::TooManyEndpoints { count } => "too_many_endpoints: "@
                + crate::text::decimal(count as nat),
            ReportingEndpointIssueModel::DuplicateEndpointNames { name } => "duplicate_endpoint_names: "@ + name,
            ReportingEndpointIssueModel::InvalidEndpointUrl { name, url } => "invalid_endpoint_url: "@ + name
                + "="@ + url,
            ReportingEndpointIssueModel::ThirdPartyCollector { service } => "third_party_collector: "@ + service,
            ReportingEndpointIssueModel::DeprecatedReportTo => "deprecated_report_to"@,
        }
    }
}

impl ReportingEndpointIssue {
    /// Renders the issue's description.
    pub fn to_string(&self) -> (s: String)
        ensures
            s@ == self@.message(),
    {
        let mut out: Vec<char> = Vec::new();
        match self {
            ReportingEndpointIssue::Present => push_str(&mut out, "present"),
            ReportingEndpointIssue::ExternalCollector { url } => {
                push_str(&mut out, "external_collector: ");
                push_str(&mut out, url.as_str());
            },
            ReportingEndpointIssue::HttpEndpoint { url } => {
                push_str(&mut out, "http_endpoint: ");
                push_str(&mut out, url.as_str());
            },
            ReportingEndpointIssue::TooManyEndpoints { count } => {
                push_str(&mut out, "too_many_endpoints: ");
                push_decimal(&mut out, *count as u64);
            },
            ReportingEndpointIssue::DuplicateEndpointNames { name } => {
                push_str(&mut out, "duplicate_endpoint_names: ");
                push_str(&mut out, name.as_str());
            },
            ReportingEndpointIssue::InvalidEndpointUrl { name, url } => {
                push_str(&mut out, "invalid_endpoint_url: ");
                push_str(&mut out, name.as_str());
                push_str(&mut out, "=");
                push_str(&mut out, url.as_str());
            },
            ReportingEndpointIssue::ThirdPartyCollector { service } => {
                push_str(&mut out, "third_party_collector: ");
                push_str(&mut out, service.as_str());
            },
            ReportingEndpointIssue::DeprecatedReportTo => push_str(&mut out, "deprecated_report_to"),
        }
        string_of(out.as_slice())
    }
}

/// Whether every URL that a report on this `Reporting-Endpoints` value
/// would quote can be cut, as `analyze_reporting_endpoints` needs.
pub fn urls_quotable(val: &str, target_domain: Option<&str>) -> (r: bool)
    ensures
        r == quotable(val@, opt_view(target_domain)),
{
    let es = entries_exec(val);
    let ghost ev = endpoint_entries(val@);
    let ghost domain = opt_view(target_domain);
    let mut k: usize = 0;
    while k < es.len()
        invariant
            k <= es@.len(),
            char_views(es@) == ev,
            ev == endpoint_entries(val@),
            domain == opt_view(target_domain),
            forall|j: int|
                0 <= j < k ==> match #[trigger] endpoint_parts(ev[j]) {
                    Some(p) => url_quoted(p.1, domain) ==> truncatable(p.1, 60),
                    None => true,
                },
        decreases es.len() - k,
    {
        assert(es@[k as int]@ == ev[k as int]);
        match endpoint_parts_exec(es[k].as_slice()) {
            Some((_, url)) => {
                let u = string_of(url.as_slice());
                proof {
                    reveal_strlit("https://");
                }
                let https = starts_with(url.as_slice(), "https://");
                let external = match target_domain {
                    Some(d) => is_external(u.as_str(), d),
                    None => false,
                };
                assert(external == leaves_domain(url@, domain));
                if (!https || external) && !truncatable_exec(u.as_str(), URL_REPORT_LEN) {
                    assert(!(match endpoint_parts(ev[k as int]) {
                        Some(p) => url_quoted(p.1, domain) ==> truncatable(p.1, 60),
                        None => true,
                    }));
                    return false;
                }
            },
            None => {},
        }
        k += 1;
    }
    assert(es@.len() == ev.len());
    true
}

} // verus!
