//! Use of the Reporting API: `Report-To`, `Reporting-Endpoints` and
//! `ReportingObserver`.
use vstd::prelude::*;
use crate::text::{
    chars_of, count_matches, emit_if, find_from, first_from, has_substr, has_text, is_prefix,
    match_count, occurs_at, occurs_at_exec, slice_chars,
};

verus! {

#[derive(Debug, Clone, Copy, PartialEq, Eq, Structural)]
pub enum ReportingApiIssue {
    ThirdPartyEndpoint,
    HttpEndpoint,
    ReportToDeprecated,
    ObserverDetected,
    ObserverBuffered,
    NoReportingEndpoints,
    ExcessiveReportTypes,
}

impl ReportingApiIssue {
    /// The issue's short machine-readable label.
    pub open spec fn label(self) -> Seq<char> {
        match self {
            ReportingApiIssue::ThirdPartyEndpoint => "third_party_endpoint"@,
            ReportingApiIssue::HttpEndpoint => "http_endpoint"@,
            ReportingApiIssue::ReportToDeprecated => "report_to_deprecated"@,
            ReportingApiIssue::ObserverDetected => "observer_detected"@,
            ReportingApiIssue::ObserverBuffered => "observer_buffered"@,
            ReportingApiIssue::NoReportingEndpoints => "no_reporting_endpoints"@,
            ReportingApiIssue::ExcessiveReportTypes => "excessive_report_types"@,
        }
    }

    /// Renders the label.
    pub fn to_string(&self) -> (s: String)
        ensures s@ == self.label(),
    {
        match self {
            ReportingApiIssue::ThirdPartyEndpoint => String::from_str("third_party_endpoint"),
            ReportingApiIssue::HttpEndpoint => String::from_str("http_endpoint"),
            ReportingApiIssue::ReportToDeprecated => String::from_str("report_to_deprecated"),
            ReportingApiIssue::ObserverDetected => String::from_str("observer_detected"),
            ReportingApiIssue::ObserverBuffered => String::from_str("observer_buffered"),
            ReportingApiIssue::NoReportingEndpoints => String::from_str("no_reporting_endpoints"),
            ReportingApiIssue::ExcessiveReportTypes => String::from_str("excessive_report_types"),
        }
    }
}

/// The text after an `https://` that starts at `i`, up to the next
/// `https://` or the end.
pub open spec fn https_segment(v: Seq<char>, i: int) -> Seq<char> {
    let start = i + 8;
    if exists|j: int| start <= j && occurs_at(v, "https://"@, j) {
        v.subrange(start, first_from(v, "https://"@, start))
    } else {
        v.subrange(start, v.len() as int)
    }
}

/// Some `https://` URL in the value does not begin with `domain`.
pub open spec fn third_party_in(v: Seq<char>, domain: Seq<char>) -> bool {
    exists|i: int| occurs_at(v, "https://"@, i) && !is_prefix(domain, #[trigger] https_segment(v, i))
}

/// The endpoint issues of one header value.
pub open spec fn value_issues(v: Seq<char>, domain: Seq<char>) -> Seq<ReportingApiIssue> {
    emit_if(has_substr(v, "http://"@), ReportingApiIssue::HttpEndpoint) + emit_if(
        third_party_in(v, domain),
        ReportingApiIssue::ThirdPartyEndpoint,
    )
}

/// What `analyze_reporting_api` reports, in order.
pub open spec fn reporting_api_issues(
    domain: Seq<char>,
    report_to: Seq<char>,
    reporting_endpoints: Seq<char>,
    body: Seq<char>,
) -> Seq<ReportingApiIssue> {
    let has_rt = report_to.len() > 0;
    let has_re = reporting_endpoints.len() > 0;
    let has_obs = has_substr(body, "ReportingObserver"@);
    if !has_rt && !has_re && !has_obs {
        Seq::empty()
    } else {
        (if has_rt {
            seq![ReportingApiIssue::ReportToDeprecated] + value_issues(report_to, domain)
        } else {
            Seq::empty()
        }) + (if has_re {
            value_issues(reporting_endpoints, domain) + emit_if(
                match_count(reporting_endpoints, "="@) > 5,
                ReportingApiIssue::ExcessiveReportTypes,
            )
        } else {
            Seq::empty()
        }) + (if has_obs {
            seq![ReportingApiIssue::ObserverDetected] + emit_if(
                has_substr(body, "buffered"@) && has_substr(body, "true"@),
                ReportingApiIssue::ObserverBuffered,
            )
        } else {
            Seq::empty()
        }) + emit_if((has_rt || has_obs) && !has_re, ReportingApiIssue::NoReportingEndpoints)
    }
}

/// Two occurrences of `https://` never overlap.
proof fn lemma_scheme_apart(v: Seq<char>, i: int, j: int)
    requires
        occurs_at(v, "https://"@, i),
        i < j < i + 8,
    ensures
        !occurs_at(v, "https://"@, j),
{
    reveal_strlit("https://");
    if occurs_at(v, "https://"@, j) {
        assert(v.subrange(j, j + 8)[0] == 'h');
        assert(v.subrange(i, i + 8)[j - i] == v[j]);
    }
}

/// Where the segment after the `https://` at `i` ends.
fn segment_end(v: &[char], pat: &[char], i: usize) -> (e: usize)
    requires
        pat@ == "https://"@,
        occurs_at(v@, "https://"@, i as int),
    ensures
        i + 8 <= e <= v@.len(),
        v@.subrange(i + 8, e as int) == https_segment(v@, i as int),
{
    proof {
        reveal_strlit("https://");
    }
    assert(i + 8 <= v.len());
    match find_from(v, pat, i + 8) {
        Some(j) => {
            let ghost f = first_from(v@, "https://"@, i + 8);
            assert(exists|j2: int| i + 8 <= j2 && occurs_at(v@, "https://"@, j2));
            assert(f == j) by {
                if f < j {
                    assert(!occurs_at(v@, "https://"@, f));
                } else if f > j {
                    assert(!occurs_at(v@, "https://"@, j as int));
                }
            }
            j
        },
        None => {
            assert(!exists|j2: int| i + 8 <= j2 && occurs_at(v@, "https://"@, j2));
            v.len()
        },
    }
}

fn third_party_in_exec(v: &[char], domain: &[char]) -> (r: bool)
    ensures
        r == third_party_in(v@, domain@),
{
    proof {
        reveal_strlit("https://");
    }
    let pat = chars_of("https://");
    let mut pos: usize = 0;
    while pos <= v.len()
        invariant
            pat@ == "https://"@,
            forall|j: int|
                0 <= j < pos && occurs_at(v@, "https://"@, j) ==> is_prefix(domain@, #[trigger] https_segment(v@, j)),
        decreases v.len() + 1 - pos,
    {
        match find_from(v, pat.as_slice(), pos) {
            Some(i) => {
                let e = segment_end(v, pat.as_slice(), i);
                let seg = slice_chars(v, i + 8, e);
                if !occurs_at_exec(seg.as_slice(), domain, 0) {
                    assert(!is_prefix(domain@, https_segment(v@, i as int)));
                    return true;
                }
                assert forall|j: int|
                    0 <= j < i + 8 && occurs_at(v@, "https://"@, j) implies is_prefix(
                    domain@,
                    #[trigger] https_segment(v@, j),
                ) by {
                    if i < j {
                        lemma_scheme_apart(v@, i as int, j);
                    }
                }
                pos = i + 8;
            },
            None => {
                assert forall|i: int| occurs_at(v@, "https://"@, i) implies is_prefix(
                    domain@,
                    #[trigger] https_segment(v@, i),
                ) by {}
                return false;
            },
        }
    }
    assert forall|i: int| occurs_at(v@, "https://"@, i) implies is_prefix(domain@, #[trigger] https_segment(v@, i)) by {}
    false
}

fn value_issues_exec(v: &[char], domain: &[char], issues: &mut Vec<ReportingApiIssue>)
    ensures
        final(issues)@ == old(issues)@ + value_issues(v@, domain@),
{
    if has_text(v, "http://") {
        issues.push(ReportingApiIssue::HttpEndpoint);
    }
    if third_party_in_exec(v, domain) {
        issues.push(ReportingApiIssue::ThirdPartyEndpoint);
    }
    assert(issues@ =~= old(issues)@ + value_issues(v@, domain@));
}

/// Examines the reporting headers and the page body. Without any reporting
/// in use nothing is reported.
pub fn analyze_reporting_api(domain: &str, report_to: &str, reporting_endpoints: &str, body: &str) -> (issues: Vec<
    ReportingApiIssue,
>)
    ensures
        issues@ == reporting_api_issues(domain@, report_to@, reporting_endpoints@, body@),
{
    let d = chars_of(domain);
    let rt = chars_of(report_to);
    let re = chars_of(reporting_endpoints);
    let b = chars_of(body);
    let mut issues: Vec<ReportingApiIssue> = Vec::new();
    let has_rt = rt.len() > 0;
    let has_re = re.len() > 0;
    let has_obs = has_text(b.as_slice(), "ReportingObserver");
    if !has_rt && !has_re && !has_obs {
        return issues;
    }
    let ghost s0 = issues@;
    if has_rt {
        issues.push(ReportingApiIssue::ReportToDeprecated);
        value_issues_exec(rt.as_slice(), d.as_slice(), &mut issues);
    }
    let ghost s1 = issues@;
    if has_re {
        value_issues_exec(re.as_slice(), d.as_slice(), &mut issues);
        proof {
            reveal_strlit("=");
        }
        if count_matches(re.as_slice(), "=") > 5 {
            issues.push(ReportingApiIssue::ExcessiveReportTypes);
        }
    }
    let ghost s2 = issues@;
    if has_obs {
        issues.push(ReportingApiIssue::ObserverDetected);
        if has_text(b.as_slice(), "buffered") && has_text(b.as_slice(), "true") {
            issues.push(ReportingApiIssue::ObserverBuffered);
        }
    }
    if (has_rt || has_obs) && !has_re {
        issues.push(ReportingApiIssue::NoReportingEndpoints);
    }
    assert(issues@ =~= reporting_api_issues(domain@, report_to@, reporting_endpoints@, body@));
    issues
}

} // verus!
