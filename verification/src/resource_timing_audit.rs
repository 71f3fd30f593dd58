//! Resource Timing API usage in page bodies.
use vstd::prelude::*;
use crate::text::{chars_of, has_text, has_substr, emit_if, lemma_contains_add, lemma_contains_emit_if, push_if};

verus! {

#[derive(Debug, Clone, Copy, PartialEq, Eq, Structural)]
pub enum ResourceTimingIssue {
    TimingApiUsed,
    CrossOriginSizeLeak,
    PerformanceObserverUsed,
    HighResTimestamp,
    NavigationTimingLeak,
    MissingTimingAllowOrigin,
}

impl ResourceTimingIssue {
    /// The issue's short machine-readable label.
    pub open spec fn label(self) -> Seq<char> {
        match self {
            ResourceTimingIssue::TimingApiUsed => "timing_api_used"@,
            ResourceTimingIssue::CrossOriginSizeLeak => "cross_origin_size_leak"@,
            ResourceTimingIssue::PerformanceObserverUsed => "performance_observer"@,
            ResourceTimingIssue::HighResTimestamp => "high_res_timestamp"@,
            ResourceTimingIssue::NavigationTimingLeak => "navigation_timing_leak"@,
            ResourceTimingIssue::MissingTimingAllowOrigin => "missing_timing_allow_origin"@,
        }
    }

    /// Renders the label.
    pub fn to_string(&self) -> (s: String)
        ensures s@ == self.label(),
    {
        match self {
            ResourceTimingIssue::TimingApiUsed => String::from_str("timing_api_used"),
            ResourceTimingIssue::CrossOriginSizeLeak => String::from_str("cross_origin_size_leak"),
            ResourceTimingIssue::PerformanceObserverUsed => String::from_str("performance_observer"),
            ResourceTimingIssue::HighResTimestamp => String::from_str("high_res_timestamp"),
            ResourceTimingIssue::NavigationTimingLeak => String::from_str("navigation_timing_leak"),
            ResourceTimingIssue::MissingTimingAllowOrigin => String::from_str("missing_timing_allow_origin"),
        }
    }
}

/// The body reads the Performance APIs at all.
pub open spec fn has_timing_indicators(b: Seq<char>) -> bool {
    has_substr(b, "performance."@) || has_substr(b, "PerformanceObserver"@) || has_substr(b, "transferSize"@)
        || has_substr(b, "encodedBodySize"@) || has_substr(b, "decodedBodySize"@) || has_substr(b, "responseStart"@)
}

/// The body reads response sizes or response timing of fetched resources.
pub open spec fn has_size_leak_pattern(b: Seq<char>) -> bool {
    has_substr(b, "transferSize"@) || has_substr(b, "encodedBodySize"@) || has_substr(b, "decodedBodySize"@)
        || (has_substr(b, "responseStart"@) && (has_substr(b, "requestStart"@) || has_substr(b, "fetchStart"@)))
}

/// The issues that `analyze_resource_timing` reports, in report order.
pub open spec fn resource_timing_issues(b: Seq<char>, tao: Seq<char>) -> Seq<ResourceTimingIssue> {
    let found = emit_if(has_substr(b, "getEntriesByType"@) || has_substr(b, "getEntriesByName"@),
            ResourceTimingIssue::TimingApiUsed)
        + emit_if(has_size_leak_pattern(b), ResourceTimingIssue::CrossOriginSizeLeak)
        + emit_if(has_substr(b, "PerformanceObserver"@), ResourceTimingIssue::PerformanceObserverUsed)
        + emit_if(has_substr(b, "performance.now()"@) || has_substr(b, "performance.timeOrigin"@),
            ResourceTimingIssue::HighResTimestamp)
        + emit_if(has_substr(b, "performance.timing"@) || has_substr(b, "performance.navigation"@),
            ResourceTimingIssue::NavigationTimingLeak);
    if !has_timing_indicators(b) {
        Seq::empty()
    } else {
        found + emit_if(found.len() > 0 && tao.len() == 0, ResourceTimingIssue::MissingTimingAllowOrigin)
    }
}

pub fn analyze_resource_timing(body: &str, timing_allow_origin: &str) -> (issues: Vec<ResourceTimingIssue>)
    ensures issues@ == resource_timing_issues(body@, timing_allow_origin@),
{
    let chars = chars_of(body);
    let b = chars.as_slice();
    let perf = has_text(b, "performance.");
    let observer = has_text(b, "PerformanceObserver");
    let transfer = has_text(b, "transferSize");
    let encoded = has_text(b, "encodedBodySize");
    let decoded = has_text(b, "decodedBodySize");
    let response_start = has_text(b, "responseStart");
    let mut issues: Vec<ResourceTimingIssue> = Vec::new();
    if !(perf || observer || transfer || encoded || decoded || response_start) {
        return issues;
    }
    let by_type = has_text(b, "getEntriesByType");
    let by_name = has_text(b, "getEntriesByName");
    let request_start = has_text(b, "requestStart");
    let fetch_start = has_text(b, "fetchStart");
    let now = has_text(b, "performance.now()");
    let time_origin = has_text(b, "performance.timeOrigin");
    let timing = has_text(b, "performance.timing");
    let navigation = has_text(b, "performance.navigation");
    assert(issues@ =~= Seq::<ResourceTimingIssue>::empty());
    push_if(&mut issues, by_type || by_name, ResourceTimingIssue::TimingApiUsed);
    push_if(
        &mut issues,
        transfer || encoded || decoded || (response_start && (request_start || fetch_start)),
        ResourceTimingIssue::CrossOriginSizeLeak,
    );
    push_if(&mut issues, observer, ResourceTimingIssue::PerformanceObserverUsed);
    push_if(&mut issues, now || time_origin, ResourceTimingIssue::HighResTimestamp);
    push_if(&mut issues, timing || navigation, ResourceTimingIssue::NavigationTimingLeak);
    let tao_empty = timing_allow_origin.is_empty();
    let found_any = issues.len() > 0;
    push_if(&mut issues, found_any && tao_empty, ResourceTimingIssue::MissingTimingAllowOrigin);
    issues
}

/// Reading a fetched resource's response start together with its request
/// start or fetch start is a size leak: such a body is always reported
/// with `CrossOriginSizeLeak`, and, without a `Timing-Allow-Origin` value,
/// also with `MissingTimingAllowOrigin`. So are bodies that read a
/// transfer, encoded or decoded size.
pub proof fn law_resource_timing_size_leak(b: Seq<char>, tao: Seq<char>)
    requires
        (has_substr(b, "responseStart"@) && (has_substr(b, "requestStart"@) || has_substr(b, "fetchStart"@)))
            || has_substr(b, "transferSize"@) || has_substr(b, "encodedBodySize"@) || has_substr(b, "decodedBodySize"@),
    ensures
        resource_timing_issues(b, tao).contains(ResourceTimingIssue::CrossOriginSizeLeak),
        tao.len() == 0 ==> resource_timing_issues(b, tao).contains(ResourceTimingIssue::MissingTimingAllowOrigin),
{
    let x = ResourceTimingIssue::CrossOriginSizeLeak;
    let a0 = emit_if(has_substr(b, "getEntriesByType"@) || has_substr(b, "getEntriesByName"@),
        ResourceTimingIssue::TimingApiUsed);
    let a1 = emit_if(has_size_leak_pattern(b), ResourceTimingIssue::CrossOriginSizeLeak);
    let a2 = emit_if(has_substr(b, "PerformanceObserver"@), ResourceTimingIssue::PerformanceObserverUsed);
    let a3 = emit_if(has_substr(b, "performance.now()"@) || has_substr(b, "performance.timeOrigin"@),
        ResourceTimingIssue::HighResTimestamp);
    let a4 = emit_if(has_substr(b, "performance.timing"@) || has_substr(b, "performance.navigation"@),
        ResourceTimingIssue::NavigationTimingLeak);
    let found = a0 + a1 + a2 + a3 + a4;
    lemma_contains_emit_if(has_size_leak_pattern(b), ResourceTimingIssue::CrossOriginSizeLeak, x);
    lemma_contains_add(a0, a1, x);
    lemma_contains_add(a0 + a1, a2, x);
    lemma_contains_add(a0 + a1 + a2, a3, x);
    lemma_contains_add(a0 + a1 + a2 + a3, a4, x);
    assert(found.contains(x));
    assert(found.len() > 0);
    let m = emit_if(found.len() > 0 && tao.len() == 0, ResourceTimingIssue::MissingTimingAllowOrigin);
    lemma_contains_add(found, m, x);
    lemma_contains_add(found, m, ResourceTimingIssue::MissingTimingAllowOrigin);
    lemma_contains_emit_if(found.len() > 0 && tao.len() == 0, ResourceTimingIssue::MissingTimingAllowOrigin,
        ResourceTimingIssue::MissingTimingAllowOrigin);
}

} // verus!
