//! Priority Hints (`fetchpriority`) usage in page bodies.
use vstd::prelude::*;
use crate::text::{chars_of, has_text, has_substr, emit_if, push_if};

verus! {

#[derive(Debug, Clone, Copy, PartialEq, Eq, Structural)]
pub enum PriorityHintsIssue {
    ApiDetected,
    HighPriorityTracker,
    LowPriorityCSP,
    ResourcePrioritySpoofing,
    PreloadAbuse,
}

impl PriorityHintsIssue {
    /// The issue's short machine-readable label.
    pub open spec fn label(self) -> Seq<char> {
        match self {
            PriorityHintsIssue::ApiDetected => "api_detected"@,
            PriorityHintsIssue::HighPriorityTracker => "high_priority_tracker"@,
            PriorityHintsIssue::LowPriorityCSP => "low_priority_csp"@,
            PriorityHintsIssue::ResourcePrioritySpoofing => "resource_priority_spoofing"@,
            PriorityHintsIssue::PreloadAbuse => "preload_abuse"@,
        }
    }

    /// Renders the label.
    pub fn to_string(&self) -> (s: String)
        ensures s@ == self.label(),
    {
        match self {
            PriorityHintsIssue::ApiDetected => String::from_str("api_detected"),
            PriorityHintsIssue::HighPriorityTracker => String::from_str("high_priority_tracker"),
            PriorityHintsIssue::LowPriorityCSP => String::from_str("low_priority_csp"),
            PriorityHintsIssue::ResourcePrioritySpoofing => String::from_str("resource_priority_spoofing"),
            PriorityHintsIssue::PreloadAbuse => String::from_str("preload_abuse"),
        }
    }
}

/// The issues that `analyze_priority_hints` reports for a page body, in report order.
pub open spec fn priority_hints_issues(b: Seq<char>) -> Seq<PriorityHintsIssue> {
    let lower = has_substr(b, "fetchpriority"@);
    let camel = has_substr(b, "fetchPriority"@);
    emit_if(lower || camel || has_substr(b, "importance"@), PriorityHintsIssue::ApiDetected)
    + emit_if((has_substr(b, "fetchpriority=\"high\""@) || camel)
        && (has_substr(b, "analytics"@) || has_substr(b, "tracking"@) || has_substr(b, "beacon"@) || has_substr(b, "pixel"@)),
        PriorityHintsIssue::HighPriorityTracker)
    + emit_if(has_substr(b, "fetchpriority=\"low\""@)
        && (has_substr(b, "csp-report"@) || has_substr(b, "security"@) || has_substr(b, "integrity"@) || has_substr(b, "nonce"@)),
        PriorityHintsIssue::LowPriorityCSP)
    + emit_if(camel && (has_substr(b, "setAttribute"@) || has_substr(b, "createElement"@))
        && !has_substr(b, "static"@) && !has_substr(b, "readonly"@),
        PriorityHintsIssue::ResourcePrioritySpoofing)
    + emit_if(lower && (has_substr(b, "preload"@) || has_substr(b, "prefetch"@) || has_substr(b, "prerender"@))
        && (has_substr(b, "script"@) || has_substr(b, "style"@)),
        PriorityHintsIssue::PreloadAbuse)
}

pub fn analyze_priority_hints(body: &str) -> (issues: Vec<PriorityHintsIssue>)
    ensures issues@ == priority_hints_issues(body@),
{
    let chars = chars_of(body);
    let b = chars.as_slice();
    let lower = has_text(b, "fetchpriority");
    let camel = has_text(b, "fetchPriority");
    let importance = has_text(b, "importance");
    let high = has_text(b, "fetchpriority=\"high\"");
    let analytics = has_text(b, "analytics");
    let tracking = has_text(b, "tracking");
    let beacon = has_text(b, "beacon");
    let pixel = has_text(b, "pixel");
    let low = has_text(b, "fetchpriority=\"low\"");
    let csp_report = has_text(b, "csp-report");
    let security = has_text(b, "security");
    let integrity = has_text(b, "integrity");
    let nonce = has_text(b, "nonce");
    let set_attribute = has_text(b, "setAttribute");
    let create_element = has_text(b, "createElement");
    let is_static = has_text(b, "static");
    let readonly = has_text(b, "readonly");
    let preload = has_text(b, "preload");
    let prefetch = has_text(b, "prefetch");
    let prerender = has_text(b, "prerender");
    let script = has_text(b, "script");
    let style = has_text(b, "style");
    let mut issues: Vec<PriorityHintsIssue> = Vec::new();
    assert(issues@ =~= Seq::<PriorityHintsIssue>::empty());
    push_if(&mut issues, lower || camel || importance, PriorityHintsIssue::ApiDetected);
    push_if(&mut issues, (high || camel) && (analytics || tracking || beacon || pixel), PriorityHintsIssue::HighPriorityTracker);
    push_if(&mut issues, low && (csp_report || security || integrity || nonce), PriorityHintsIssue::LowPriorityCSP);
    push_if(
        &mut issues,
        camel && (set_attribute || create_element) && !is_static && !readonly,
        PriorityHintsIssue::ResourcePrioritySpoofing,
    );
    push_if(
        &mut issues,
        lower && (preload || prefetch || prerender) && (script || style),
        PriorityHintsIssue::PreloadAbuse,
    );
    assert(issues@ =~= priority_hints_issues(body@));
    issues
}

} // verus!
