//! Pointer Lock API usage in page bodies.
use vstd::prelude::*;
use crate::text::{chars_of, has_text, has_substr, emit_if};

verus! {

#[derive(Debug, Clone, Copy, PartialEq, Eq, Structural)]
pub enum PointerLockIssue {
    ApiDetected,
    ClickjackingRisk,
    UiSpoofing,
    InputHijacking,
    EscapeBypass,
}

impl PointerLockIssue {
    /// The issue's short machine-readable label.
    pub open spec fn label(self) -> Seq<char> {
        match self {
            PointerLockIssue::ApiDetected => "api_detected"@,
            PointerLockIssue::ClickjackingRisk => "clickjacking_risk"@,
            PointerLockIssue::UiSpoofing => "ui_spoofing"@,
            PointerLockIssue::InputHijacking => "input_hijacking"@,
            PointerLockIssue::EscapeBypass => "escape_bypass"@,
        }
    }

    /// Renders the label.
    pub fn to_string(&self) -> (s: String)
        ensures s@ == self.label(),
    {
        match self {
            PointerLockIssue::ApiDetected => String::from_str("api_detected"),
            PointerLockIssue::ClickjackingRisk => String::from_str("clickjacking_risk"),
            PointerLockIssue::UiSpoofing => String::from_str("ui_spoofing"),
            PointerLockIssue::InputHijacking => String::from_str("input_hijacking"),
            PointerLockIssue::EscapeBypass => String::from_str("escape_bypass"),
        }
    }
}

/// The issues that `analyze_pointer_lock` reports for a page body, in report order.
pub open spec fn pointer_lock_issues(b: Seq<char>) -> Seq<PointerLockIssue> {
    let req = has_substr(b, "requestPointerLock"@);
    let elem = has_substr(b, "pointerLockElement"@);
    let exit = has_substr(b, "exitPointerLock"@);
    if !req && !elem && !exit {
        Seq::empty()
    } else {
        seq![PointerLockIssue::ApiDetected]
        + emit_if(req && (has_substr(b, "fullscreen"@) || has_substr(b, "requestFullscreen"@))
            && (has_substr(b, "innerHTML"@) || has_substr(b, "document.write"@) || has_substr(b, "location"@)),
            PointerLockIssue::ClickjackingRisk)
        + emit_if(req && has_substr(b, "cursor"@) && (has_substr(b, "none"@) || has_substr(b, "custom"@))
            && (has_substr(b, "position: fixed"@) || has_substr(b, "position: absolute"@)),
            PointerLockIssue::UiSpoofing)
        + emit_if(elem && (has_substr(b, "mousemove"@) || has_substr(b, "onmousemove"@)) && !exit,
            PointerLockIssue::InputHijacking)
        + emit_if(req && has_substr(b, "unadjustedMovement"@) && !has_substr(b, "pointerlockerror"@),
            PointerLockIssue::EscapeBypass)
    }
}

pub fn analyze_pointer_lock(body: &str) -> (issues: Vec<PointerLockIssue>)
    ensures issues@ == pointer_lock_issues(body@),
{
    let chars = chars_of(body);
    let b = chars.as_slice();
    let req = has_text(b, "requestPointerLock");
    let elem = has_text(b, "pointerLockElement");
    let exit = has_text(b, "exitPointerLock");
    let mut issues: Vec<PointerLockIssue> = Vec::new();
    if !req && !elem && !exit {
        return issues;
    }
    issues.push(PointerLockIssue::ApiDetected);
    if req && (has_text(b, "fullscreen") || has_text(b, "requestFullscreen"))
        && (has_text(b, "innerHTML") || has_text(b, "document.write") || has_text(b, "location"))
    {
        issues.push(PointerLockIssue::ClickjackingRisk);
    }
    if req && has_text(b, "cursor") && (has_text(b, "none") || has_text(b, "custom"))
        && (has_text(b, "position: fixed") || has_text(b, "position: absolute"))
    {
        issues.push(PointerLockIssue::UiSpoofing);
    }
    if elem && (has_text(b, "mousemove") || has_text(b, "onmousemove")) && !exit {
        issues.push(PointerLockIssue::InputHijacking);
    }
    if req && has_text(b, "unadjustedMovement") && !has_text(b, "pointerlockerror") {
        issues.push(PointerLockIssue::EscapeBypass);
    }
    assert(issues@ =~= pointer_lock_issues(body@));
    issues
}

} // verus!
