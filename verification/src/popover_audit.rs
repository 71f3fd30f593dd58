//! Popover API usage in page bodies.
use vstd::prelude::*;
use crate::text::{chars_of, has_text, has_substr, emit_if, count_matches, match_count};

verus! {

#[derive(Debug, Clone, Copy, PartialEq, Eq, Structural)]
pub enum PopoverIssue {
    ApiDetected,
    ContentSpoofing,
    ClickjackingOverlay,
    AutoShowOnLoad,
    UnsanitizedContent,
    NestedPopover,
}

impl PopoverIssue {
    /// The issue's short machine-readable label.
    pub open spec fn label(self) -> Seq<char> {
        match self {
            PopoverIssue::ApiDetected => "api_detected"@,
            PopoverIssue::ContentSpoofing => "content_spoofing"@,
            PopoverIssue::ClickjackingOverlay => "clickjacking_overlay"@,
            PopoverIssue::AutoShowOnLoad => "auto_show_on_load"@,
            PopoverIssue::UnsanitizedContent => "unsanitized_content"@,
            PopoverIssue::NestedPopover => "nested_popover"@,
        }
    }

    /// Renders the label.
    pub fn to_string(&self) -> (s: String)
        ensures s@ == self.label(),
    {
        match self {
            PopoverIssue::ApiDetected => String::from_str("api_detected"),
            PopoverIssue::ContentSpoofing => String::from_str("content_spoofing"),
            PopoverIssue::ClickjackingOverlay => String::from_str("clickjacking_overlay"),
            PopoverIssue::AutoShowOnLoad => String::from_str("auto_show_on_load"),
            PopoverIssue::UnsanitizedContent => String::from_str("unsanitized_content"),
            PopoverIssue::NestedPopover => String::from_str("nested_popover"),
        }
    }
}

/// The issues that `analyze_popover` reports for a page body, in report order.
pub open spec fn popover_issues(b: Seq<char>) -> Seq<PopoverIssue> {
    let attr = has_substr(b, "popover="@) || has_substr(b, "popover "@);
    let api = has_substr(b, "showPopover("@) || has_substr(b, "hidePopover("@) || has_substr(b, "togglePopover("@);
    let target = has_substr(b, "popovertarget"@);
    if !attr && !api && !target {
        Seq::empty()
    } else {
        seq![PopoverIssue::ApiDetected]
        + emit_if((attr || api)
            && (has_substr(b, "position: fixed"@) || has_substr(b, "position: absolute"@))
            && (has_substr(b, "z-index"@) || has_substr(b, "inset: 0"@)),
            PopoverIssue::ContentSpoofing)
        + emit_if((attr || api) && has_substr(b, "pointer-events"@)
            && (has_substr(b, "opacity: 0"@) || has_substr(b, "opacity:0"@) || has_substr(b, "visibility: hidden"@)),
            PopoverIssue::ClickjackingOverlay)
        + emit_if(api
            && (has_substr(b, "DOMContentLoaded"@) || has_substr(b, "window.onload"@)
                || has_substr(b, "addEventListener(\"load\""@))
            && has_substr(b, "showPopover("@),
            PopoverIssue::AutoShowOnLoad)
        + emit_if((attr || api) && has_substr(b, "innerHTML"@) && !has_substr(b, "sanitize"@)
            && !has_substr(b, "textContent"@) && !has_substr(b, "escapeHtml"@),
            PopoverIssue::UnsanitizedContent)
        + emit_if(attr && has_substr(b, "popover=\"manual\""@) && has_substr(b, "popovertarget"@)
            && match_count(b, "popover="@) > 2,
            PopoverIssue::NestedPopover)
    }
}

pub fn analyze_popover(body: &str) -> (issues: Vec<PopoverIssue>)
    ensures issues@ == popover_issues(body@),
{
    let chars = chars_of(body);
    let b = chars.as_slice();
    let attr_eq = has_text(b, "popover=");
    let attr_sp = has_text(b, "popover ");
    let show = has_text(b, "showPopover(");
    let hide = has_text(b, "hidePopover(");
    let toggle = has_text(b, "togglePopover(");
    let target = has_text(b, "popovertarget");
    let attr = attr_eq || attr_sp;
    let api = show || hide || toggle;
    let mut issues: Vec<PopoverIssue> = Vec::new();
    if !attr && !api && !target {
        return issues;
    }
    let fixed = has_text(b, "position: fixed");
    let absolute = has_text(b, "position: absolute");
    let z_index = has_text(b, "z-index");
    let inset = has_text(b, "inset: 0");
    let pointer_events = has_text(b, "pointer-events");
    let opacity_sp = has_text(b, "opacity: 0");
    let opacity = has_text(b, "opacity:0");
    let hidden = has_text(b, "visibility: hidden");
    let dom_loaded = has_text(b, "DOMContentLoaded");
    let onload = has_text(b, "window.onload");
    let load_listener = has_text(b, "addEventListener(\"load\"");
    let inner_html = has_text(b, "innerHTML");
    let sanitize = has_text(b, "sanitize");
    let text_content = has_text(b, "textContent");
    let escape_html = has_text(b, "escapeHtml");
    let manual = has_text(b, "popover=\"manual\"");
    issues.push(PopoverIssue::ApiDetected);
    if (attr || api) && (fixed || absolute) && (z_index || inset) {
        issues.push(PopoverIssue::ContentSpoofing);
    }
    if (attr || api) && pointer_events && (opacity_sp || opacity || hidden) {
        issues.push(PopoverIssue::ClickjackingOverlay);
    }
    if api && (dom_loaded || onload || load_listener) && show {
        issues.push(PopoverIssue::AutoShowOnLoad);
    }
    if (attr || api) && inner_html && !sanitize && !text_content && !escape_html {
        issues.push(PopoverIssue::UnsanitizedContent);
    }
    if attr && manual && target {
        proof {
            reveal_strlit("popover=");
        }
        let popover_count = count_matches(b, "popover=");
        if popover_count > 2 {
            issues.push(PopoverIssue::NestedPopover);
        }
    }
    assert(issues@ =~= popover_issues(body@));
    issues
}

} // verus!
