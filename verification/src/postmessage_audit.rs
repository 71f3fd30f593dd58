//! `postMessage` usage in page bodies.
use vstd::prelude::*;
use crate::text::{chars_of, has_text, has_substr, emit_if, push_if};

verus! {

#[derive(Debug, Clone, Copy, PartialEq, Eq, Structural)]
pub enum PostMessageIssue {
    ApiDetected,
    WildcardTargetOrigin,
    MessageHandlerNoOriginCheck,
    DomInjectionViaMessage,
    SensitiveDataInMessage,
    CrossFrameNoValidation,
    PrototypePollutionRisk,
    MessageHandlerUsesEval,
    MessageHandlerUsesInnerHtml,
}

impl PostMessageIssue {
    /// The issue's short machine-readable label.
    pub open spec fn label(self) -> Seq<char> {
        match self {
            PostMessageIssue::ApiDetected => "postmessage_api_detected"@,
            PostMessageIssue::WildcardTargetOrigin => "postmessage_wildcard_origin"@,
            PostMessageIssue::MessageHandlerNoOriginCheck => "message_handler_no_origin"@,
            PostMessageIssue::DomInjectionViaMessage => "dom_injection_via_message"@,
            PostMessageIssue::SensitiveDataInMessage => "sensitive_data_in_message"@,
            PostMessageIssue::CrossFrameNoValidation => "cross_frame_no_validation"@,
            PostMessageIssue::PrototypePollutionRisk => "prototype_pollution_risk"@,
            PostMessageIssue::MessageHandlerUsesEval => "message_handler_eval"@,
            PostMessageIssue::MessageHandlerUsesInnerHtml => "message_handler_innerhtml"@,
        }
    }

    /// Renders the label.
    pub fn to_string(&self) -> (s: String)
        ensures s@ == self.label(),
    {
        match self {
            PostMessageIssue::ApiDetected => String::from_str("postmessage_api_detected"),
            PostMessageIssue::WildcardTargetOrigin => String::from_str("postmessage_wildcard_origin"),
            PostMessageIssue::MessageHandlerNoOriginCheck => String::from_str("message_handler_no_origin"),
            PostMessageIssue::DomInjectionViaMessage => String::from_str("dom_injection_via_message"),
            PostMessageIssue::SensitiveDataInMessage => String::from_str("sensitive_data_in_message"),
            PostMessageIssue::CrossFrameNoValidation => String::from_str("cross_frame_no_validation"),
            PostMessageIssue::PrototypePollutionRisk => String::from_str("prototype_pollution_risk"),
            PostMessageIssue::MessageHandlerUsesEval => String::from_str("message_handler_eval"),
            PostMessageIssue::MessageHandlerUsesInnerHtml => String::from_str("message_handler_innerhtml"),
        }
    }
}

/// The issues that `analyze_postmessage` reports for a page body, in report order.
pub open spec fn postmessage_issues(b: Seq<char>) -> Seq<PostMessageIssue> {
    let api = has_substr(b, "postMessage"@) || has_substr(b, "addEventListener('message'"@)
        || has_substr(b, "addEventListener(\"message\""@) || has_substr(b, "onmessage"@);
    let handler = has_substr(b, "addEventListener(\"message\""@) || has_substr(b, "addEventListener('message'"@)
        || has_substr(b, "onmessage ="@) || has_substr(b, "onmessage="@);
    let origin_read = has_substr(b, "event.origin"@) || has_substr(b, "e.origin"@) || has_substr(b, "evt.origin"@);
    let compares = has_substr(b, "!=="@) || has_substr(b, "!="@) || has_substr(b, "==="@) || has_substr(b, "=="@);
    let data_read = has_substr(b, "event.data"@) || has_substr(b, "e.data"@) || has_substr(b, "evt.data"@);
    if !api {
        Seq::empty()
    } else {
        seq![PostMessageIssue::ApiDetected]
        + emit_if(has_substr(b, ".postMessage("@) && (has_substr(b, ", \"*\""@) || has_substr(b, ", '*'"@)),
            PostMessageIssue::WildcardTargetOrigin)
        + emit_if(handler && !(origin_read && compares), PostMessageIssue::MessageHandlerNoOriginCheck)
        + emit_if(handler && (has_substr(b, "innerHTML"@) || has_substr(b, "eval("@) || has_substr(b, "document.write("@))
            && data_read, PostMessageIssue::DomInjectionViaMessage)
        + emit_if(handler && (has_substr(b, "__proto__"@) || has_substr(b, "constructor.prototype"@)) && data_read,
            PostMessageIssue::PrototypePollutionRisk)
        + emit_if((has_substr(b, "password"@) || has_substr(b, "token"@) || has_substr(b, "secret"@)
            || has_substr(b, "credential"@)) && has_substr(b, ".postMessage("@),
            PostMessageIssue::SensitiveDataInMessage)
        + emit_if((has_substr(b, "parent.postMessage"@) || (has_substr(b, "frames["@) && has_substr(b, ".postMessage"@)))
            && !has_substr(b, "event.origin"@) && !has_substr(b, "e.origin"@),
            PostMessageIssue::CrossFrameNoValidation)
    }
}

pub fn analyze_postmessage(body: &str) -> (issues: Vec<PostMessageIssue>)
    ensures issues@ == postmessage_issues(body@),
{
    let chars = chars_of(body);
    let b = chars.as_slice();
    let post_message = has_text(b, "postMessage");
    let listener_single = has_text(b, "addEventListener('message'");
    let listener_double = has_text(b, "addEventListener(\"message\"");
    let onmessage = has_text(b, "onmessage");
    let mut issues: Vec<PostMessageIssue> = Vec::new();
    if !(post_message || listener_single || listener_double || onmessage) {
        return issues;
    }
    let dot_post = has_text(b, ".postMessage(");
    let star_double = has_text(b, ", \"*\"");
    let star_single = has_text(b, ", '*'");
    let onmessage_sp = has_text(b, "onmessage =");
    let onmessage_eq = has_text(b, "onmessage=");
    let event_origin = has_text(b, "event.origin");
    let e_origin = has_text(b, "e.origin");
    let evt_origin = has_text(b, "evt.origin");
    let ne2 = has_text(b, "!==");
    let ne = has_text(b, "!=");
    let eq3 = has_text(b, "===");
    let eq2 = has_text(b, "==");
    let inner_html = has_text(b, "innerHTML");
    let eval = has_text(b, "eval(");
    let doc_write = has_text(b, "document.write(");
    let event_data = has_text(b, "event.data");
    let e_data = has_text(b, "e.data");
    let evt_data = has_text(b, "evt.data");
    let proto = has_text(b, "__proto__");
    let ctor_proto = has_text(b, "constructor.prototype");
    let password = has_text(b, "password");
    let token = has_text(b, "token");
    let secret = has_text(b, "secret");
    let credential = has_text(b, "credential");
    let parent_post = has_text(b, "parent.postMessage");
    let frames = has_text(b, "frames[");
    let dot_post_any = has_text(b, ".postMessage");
    issues.push(PostMessageIssue::ApiDetected);
    assert(issues@ =~= seq![PostMessageIssue::ApiDetected]);
    let handler = listener_double || listener_single || onmessage_sp || onmessage_eq;
    let data_read = event_data || e_data || evt_data;
    let origin_check = (event_origin || e_origin || evt_origin) && (ne2 || ne || eq3 || eq2);
    push_if(&mut issues, dot_post && (star_double || star_single), PostMessageIssue::WildcardTargetOrigin);
    push_if(&mut issues, handler && !origin_check, PostMessageIssue::MessageHandlerNoOriginCheck);
    push_if(&mut issues, handler && (inner_html || eval || doc_write) && data_read, PostMessageIssue::DomInjectionViaMessage);
    push_if(&mut issues, handler && (proto || ctor_proto) && data_read, PostMessageIssue::PrototypePollutionRisk);
    push_if(&mut issues, (password || token || secret || credential) && dot_post, PostMessageIssue::SensitiveDataInMessage);
    push_if(
        &mut issues,
        (parent_post || (frames && dot_post_any)) && !event_origin && !e_origin,
        PostMessageIssue::CrossFrameNoValidation,
    );
    issues
}

/// The page installs a `message` handler.
pub open spec fn has_message_handler(b: Seq<char>) -> bool {
    has_substr(b, "addEventListener(\"message\""@) || has_substr(b, "addEventListener('message'"@)
        || has_substr(b, "onmessage ="@) || has_substr(b, "onmessage="@)
}

/// The page compares the origin of a received message.
pub open spec fn checks_message_origin(b: Seq<char>) -> bool {
    (has_substr(b, "event.origin"@) || has_substr(b, "e.origin"@) || has_substr(b, "evt.origin"@))
        && (has_substr(b, "!=="@) || has_substr(b, "!="@) || has_substr(b, "==="@) || has_substr(b, "=="@))
}

/// The issues that `analyze_postmessage_usage` reports for a page body, in report order.
pub open spec fn postmessage_usage_issues(b: Seq<char>) -> Seq<PostMessageIssue> {
    let handler = has_message_handler(b);
    emit_if(has_substr(b, ".postMessage("@) && (has_substr(b, "\"*\""@) || has_substr(b, "'*'"@)),
        PostMessageIssue::WildcardTargetOrigin)
    + emit_if(handler && !checks_message_origin(b), PostMessageIssue::MessageHandlerNoOriginCheck)
    + emit_if(handler && has_substr(b, "eval("@), PostMessageIssue::MessageHandlerUsesEval)
    + emit_if(handler && has_substr(b, "innerHTML"@), PostMessageIssue::MessageHandlerUsesInnerHtml)
}

/// How a page sends and receives messages: a wildcard target origin (reported
/// once), and `message` handlers that skip the origin check or pass message
/// data to `eval` or `innerHTML`.
pub fn analyze_postmessage_usage(body: &str) -> (issues: Vec<PostMessageIssue>)
    ensures
        issues@ == postmessage_usage_issues(body@),
{
    let chars = chars_of(body);
    let b = chars.as_slice();
    let handler = has_text(b, "addEventListener(\"message\"") || has_text(b, "addEventListener('message'")
        || has_text(b, "onmessage =") || has_text(b, "onmessage=");
    let origin = (has_text(b, "event.origin") || has_text(b, "e.origin") || has_text(b, "evt.origin"))
        && (has_text(b, "!==") || has_text(b, "!=") || has_text(b, "===") || has_text(b, "=="));
    let wildcard = has_text(b, ".postMessage(") && (has_text(b, "\"*\"") || has_text(b, "'*'"));
    let uses_eval = has_text(b, "eval(");
    let uses_inner = has_text(b, "innerHTML");
    let mut issues: Vec<PostMessageIssue> = Vec::new();
    push_if(&mut issues, wildcard, PostMessageIssue::WildcardTargetOrigin);
    push_if(&mut issues, handler && !origin, PostMessageIssue::MessageHandlerNoOriginCheck);
    push_if(&mut issues, handler && uses_eval, PostMessageIssue::MessageHandlerUsesEval);
    push_if(&mut issues, handler && uses_inner, PostMessageIssue::MessageHandlerUsesInnerHtml);
    assert(issues@ =~= postmessage_usage_issues(body@));
    issues
}

} // verus!
