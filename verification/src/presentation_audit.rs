//! Presentation API usage in page bodies.
use vstd::prelude::*;
use crate::text::{chars_of, has_text, has_substr, emit_if, push_if};

verus! {

#[derive(Debug, Clone, Copy, PartialEq, Eq, Structural)]
pub enum PresentationIssue {
    ApiDetected,
    DataExfiltration,
    CrossOriginUrl,
    NoAvailabilityCheck,
    MessageChannel,
    AutoReconnect,
}

impl PresentationIssue {
    /// The issue's short machine-readable label.
    pub open spec fn label(self) -> Seq<char> {
        match self {
            PresentationIssue::ApiDetected => "api_detected"@,
            PresentationIssue::DataExfiltration => "data_exfiltration"@,
            PresentationIssue::CrossOriginUrl => "cross_origin_url"@,
            PresentationIssue::NoAvailabilityCheck => "no_availability_check"@,
            PresentationIssue::MessageChannel => "message_channel"@,
            PresentationIssue::AutoReconnect => "auto_reconnect"@,
        }
    }

    /// Renders the label.
    pub fn to_string(&self) -> (s: String)
        ensures s@ == self.label(),
    {
        match self {
            PresentationIssue::ApiDetected => String::from_str("api_detected"),
            PresentationIssue::DataExfiltration => String::from_str("data_exfiltration"),
            PresentationIssue::CrossOriginUrl => String::from_str("cross_origin_url"),
            PresentationIssue::NoAvailabilityCheck => String::from_str("no_availability_check"),
            PresentationIssue::MessageChannel => String::from_str("message_channel"),
            PresentationIssue::AutoReconnect => String::from_str("auto_reconnect"),
        }
    }
}
#[derive(Debug, Clone, Copy, PartialEq, Eq, Structural)]
pub enum PresentationSecurityIssue {
    PresentationDataExfiltration,
    PresentationCrossOrigin,
    PresentationSessionHijack,
    PresentationWithoutConsent,
    PresentationScreenCapture,
    PresentationPersistence,
    PresentationInBackground,
    PresentationChannelAbuse,
    PresentationDeviceEnumeration,
    PresentationContentInjection,
}

impl PresentationSecurityIssue {
    /// The issue's short machine-readable label.
    pub open spec fn label(self) -> Seq<char> {
        match self {
            PresentationSecurityIssue::PresentationDataExfiltration => "presentation_data_exfiltration"@,
            PresentationSecurityIssue::PresentationCrossOrigin => "presentation_cross_origin"@,
            PresentationSecurityIssue::PresentationSessionHijack => "presentation_session_hijack"@,
            PresentationSecurityIssue::PresentationWithoutConsent => "presentation_without_consent"@,
            PresentationSecurityIssue::PresentationScreenCapture => "presentation_screen_capture"@,
            PresentationSecurityIssue::PresentationPersistence => "presentation_persistence"@,
            PresentationSecurityIssue::PresentationInBackground => "presentation_in_background"@,
            PresentationSecurityIssue::PresentationChannelAbuse => "presentation_channel_abuse"@,
            PresentationSecurityIssue::PresentationDeviceEnumeration => "presentation_device_enumeration"@,
            PresentationSecurityIssue::PresentationContentInjection => "presentation_content_injection"@,
        }
    }

    /// Renders the label.
    pub fn to_string(&self) -> (s: String)
        ensures s@ == self.label(),
    {
        match self {
            PresentationSecurityIssue::PresentationDataExfiltration => String::from_str("presentation_data_exfiltration"),
            PresentationSecurityIssue::PresentationCrossOrigin => String::from_str("presentation_cross_origin"),
            PresentationSecurityIssue::PresentationSessionHijack => String::from_str("presentation_session_hijack"),
            PresentationSecurityIssue::PresentationWithoutConsent => String::from_str("presentation_without_consent"),
            PresentationSecurityIssue::PresentationScreenCapture => String::from_str("presentation_screen_capture"),
            PresentationSecurityIssue::PresentationPersistence => String::from_str("presentation_persistence"),
            PresentationSecurityIssue::PresentationInBackground => String::from_str("presentation_in_background"),
            PresentationSecurityIssue::PresentationChannelAbuse => String::from_str("presentation_channel_abuse"),
            PresentationSecurityIssue::PresentationDeviceEnumeration => String::from_str("presentation_device_enumeration"),
            PresentationSecurityIssue::PresentationContentInjection => String::from_str("presentation_content_injection"),
        }
    }
}

/// The issues that `analyze_presentation` reports for a page body, in report order.
pub open spec fn presentation_issues(b: Seq<char>) -> Seq<PresentationIssue> {
    if !has_substr(b, "PresentationRequest"@) && !has_substr(b, "PresentationConnection"@) {
        Seq::empty()
    } else {
        seq![PresentationIssue::ApiDetected]
        + emit_if(has_substr(b, "fetch("@) || has_substr(b, "sendBeacon"@) || has_substr(b, "XMLHttpRequest"@),
            PresentationIssue::DataExfiltration)
        + emit_if(has_substr(b, "http://"@) && has_substr(b, "PresentationRequest("@), PresentationIssue::CrossOriginUrl)
        + emit_if(has_substr(b, "PresentationRequest"@) && !has_substr(b, "getAvailability"@),
            PresentationIssue::NoAvailabilityCheck)
        + emit_if(has_substr(b, ".send("@) && has_substr(b, "onmessage"@), PresentationIssue::MessageChannel)
        + emit_if(has_substr(b, "reconnect"@) || has_substr(b, "connectionavailable"@), PresentationIssue::AutoReconnect)
    }
}

pub fn analyze_presentation(body: &str) -> (issues: Vec<PresentationIssue>)
    ensures issues@ == presentation_issues(body@),
{
    let chars = chars_of(body);
    let b = chars.as_slice();
    let request = has_text(b, "PresentationRequest");
    let connection = has_text(b, "PresentationConnection");
    let mut issues: Vec<PresentationIssue> = Vec::new();
    if !request && !connection {
        return issues;
    }
    let fetch = has_text(b, "fetch(");
    let beacon = has_text(b, "sendBeacon");
    let xhr = has_text(b, "XMLHttpRequest");
    let http = has_text(b, "http://");
    let request_call = has_text(b, "PresentationRequest(");
    let availability = has_text(b, "getAvailability");
    let send = has_text(b, ".send(");
    let onmessage = has_text(b, "onmessage");
    let reconnect = has_text(b, "reconnect");
    let available = has_text(b, "connectionavailable");
    issues.push(PresentationIssue::ApiDetected);
    if fetch || beacon || xhr {
        issues.push(PresentationIssue::DataExfiltration);
    }
    if http && request_call {
        issues.push(PresentationIssue::CrossOriginUrl);
    }
    if request && !availability {
        issues.push(PresentationIssue::NoAvailabilityCheck);
    }
    if send && onmessage {
        issues.push(PresentationIssue::MessageChannel);
    }
    if reconnect || available {
        issues.push(PresentationIssue::AutoReconnect);
    }
    assert(issues@ =~= presentation_issues(body@));
    issues
}

/// The issues that `analyze_presentation_security` reports for a page body, in report order.
pub open spec fn presentation_security_issues(b: Seq<char>) -> Seq<PresentationSecurityIssue> {
    let request = has_substr(b, "PresentationRequest"@);
    let connection = has_substr(b, "PresentationConnection"@);
    let conn_send = has_substr(b, "connection.send"@) || has_substr(b, "conn.send"@);
    let conn_id = has_substr(b, "connection.id"@);
    if !request && !connection {
        Seq::empty()
    } else {
        emit_if((has_substr(b, "fetch("@) || has_substr(b, "sendBeacon"@) || has_substr(b, "XMLHttpRequest"@)) && conn_send,
            PresentationSecurityIssue::PresentationDataExfiltration)
        + emit_if(has_substr(b, "postMessage"@) && connection, PresentationSecurityIssue::PresentationCrossOrigin)
        + emit_if(conn_id && has_substr(b, "localStorage"@), PresentationSecurityIssue::PresentationSessionHijack)
        + emit_if(request && (has_substr(b, ".start()"@) || has_substr(b, ".start("@))
            && !has_substr(b, "user activation"@) && !has_substr(b, "click"@) && !has_substr(b, "addEventListener"@),
            PresentationSecurityIssue::PresentationWithoutConsent)
        + emit_if(has_substr(b, "getDisplayMedia"@) && request, PresentationSecurityIssue::PresentationScreenCapture)
        + emit_if((has_substr(b, "sessionStorage"@) || has_substr(b, "indexedDB"@))
            && (conn_id || has_substr(b, "presentation.id"@)), PresentationSecurityIssue::PresentationPersistence)
        + emit_if(has_substr(b, "visibilityState"@) && has_substr(b, "hidden"@) && connection,
            PresentationSecurityIssue::PresentationInBackground)
        + emit_if(has_substr(b, "MessageChannel"@) && connection, PresentationSecurityIssue::PresentationChannelAbuse)
        + emit_if(has_substr(b, "getAvailability"@) && has_substr(b, "monitor"@),
            PresentationSecurityIssue::PresentationDeviceEnumeration)
        + emit_if(conn_send && ((has_substr(b, "send(\"<script"@) || has_substr(b, "send('<script"@))
            || (has_substr(b, "send(payload"@) && has_substr(b, "\"<script"@))
            || (has_substr(b, "send(payload"@) && has_substr(b, "'<script"@))),
            PresentationSecurityIssue::PresentationContentInjection)
    }
}

pub fn analyze_presentation_security(body: &str) -> (issues: Vec<PresentationSecurityIssue>)
    ensures issues@ == presentation_security_issues(body@),
{
    let chars = chars_of(body);
    let b = chars.as_slice();
    let request = has_text(b, "PresentationRequest");
    let connection = has_text(b, "PresentationConnection");
    let mut issues: Vec<PresentationSecurityIssue> = Vec::new();
    if !request && !connection {
        return issues;
    }
    let fetch = has_text(b, "fetch(");
    let beacon = has_text(b, "sendBeacon");
    let xhr = has_text(b, "XMLHttpRequest");
    let connection_send = has_text(b, "connection.send");
    let conn_send_short = has_text(b, "conn.send");
    let post_message = has_text(b, "postMessage");
    let conn_id = has_text(b, "connection.id");
    let local_storage = has_text(b, "localStorage");
    let start_call = has_text(b, ".start()");
    let start_open = has_text(b, ".start(");
    let activation = has_text(b, "user activation");
    let click = has_text(b, "click");
    let listener = has_text(b, "addEventListener");
    let display_media = has_text(b, "getDisplayMedia");
    let session_storage = has_text(b, "sessionStorage");
    let indexed_db = has_text(b, "indexedDB");
    let presentation_id = has_text(b, "presentation.id");
    let visibility = has_text(b, "visibilityState");
    let hidden = has_text(b, "hidden");
    let channel = has_text(b, "MessageChannel");
    let availability = has_text(b, "getAvailability");
    let monitor = has_text(b, "monitor");
    let send_script_double = has_text(b, "send(\"<script");
    let send_script_single = has_text(b, "send('<script");
    let send_payload = has_text(b, "send(payload");
    let script_double = has_text(b, "\"<script");
    let script_single = has_text(b, "'<script");
    let conn_send = connection_send || conn_send_short;
    assert(issues@ =~= Seq::<PresentationSecurityIssue>::empty());
    push_if(&mut issues, (fetch || beacon || xhr) && conn_send, PresentationSecurityIssue::PresentationDataExfiltration);
    push_if(&mut issues, post_message && connection, PresentationSecurityIssue::PresentationCrossOrigin);
    push_if(&mut issues, conn_id && local_storage, PresentationSecurityIssue::PresentationSessionHijack);
    push_if(
        &mut issues,
        request && (start_call || start_open) && !activation && !click && !listener,
        PresentationSecurityIssue::PresentationWithoutConsent,
    );
    push_if(&mut issues, display_media && request, PresentationSecurityIssue::PresentationScreenCapture);
    push_if(
        &mut issues,
        (session_storage || indexed_db) && (conn_id || presentation_id),
        PresentationSecurityIssue::PresentationPersistence,
    );
    push_if(&mut issues, visibility && hidden && connection, PresentationSecurityIssue::PresentationInBackground);
    push_if(&mut issues, channel && connection, PresentationSecurityIssue::PresentationChannelAbuse);
    push_if(&mut issues, availability && monitor, PresentationSecurityIssue::PresentationDeviceEnumeration);
    push_if(
        &mut issues,
        conn_send && ((send_script_double || send_script_single) || (send_payload && script_double)
            || (send_payload && script_single)),
        PresentationSecurityIssue::PresentationContentInjection,
    );
    issues
}

} // verus!
