//! Picture-in-Picture API usage in page bodies.
use vstd::prelude::*;
use crate::text::{chars_of, has_text, has_substr, emit_if, push_if};

verus! {

#[derive(Debug, Clone, Copy, PartialEq, Eq, Structural)]
pub enum PipIssue {
    PipRequested,
    DocumentPip,
    AutoPipAttribute,
    PipWindowAccess,
    OverlayAttack,
    NoUserActivation,
}

impl PipIssue {
    /// The issue's short machine-readable label.
    pub fn to_string(&self) -> (s: String)
        ensures s@ == self.label(),
    {
        match self {
            PipIssue::PipRequested => String::from_str("pip_requested"),
            PipIssue::DocumentPip => String::from_str("document_pip"),
            PipIssue::AutoPipAttribute => String::from_str("auto_pip_attribute"),
            PipIssue::PipWindowAccess => String::from_str("pip_window_access"),
            PipIssue::OverlayAttack => String::from_str("overlay_attack"),
            PipIssue::NoUserActivation => String::from_str("no_user_activation"),
        }
    }

    pub open spec fn label(self) -> Seq<char> {
        match self {
            PipIssue::PipRequested => "pip_requested"@,
            PipIssue::DocumentPip => "document_pip"@,
            PipIssue::AutoPipAttribute => "auto_pip_attribute"@,
            PipIssue::PipWindowAccess => "pip_window_access"@,
            PipIssue::OverlayAttack => "overlay_attack"@,
            PipIssue::NoUserActivation => "no_user_activation"@,
        }
    }
}

/// The issues that `analyze_pip` reports for a page body, in report order.
pub open spec fn pip_issues(b: Seq<char>) -> Seq<PipIssue> {
    let req = has_substr(b, "requestPictureInPicture"@);
    let doc = has_substr(b, "documentPictureInPicture"@);
    let auto = has_substr(b, "autopictureinpicture"@);
    let has_pip = req || has_substr(b, "pictureInPictureElement"@) || doc || auto;
    if !has_pip {
        Seq::empty()
    } else {
        emit_if(req, PipIssue::PipRequested)
        + emit_if(req && !has_substr(b, "click"@) && !has_substr(b, "pointerdown"@)
            && !has_substr(b, "touchstart"@), PipIssue::NoUserActivation)
        + emit_if(doc, PipIssue::DocumentPip)
        + emit_if(doc && has_substr(b, "window"@) && has_substr(b, "document.createElement"@),
            PipIssue::OverlayAttack)
        + emit_if(auto, PipIssue::AutoPipAttribute)
        + emit_if(has_substr(b, "pictureInPictureWindow"@) || has_substr(b, "pipWindow"@),
            PipIssue::PipWindowAccess)
    }
}

pub fn analyze_pip(body: &str) -> (issues: Vec<PipIssue>)
    ensures issues@ == pip_issues(body@),
{
    let chars = chars_of(body);
    let b = chars.as_slice();
    let req = has_text(b, "requestPictureInPicture");
    let doc = has_text(b, "documentPictureInPicture");
    let auto = has_text(b, "autopictureinpicture");
    let has_pip = req || has_text(b, "pictureInPictureElement") || doc || auto;
    let mut issues: Vec<PipIssue> = Vec::new();
    if !has_pip {
        return issues;
    }
    if req {
        issues.push(PipIssue::PipRequested);
        if !has_text(b, "click") && !has_text(b, "pointerdown") && !has_text(b, "touchstart") {
            issues.push(PipIssue::NoUserActivation);
        }
    }
    if doc {
        issues.push(PipIssue::DocumentPip);
        if has_text(b, "window") && has_text(b, "document.createElement") {
            issues.push(PipIssue::OverlayAttack);
        }
    }
    if auto {
        issues.push(PipIssue::AutoPipAttribute);
    }
    if has_text(b, "pictureInPictureWindow") || has_text(b, "pipWindow") {
        issues.push(PipIssue::PipWindowAccess);
    }
    assert(issues@ =~= pip_issues(body@));
    issues
}

#[derive(Debug, Clone, Copy, PartialEq, Eq, Structural)]
pub enum PipSecurityIssue {
    PipWithoutUserGesture,
    DocumentPipOverlay,
    PipFormSpoofing,
    PipClickjacking,
    AutoPipWithoutConsent,
    CrossOriginPipContent,
    PersistentPipWindow,
    PipDataExfiltration,
    PipResizeManipulation,
    MediaSessionHijacking,
}

impl PipSecurityIssue {
    /// The issue's short machine-readable label.
    pub open spec fn label(self) -> Seq<char> {
        match self {
            PipSecurityIssue::PipWithoutUserGesture => "pip_without_user_gesture"@,
            PipSecurityIssue::DocumentPipOverlay => "document_pip_overlay"@,
            PipSecurityIssue::PipFormSpoofing => "pip_form_spoofing"@,
            PipSecurityIssue::PipClickjacking => "pip_clickjacking"@,
            PipSecurityIssue::AutoPipWithoutConsent => "auto_pip_without_consent"@,
            PipSecurityIssue::CrossOriginPipContent => "cross_origin_pip_content"@,
            PipSecurityIssue::PersistentPipWindow => "persistent_pip_window"@,
            PipSecurityIssue::PipDataExfiltration => "pip_data_exfiltration"@,
            PipSecurityIssue::PipResizeManipulation => "pip_resize_manipulation"@,
            PipSecurityIssue::MediaSessionHijacking => "media_session_hijacking"@,
        }
    }

    /// Renders the label.
    pub fn to_string(&self) -> (s: String)
        ensures s@ == self.label(),
    {
        match self {
            PipSecurityIssue::PipWithoutUserGesture => String::from_str("pip_without_user_gesture"),
            PipSecurityIssue::DocumentPipOverlay => String::from_str("document_pip_overlay"),
            PipSecurityIssue::PipFormSpoofing => String::from_str("pip_form_spoofing"),
            PipSecurityIssue::PipClickjacking => String::from_str("pip_clickjacking"),
            PipSecurityIssue::AutoPipWithoutConsent => String::from_str("auto_pip_without_consent"),
            PipSecurityIssue::CrossOriginPipContent => String::from_str("cross_origin_pip_content"),
            PipSecurityIssue::PersistentPipWindow => String::from_str("persistent_pip_window"),
            PipSecurityIssue::PipDataExfiltration => String::from_str("pip_data_exfiltration"),
            PipSecurityIssue::PipResizeManipulation => String::from_str("pip_resize_manipulation"),
            PipSecurityIssue::MediaSessionHijacking => String::from_str("media_session_hijacking"),
        }
    }
}

/// The page uses a Picture-in-Picture API.
pub open spec fn uses_pip(b: Seq<char>) -> bool {
    has_substr(b, "requestPictureInPicture"@) || has_substr(b, "pictureInPictureElement"@)
        || has_substr(b, "documentPictureInPicture"@) || has_substr(b, "autopictureinpicture"@)
        || has_substr(b, "pictureInPictureWindow"@)
}

/// The issues that `analyze_pip_security` reports for a page body, in report order.
pub open spec fn pip_security_issues(b: Seq<char>) -> Seq<PipSecurityIssue> {
    let req = has_substr(b, "requestPictureInPicture"@);
    let doc = has_substr(b, "documentPictureInPicture"@);
    let win = has_substr(b, "pictureInPictureWindow"@);
    let auto = has_substr(b, "autopictureinpicture"@);
    if !uses_pip(b) {
        Seq::empty()
    } else {
        emit_if(req && !has_substr(b, "click"@) && !has_substr(b, "pointerdown"@)
            && !has_substr(b, "touchstart"@) && !has_substr(b, "mousedown"@),
            PipSecurityIssue::PipWithoutUserGesture)
        + emit_if(doc && has_substr(b, "createElement"@), PipSecurityIssue::DocumentPipOverlay)
        + emit_if((doc || win) && has_substr(b, "<input"@), PipSecurityIssue::PipFormSpoofing)
        + emit_if((doc || win) && (has_substr(b, "position"@) || has_substr(b, "moveTo"@)
            || has_substr(b, "resizeTo"@)), PipSecurityIssue::PipClickjacking)
        + emit_if(auto && !has_substr(b, "user"@) && !has_substr(b, "consent"@)
            && !has_substr(b, "permission"@), PipSecurityIssue::AutoPipWithoutConsent)
        + emit_if(doc && has_substr(b, "iframe"@) && (has_substr(b, "https://"@) || has_substr(b, "http://"@)),
            PipSecurityIssue::CrossOriginPipContent)
        + emit_if(has_substr(b, "setInterval"@) || has_substr(b, "while(true)"@) || has_substr(b, "for(;;)"@),
            PipSecurityIssue::PersistentPipWindow)
        + emit_if(has_substr(b, "fetch("@) || has_substr(b, "XMLHttpRequest"@) || has_substr(b, "sendBeacon"@),
            PipSecurityIssue::PipDataExfiltration)
        + emit_if(has_substr(b, ".resize("@) || (has_substr(b, ".width"@) && has_substr(b, ".height"@)),
            PipSecurityIssue::PipResizeManipulation)
        + emit_if(has_substr(b, "mediaSession"@), PipSecurityIssue::MediaSessionHijacking)
    }
}

/// Security issues of Picture-in-Picture use: requests outside a user
/// gesture, overlays and spoofed forms in PiP windows, window positioning,
/// automatic PiP without consent, cross-origin content, persistent windows,
/// network calls, resizing and media-session takeover.
pub fn analyze_pip_security(body: &str) -> (issues: Vec<PipSecurityIssue>)
    ensures
        issues@ == pip_security_issues(body@),
{
    let chars = chars_of(body);
    let b = chars.as_slice();
    let req = has_text(b, "requestPictureInPicture");
    let doc = has_text(b, "documentPictureInPicture");
    let win = has_text(b, "pictureInPictureWindow");
    let auto = has_text(b, "autopictureinpicture");
    let elem = has_text(b, "pictureInPictureElement");
    let mut issues: Vec<PipSecurityIssue> = Vec::new();
    if !(req || elem || doc || auto || win) {
        assert(issues@ =~= pip_security_issues(body@));
        return issues;
    }
    let gesture = has_text(b, "click") || has_text(b, "pointerdown") || has_text(b, "touchstart")
        || has_text(b, "mousedown");
    let create = has_text(b, "createElement");
    let input = has_text(b, "<input");
    let positioning = has_text(b, "position") || has_text(b, "moveTo") || has_text(b, "resizeTo");
    let consent = has_text(b, "user") || has_text(b, "consent") || has_text(b, "permission");
    let cross = has_text(b, "iframe") && (has_text(b, "https://") || has_text(b, "http://"));
    let persistent = has_text(b, "setInterval") || has_text(b, "while(true)") || has_text(b, "for(;;)");
    let network = has_text(b, "fetch(") || has_text(b, "XMLHttpRequest") || has_text(b, "sendBeacon");
    let resize = has_text(b, ".resize(") || (has_text(b, ".width") && has_text(b, ".height"));
    let media = has_text(b, "mediaSession");
    push_if(&mut issues, req && !gesture, PipSecurityIssue::PipWithoutUserGesture);
    push_if(&mut issues, doc && create, PipSecurityIssue::DocumentPipOverlay);
    push_if(&mut issues, (doc || win) && input, PipSecurityIssue::PipFormSpoofing);
    push_if(&mut issues, (doc || win) && positioning, PipSecurityIssue::PipClickjacking);
    push_if(&mut issues, auto && !consent, PipSecurityIssue::AutoPipWithoutConsent);
    push_if(&mut issues, doc && cross, PipSecurityIssue::CrossOriginPipContent);
    push_if(&mut issues, persistent, PipSecurityIssue::PersistentPipWindow);
    push_if(&mut issues, network, PipSecurityIssue::PipDataExfiltration);
    push_if(&mut issues, resize, PipSecurityIssue::PipResizeManipulation);
    push_if(&mut issues, media, PipSecurityIssue::MediaSessionHijacking);
    assert(issues@ =~= pip_security_issues(body@));
    issues
}

} // verus!
