//! ResizeObserver usage in page bodies.
use vstd::prelude::*;
use crate::text::{chars_of, has_text, has_substr, emit_if, push_if, count_matches, match_count};

verus! {

#[derive(Debug, Clone, Copy, PartialEq, Eq, Structural)]
pub enum ResizeObserverIssue {
    ObserverDetected,
    ContentRectAccess,
    BorderBoxSize,
    MultipleTargets,
    DataExfiltration,
    ContinuousTracking,
    CrossOriginResizeTracking,
    ResizeFingerprinting,
    ResizeBasedLayoutDetection,
    ResizeInWorker,
    ResizeWithIntersectionObserver,
    ResizeToLocalStorage,
    ResizeTimingAttack,
    ResizeCrossTabCommunication,
    ResizeBasedKeylogging,
    ResizeWithoutThrottling,
}

impl ResizeObserverIssue {
    /// The issue's short machine-readable label.
    pub open spec fn label(self) -> Seq<char> {
        match self {
            ResizeObserverIssue::ObserverDetected => "observer_detected"@,
            ResizeObserverIssue::ContentRectAccess => "content_rect_access"@,
            ResizeObserverIssue::BorderBoxSize => "border_box_size"@,
            ResizeObserverIssue::MultipleTargets => "multiple_targets"@,
            ResizeObserverIssue::DataExfiltration => "data_exfiltration"@,
            ResizeObserverIssue::ContinuousTracking => "continuous_tracking"@,
            ResizeObserverIssue::CrossOriginResizeTracking => "cross_origin_resize_tracking"@,
            ResizeObserverIssue::ResizeFingerprinting => "resize_fingerprinting"@,
            ResizeObserverIssue::ResizeBasedLayoutDetection => "resize_based_layout_detection"@,
            ResizeObserverIssue::ResizeInWorker => "resize_in_worker"@,
            ResizeObserverIssue::ResizeWithIntersectionObserver => "resize_with_intersection_observer"@,
            ResizeObserverIssue::ResizeToLocalStorage => "resize_to_local_storage"@,
            ResizeObserverIssue::ResizeTimingAttack => "resize_timing_attack"@,
            ResizeObserverIssue::ResizeCrossTabCommunication => "resize_cross_tab_communication"@,
            ResizeObserverIssue::ResizeBasedKeylogging => "resize_based_keylogging"@,
            ResizeObserverIssue::ResizeWithoutThrottling => "resize_without_throttling"@,
        }
    }

    /// Renders the label.
    pub fn to_string(&self) -> (s: String)
        ensures s@ == self.label(),
    {
        match self {
            ResizeObserverIssue::ObserverDetected => String::from_str("observer_detected"),
            ResizeObserverIssue::ContentRectAccess => String::from_str("content_rect_access"),
            ResizeObserverIssue::BorderBoxSize => String::from_str("border_box_size"),
            ResizeObserverIssue::MultipleTargets => String::from_str("multiple_targets"),
            ResizeObserverIssue::DataExfiltration => String::from_str("data_exfiltration"),
            ResizeObserverIssue::ContinuousTracking => String::from_str("continuous_tracking"),
            ResizeObserverIssue::CrossOriginResizeTracking => String::from_str("cross_origin_resize_tracking"),
            ResizeObserverIssue::ResizeFingerprinting => String::from_str("resize_fingerprinting"),
            ResizeObserverIssue::ResizeBasedLayoutDetection => String::from_str("resize_based_layout_detection"),
            ResizeObserverIssue::ResizeInWorker => String::from_str("resize_in_worker"),
            ResizeObserverIssue::ResizeWithIntersectionObserver => String::from_str("resize_with_intersection_observer"),
            ResizeObserverIssue::ResizeToLocalStorage => String::from_str("resize_to_local_storage"),
            ResizeObserverIssue::ResizeTimingAttack => String::from_str("resize_timing_attack"),
            ResizeObserverIssue::ResizeCrossTabCommunication => String::from_str("resize_cross_tab_communication"),
            ResizeObserverIssue::ResizeBasedKeylogging => String::from_str("resize_based_keylogging"),
            ResizeObserverIssue::ResizeWithoutThrottling => String::from_str("resize_without_throttling"),
        }
    }
}

/// The issues that `analyze_resize_observer` reports for a page body, in report order.
pub open spec fn resize_observer_issues(b: Seq<char>) -> Seq<ResizeObserverIssue> {
    if !has_substr(b, "ResizeObserver"@) {
        Seq::empty()
    } else {
        seq![ResizeObserverIssue::ObserverDetected]
        + emit_if(has_substr(b, "contentRect"@), ResizeObserverIssue::ContentRectAccess)
        + emit_if(has_substr(b, "borderBoxSize"@) || has_substr(b, "contentBoxSize"@)
            || has_substr(b, "devicePixelContentBoxSize"@), ResizeObserverIssue::BorderBoxSize)
        + emit_if(match_count(b, ".observe("@) > 3, ResizeObserverIssue::MultipleTargets)
        + emit_if(has_substr(b, "fetch("@) || has_substr(b, "sendBeacon"@) || has_substr(b, "XMLHttpRequest"@),
            ResizeObserverIssue::DataExfiltration)
        + emit_if(has_substr(b, "requestAnimationFrame"@) || has_substr(b, "setInterval"@),
            ResizeObserverIssue::ContinuousTracking)
    }
}

pub fn analyze_resize_observer(body: &str) -> (issues: Vec<ResizeObserverIssue>)
    ensures issues@ == resize_observer_issues(body@),
{
    let chars = chars_of(body);
    let b = chars.as_slice();
    let mut issues: Vec<ResizeObserverIssue> = Vec::new();
    if !has_text(b, "ResizeObserver") {
        return issues;
    }
    let content_rect = has_text(b, "contentRect");
    let border_box = has_text(b, "borderBoxSize");
    let content_box = has_text(b, "contentBoxSize");
    let device_box = has_text(b, "devicePixelContentBoxSize");
    proof {
        reveal_strlit(".observe(");
    }
    let observe_count = count_matches(b, ".observe(");
    let fetch = has_text(b, "fetch(");
    let beacon = has_text(b, "sendBeacon");
    let xhr = has_text(b, "XMLHttpRequest");
    let raf = has_text(b, "requestAnimationFrame");
    let interval = has_text(b, "setInterval");
    issues.push(ResizeObserverIssue::ObserverDetected);
    assert(issues@ =~= seq![ResizeObserverIssue::ObserverDetected]);
    push_if(&mut issues, content_rect, ResizeObserverIssue::ContentRectAccess);
    push_if(&mut issues, border_box || content_box || device_box, ResizeObserverIssue::BorderBoxSize);
    push_if(&mut issues, observe_count > 3, ResizeObserverIssue::MultipleTargets);
    push_if(&mut issues, fetch || beacon || xhr, ResizeObserverIssue::DataExfiltration);
    push_if(&mut issues, raf || interval, ResizeObserverIssue::ContinuousTracking);
    issues
}

/// The issues that `analyze_resize_observer_security` reports for a page body, in report order.
pub open spec fn resize_observer_security_issues(b: Seq<char>) -> Seq<ResizeObserverIssue> {
    let post = has_substr(b, "postMessage"@);
    let shared = has_substr(b, "SharedWorker"@);
    let local = has_substr(b, "localStorage"@);
    let raf = has_substr(b, "requestAnimationFrame"@);
    if !has_substr(b, "ResizeObserver"@) {
        Seq::empty()
    } else {
        emit_if(has_substr(b, "iframe"@) || has_substr(b, "cross-origin"@) || post,
            ResizeObserverIssue::CrossOriginResizeTracking)
        + emit_if(has_substr(b, "fingerprint"@) || has_substr(b, "canvas"@) || has_substr(b, "screen.width"@)
            || has_substr(b, "screen.height"@), ResizeObserverIssue::ResizeFingerprinting)
        + emit_if(has_substr(b, "innerWidth"@) || has_substr(b, "innerHeight"@) || has_substr(b, "matchMedia"@)
            || has_substr(b, "breakpoint"@), ResizeObserverIssue::ResizeBasedLayoutDetection)
        + emit_if(has_substr(b, "Worker"@) || shared || post, ResizeObserverIssue::ResizeInWorker)
        + emit_if(has_substr(b, "IntersectionObserver"@), ResizeObserverIssue::ResizeWithIntersectionObserver)
        + emit_if(local || has_substr(b, "sessionStorage"@) || has_substr(b, "indexedDB"@),
            ResizeObserverIssue::ResizeToLocalStorage)
        + emit_if(has_substr(b, "performance.now"@) || has_substr(b, "Date.now"@) || has_substr(b, "performance.mark"@),
            ResizeObserverIssue::ResizeTimingAttack)
        + emit_if(has_substr(b, "BroadcastChannel"@) || shared || local, ResizeObserverIssue::ResizeCrossTabCommunication)
        + emit_if(has_substr(b, "keydown"@) || has_substr(b, "keypress"@) || has_substr(b, "keyup"@)
            || has_substr(b, "input"@), ResizeObserverIssue::ResizeBasedKeylogging)
        + emit_if(!has_substr(b, "debounce"@) && !has_substr(b, "throttle"@) && !raf && !has_substr(b, "setTimeout"@),
            ResizeObserverIssue::ResizeWithoutThrottling)
    }
}

pub fn analyze_resize_observer_security(body: &str) -> (issues: Vec<ResizeObserverIssue>)
    ensures issues@ == resize_observer_security_issues(body@),
{
    let chars = chars_of(body);
    let b = chars.as_slice();
    let mut issues: Vec<ResizeObserverIssue> = Vec::new();
    if !has_text(b, "ResizeObserver") {
        return issues;
    }
    let post = has_text(b, "postMessage");
    let shared = has_text(b, "SharedWorker");
    let local = has_text(b, "localStorage");
    let raf = has_text(b, "requestAnimationFrame");
    let iframe = has_text(b, "iframe");
    let cross_origin = has_text(b, "cross-origin");
    let fingerprint = has_text(b, "fingerprint");
    let canvas = has_text(b, "canvas");
    let screen_width = has_text(b, "screen.width");
    let screen_height = has_text(b, "screen.height");
    let inner_width = has_text(b, "innerWidth");
    let inner_height = has_text(b, "innerHeight");
    let match_media = has_text(b, "matchMedia");
    let breakpoint = has_text(b, "breakpoint");
    let worker = has_text(b, "Worker");
    let intersection = has_text(b, "IntersectionObserver");
    let session = has_text(b, "sessionStorage");
    let indexed = has_text(b, "indexedDB");
    let perf_now = has_text(b, "performance.now");
    let date_now = has_text(b, "Date.now");
    let perf_mark = has_text(b, "performance.mark");
    let broadcast = has_text(b, "BroadcastChannel");
    let keydown = has_text(b, "keydown");
    let keypress = has_text(b, "keypress");
    let keyup = has_text(b, "keyup");
    let input = has_text(b, "input");
    let debounce = has_text(b, "debounce");
    let throttle = has_text(b, "throttle");
    let timeout = has_text(b, "setTimeout");
    assert(issues@ =~= Seq::<ResizeObserverIssue>::empty());
    push_if(&mut issues, iframe || cross_origin || post, ResizeObserverIssue::CrossOriginResizeTracking);
    push_if(&mut issues, fingerprint || canvas || screen_width || screen_height, ResizeObserverIssue::ResizeFingerprinting);
    push_if(&mut issues, inner_width || inner_height || match_media || breakpoint, ResizeObserverIssue::ResizeBasedLayoutDetection);
    push_if(&mut issues, worker || shared || post, ResizeObserverIssue::ResizeInWorker);
    push_if(&mut issues, intersection, ResizeObserverIssue::ResizeWithIntersectionObserver);
    push_if(&mut issues, local || session || indexed, ResizeObserverIssue::ResizeToLocalStorage);
    push_if(&mut issues, perf_now || date_now || perf_mark, ResizeObserverIssue::ResizeTimingAttack);
    push_if(&mut issues, broadcast || shared || local, ResizeObserverIssue::ResizeCrossTabCommunication);
    push_if(&mut issues, keydown || keypress || keyup || input, ResizeObserverIssue::ResizeBasedKeylogging);
    push_if(&mut issues, !debounce && !throttle && !raf && !timeout, ResizeObserverIssue::ResizeWithoutThrottling);
    issues
}

} // verus!
