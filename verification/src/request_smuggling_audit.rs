//! Signs of HTTP request smuggling in how a server treats framing headers.
use vstd::prelude::*;
use crate::text::{chars_of, emit_if, eq_text, has_substr, has_text, lower, lower_chars, push_str, string_of};

verus! {

#[derive(Debug, Clone, PartialEq)]
pub enum SmugglingIssue {
    DualTransferEncoding,
    TransferEncodingAndContentLength,
    ObfuscatedTransferEncoding { variant: String },
    Http11WithoutHostValidation,
}

/// A `SmugglingIssue` with its text field as a character sequence.
pub enum SmugglingIssueModel {
    DualTransferEncoding,
    TransferEncodingAndContentLength,
    ObfuscatedTransferEncoding { variant: Seq<char> },
    Http11WithoutHostValidation,
}

impl View for SmugglingIssue {
    type V = SmugglingIssueModel;

    open spec fn view(&self) -> SmugglingIssueModel {
        match self {
            SmugglingIssue::DualTransferEncoding => SmugglingIssueModel::DualTransferEncoding,
            SmugglingIssue::TransferEncodingAndContentLength => SmugglingIssueModel::TransferEncodingAndContentLength,
            SmugglingIssue::ObfuscatedTransferEncoding { variant } => SmugglingIssueModel::ObfuscatedTransferEncoding {
                variant: variant@,
            },
            SmugglingIssue::Http11WithoutHostValidation => SmugglingIssueModel::Http11WithoutHostValidation,
        }
    }
}

pub open spec fn smuggling_views(v: Seq<SmugglingIssue>) -> Seq<SmugglingIssueModel> {
    v.map_values(|i: SmugglingIssue| i@)
}

/// What the two live probes show: a response to the chunked probe that
/// carries both a transfer coding and a content length, and a success
/// (2xx) status for a request with a host the server cannot serve. `first`
/// holds the two header values of the first probe's response (empty where
/// absent), `None` where the probe got no response; `second_status` the
/// status of the second probe's response.
pub open spec fn probe_issues(first: Option<(Seq<char>, Seq<char>)>, second_status: Option<u16>) -> Seq<SmugglingIssueModel> {
    (if first matches Some((te, cl)) && te.len() > 0 && cl.len() > 0 {
        seq![SmugglingIssueModel::TransferEncodingAndContentLength]
    } else {
        Seq::empty()
    }) + (if second_status matches Some(st) && 200 <= st < 300 {
        seq![SmugglingIssueModel::Http11WithoutHostValidation]
    } else {
        Seq::empty()
    })
}

/// Classifies what the two live smuggling probes got back.
pub fn smuggling_probe_issues(first: Option<(&str, &str)>, second_status: Option<u16>) -> (issues: Vec<SmugglingIssue>)
    ensures
        smuggling_views(issues@) == probe_issues(
            match first {
                Some((te, cl)) => Some((te@, cl@)),
                None => None,
            },
            second_status,
        ),
{
    let mut issues: Vec<SmugglingIssue> = Vec::new();
    match first {
        Some((te, cl)) => {
            if !te.is_empty() && !cl.is_empty() {
                issues.push(SmugglingIssue::TransferEncodingAndContentLength);
            }
        },
        None => {},
    }
    let ghost mid = issues@;
    match second_status {
        Some(st) => {
            if 200 <= st && st < 300 {
                issues.push(SmugglingIssue::Http11WithoutHostValidation);
            }
        },
        None => {},
    }
    assert(smuggling_views(issues@) =~= probe_issues(
        match first {
            Some((te, cl)) => Some((te@, cl@)),
            None => None,
        },
        second_status,
    ));
    issues
}

/// A transfer coding that HTTP/1.1 defines.
pub open spec fn valid_transfer_encoding(te: Seq<char>) -> bool {
    te == "chunked"@ || te == "identity"@ || te == "gzip"@ || te == "compress"@ || te == "deflate"@
}

/// One `ObfuscatedTransferEncoding` for each of the first `k` values that
/// is not a defined coding, in order.
pub open spec fn obfuscated_issues(values: Seq<&str>, k: int) -> Seq<SmugglingIssueModel>
    decreases k,
{
    if k <= 0 {
        Seq::empty()
    } else {
        obfuscated_issues(values, k - 1) + emit_if(
            !valid_transfer_encoding(values[k - 1]@),
            SmugglingIssueModel::ObfuscatedTransferEncoding { variant: values[k - 1]@ },
        )
    }
}

/// What `analyze_smuggling_headers` reports, in order.
pub open spec fn smuggling_issues(has_te: bool, has_cl: bool, te_values: Seq<&str>, accepts_invalid_host: bool) -> Seq<
    SmugglingIssueModel,
> {
    emit_if(has_te && has_cl, SmugglingIssueModel::TransferEncodingAndContentLength) + emit_if(
        te_values.len() > 1,
        SmugglingIssueModel::DualTransferEncoding,
    ) + obfuscated_issues(te_values, te_values.len() as int) + emit_if(
        accepts_invalid_host,
        SmugglingIssueModel::Http11WithoutHostValidation,
    )
}

fn push_issue(v: &mut Vec<SmugglingIssue>, x: SmugglingIssue)
    ensures
        smuggling_views(final(v)@) == smuggling_views(old(v)@).push(x@),
{
    v.push(x);
    assert(smuggling_views(v@) =~= smuggling_views(old(v)@).push(x@));
}

fn valid_transfer_encoding_exec(te: &str) -> (r: bool)
    ensures
        r == valid_transfer_encoding(te@),
{
    let c = chars_of(te);
    let t = c.as_slice();
    eq_text(t, "chunked") || eq_text(t, "identity") || eq_text(t, "gzip") || eq_text(t, "compress")
        || eq_text(t, "deflate")
}

/// Classifies what probing the framing headers observed: both
/// `Transfer-Encoding` and `Content-Length`, several transfer codings, a
/// coding that is not defined, and a response to a forged `Host`.
pub fn analyze_smuggling_headers(
    has_te: bool,
    has_cl: bool,
    te_values: &[&str],
    accepts_invalid_host: bool,
) -> (issues: Vec<SmugglingIssue>)
    ensures
        smuggling_views(issues@) == smuggling_issues(has_te, has_cl, te_values@, accepts_invalid_host),
{
    let mut issues: Vec<SmugglingIssue> = Vec::new();
    if has_te && has_cl {
        push_issue(&mut issues, SmugglingIssue::TransferEncodingAndContentLength);
    }
    if te_values.len() > 1 {
        push_issue(&mut issues, SmugglingIssue::DualTransferEncoding);
    }
    let ghost prefix = smuggling_views(issues@);
    let mut i: usize = 0;
    while i < te_values.len()
        invariant
            i <= te_values@.len(),
            smuggling_views(issues@) == prefix + obfuscated_issues(te_values@, i as int),
        decreases te_values.len() - i,
    {
        let te = te_values[i];
        if !valid_transfer_encoding_exec(te) {
            let variant = string_of(chars_of(te).as_slice());
            push_issue(&mut issues, SmugglingIssue::ObfuscatedTransferEncoding { variant });
        }
        i += 1;
        assert(smuggling_views(issues@) =~= prefix + obfuscated_issues(te_values@, i as int));
    }
    if accepts_invalid_host {
        push_issue(&mut issues, SmugglingIssue::Http11WithoutHostValidation);
    }
    assert(smuggling_views(issues@) =~= smuggling_issues(has_te, has_cl, te_values@, accepts_invalid_host));
    issues
}

impl SmugglingIssueModel {
    /// The issue's description.
    pub open spec fn message(self) -> Seq<char> {
        match self {
            SmugglingIssueModel::DualTransferEncoding => "dual_transfer_encoding"@,
            SmugglingIssueModel::TransferEncodingAndContentLength => "te_and_cl_both_present"@,
            SmugglingIssueModel::ObfuscatedTransferEncoding { variant } => "obfuscated_te:"@ + variant,
            SmugglingIssueModel::Http11WithoutHostValidation => "http11_no_host_validation"@,
        }
    }
}

impl SmugglingIssue {
    /// Renders the issue's description.
    pub fn to_string(&self) -> (s: String)
        ensures
            s@ == self@.message(),
    {
        let mut out: Vec<char> = Vec::new();
        match self {
            SmugglingIssue::DualTransferEncoding => push_str(&mut out, "dual_transfer_encoding"),
            SmugglingIssue::TransferEncodingAndContentLength => push_str(&mut out, "te_and_cl_both_present"),
            SmugglingIssue::ObfuscatedTransferEncoding { variant } => {
                push_str(&mut out, "obfuscated_te:");
                push_str(&mut out, variant.as_str());
            },
            SmugglingIssue::Http11WithoutHostValidation => push_str(&mut out, "http11_no_host_validation"),
        }
        string_of(out.as_slice())
    }
}

/// Smuggling indicators, from probing a server and from reading the
/// scripts of its pages.
#[derive(Debug, Clone, PartialEq)]
pub enum RequestSmugglingIssue {
    DualContentLength,
    DualTransferEncoding,
    TransferEncodingAndContentLength,
    ObfuscatedTransferEncoding { variant: String },
    Http2Downgrade,
    InvalidHostAccepted,
    ConnectionUpgradePresent,
    ProxyHeaderManipulation { header: String },
    ContentLengthInJsCode,
    TransferEncodingInJsCode,
    ChunkedEncodingReference,
    H2cUpgradeIndicator,
    FrontendBackendDesync,
    WebsocketUpgradeVulnerable,
}

/// A `RequestSmugglingIssue` with its text fields as character sequences.
pub enum RequestSmugglingIssueModel {
    DualContentLength,
    DualTransferEncoding,
    TransferEncodingAndContentLength,
    ObfuscatedTransferEncoding { variant: Seq<char> },
    Http2Downgrade,
    InvalidHostAccepted,
    ConnectionUpgradePresent,
    ProxyHeaderManipulation { header: Seq<char> },
    ContentLengthInJsCode,
    TransferEncodingInJsCode,
    ChunkedEncodingReference,
    H2cUpgradeIndicator,
    FrontendBackendDesync,
    WebsocketUpgradeVulnerable,
}

impl View for RequestSmugglingIssue {
    type V = RequestSmugglingIssueModel;

    open spec fn view(&self) -> RequestSmugglingIssueModel {
        match self {
            RequestSmugglingIssue::DualContentLength => RequestSmugglingIssueModel::DualContentLength,
            RequestSmugglingIssue::DualTransferEncoding => RequestSmugglingIssueModel::DualTransferEncoding,
            RequestSmugglingIssue::TransferEncodingAndContentLength => {
                RequestSmugglingIssueModel::TransferEncodingAndContentLength
            },
            RequestSmugglingIssue::ObfuscatedTransferEncoding { variant } => {
                RequestSmugglingIssueModel::ObfuscatedTransferEncoding { variant: variant@ }
            },
            RequestSmugglingIssue::Http2Downgrade => RequestSmugglingIssueModel::Http2Downgrade,
            RequestSmugglingIssue::InvalidHostAccepted => RequestSmugglingIssueModel::InvalidHostAccepted,
            RequestSmugglingIssue::ConnectionUpgradePresent => RequestSmugglingIssueModel::ConnectionUpgradePresent,
            RequestSmugglingIssue::ProxyHeaderManipulation { header } => {
                RequestSmugglingIssueModel::ProxyHeaderManipulation { header: header@ }
            },
            RequestSmugglingIssue::ContentLengthInJsCode => RequestSmugglingIssueModel::ContentLengthInJsCode,
            RequestSmugglingIssue::TransferEncodingInJsCode => RequestSmugglingIssueModel::TransferEncodingInJsCode,
            RequestSmugglingIssue::ChunkedEncodingReference => RequestSmugglingIssueModel::ChunkedEncodingReference,
            RequestSmugglingIssue::H2cUpgradeIndicator => RequestSmugglingIssueModel::H2cUpgradeIndicator,
            RequestSmugglingIssue::FrontendBackendDesync => RequestSmugglingIssueModel::FrontendBackendDesync,
            RequestSmugglingIssue::WebsocketUpgradeVulnerable => {
                RequestSmugglingIssueModel::WebsocketUpgradeVulnerable
            },
        }
    }
}

impl RequestSmugglingIssueModel {
    /// The issue's label.
    pub open spec fn message(self) -> Seq<char> {
        match self {
            RequestSmugglingIssueModel::DualContentLength => "dual_content_length"@,
            RequestSmugglingIssueModel::DualTransferEncoding => "dual_transfer_encoding"@,
            RequestSmugglingIssueModel::TransferEncodingAndContentLength => "te_and_cl_both_present"@,
            RequestSmugglingIssueModel::ObfuscatedTransferEncoding { variant } => "obfuscated_te:"@ + variant,
            RequestSmugglingIssueModel::Http2Downgrade => "http2_downgrade"@,
            RequestSmugglingIssueModel::InvalidHostAccepted => "invalid_host_accepted"@,
            RequestSmugglingIssueModel::ConnectionUpgradePresent => "connection_upgrade_present"@,
            RequestSmugglingIssueModel::ProxyHeaderManipulation { header } => "proxy_header_manipulation:"@ + header,
            RequestSmugglingIssueModel::ContentLengthInJsCode => "content_length_in_js_code"@,
            RequestSmugglingIssueModel::TransferEncodingInJsCode => "transfer_encoding_in_js_code"@,
            RequestSmugglingIssueModel::ChunkedEncodingReference => "chunked_encoding_reference"@,
            RequestSmugglingIssueModel::H2cUpgradeIndicator => "h2c_upgrade_indicator"@,
            RequestSmugglingIssueModel::FrontendBackendDesync => "frontend_backend_desync"@,
            RequestSmugglingIssueModel::WebsocketUpgradeVulnerable => "websocket_upgrade_vulnerable"@,
        }
    }
}

impl RequestSmugglingIssue {
    /// Renders the issue's label.
    pub fn to_string(&self) -> (s: String)
        ensures
            s@ == self@.message(),
    {
        let mut out: Vec<char> = Vec::new();
        match self {
            RequestSmugglingIssue::DualContentLength => push_str(&mut out, "dual_content_length"),
            RequestSmugglingIssue::DualTransferEncoding => push_str(&mut out, "dual_transfer_encoding"),
            RequestSmugglingIssue::TransferEncodingAndContentLength => push_str(&mut out, "te_and_cl_both_present"),
            RequestSmugglingIssue::ObfuscatedTransferEncoding { variant } => {
                push_str(&mut out, "obfuscated_te:");
                push_str(&mut out, variant.as_str());
            },
            RequestSmugglingIssue::Http2Downgrade => push_str(&mut out, "http2_downgrade"),
            RequestSmugglingIssue::InvalidHostAccepted => push_str(&mut out, "invalid_host_accepted"),
            RequestSmugglingIssue::ConnectionUpgradePresent => push_str(&mut out, "connection_upgrade_present"),
            RequestSmugglingIssue::ProxyHeaderManipulation { header } => {
                push_str(&mut out, "proxy_header_manipulation:");
                push_str(&mut out, header.as_str());
            },
            RequestSmugglingIssue::ContentLengthInJsCode => push_str(&mut out, "content_length_in_js_code"),
            RequestSmugglingIssue::TransferEncodingInJsCode => push_str(&mut out, "transfer_encoding_in_js_code"),
            RequestSmugglingIssue::ChunkedEncodingReference => push_str(&mut out, "chunked_encoding_reference"),
            RequestSmugglingIssue::H2cUpgradeIndicator => push_str(&mut out, "h2c_upgrade_indicator"),
            RequestSmugglingIssue::FrontendBackendDesync => push_str(&mut out, "frontend_backend_desync"),
            RequestSmugglingIssue::WebsocketUpgradeVulnerable => push_str(&mut out, "websocket_upgrade_vulnerable"),
        }
        string_of(out.as_slice())
    }
}

/// What the scripts of a page give away, ignoring ASCII case, in order: a
/// `Content-Length` header set by script, a `Transfer-Encoding` header or
/// property, the `chunked` coding, and HTTP/2 cleartext upgrades.
pub open spec fn script_smuggling_issues(body: Seq<char>) -> Seq<RequestSmugglingIssue> {
    let l = lower(body);
    emit_if(has_substr(l, "content-length"@), RequestSmugglingIssue::ContentLengthInJsCode) + emit_if(
        has_substr(l, "transfer-encoding"@) || has_substr(l, "transferencoding"@),
        RequestSmugglingIssue::TransferEncodingInJsCode,
    ) + emit_if(has_substr(l, "chunked"@), RequestSmugglingIssue::ChunkedEncodingReference) + emit_if(
        has_substr(l, "h2c"@) || has_substr(l, "http/2"@),
        RequestSmugglingIssue::H2cUpgradeIndicator,
    )
}

/// Reads the smuggling indicators in a page body.
pub fn analyze_request_smuggling(body: &str) -> (issues: Vec<RequestSmugglingIssue>)
    ensures
        issues@ == script_smuggling_issues(body@),
{
    let b = chars_of(body);
    let l = lower_chars(b.as_slice());
    let mut issues: Vec<RequestSmugglingIssue> = Vec::new();
    if has_text(l.as_slice(), "content-length") {
        issues.push(RequestSmugglingIssue::ContentLengthInJsCode);
    }
    if has_text(l.as_slice(), "transfer-encoding") || has_text(l.as_slice(), "transferencoding") {
        issues.push(RequestSmugglingIssue::TransferEncodingInJsCode);
    }
    if has_text(l.as_slice(), "chunked") {
        issues.push(RequestSmugglingIssue::ChunkedEncodingReference);
    }
    if has_text(l.as_slice(), "h2c") || has_text(l.as_slice(), "http/2") {
        issues.push(RequestSmugglingIssue::H2cUpgradeIndicator);
    }
    assert(issues@ =~= script_smuggling_issues(body@));
    issues
}

} // verus!
