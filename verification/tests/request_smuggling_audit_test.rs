use orchestrator::request_smuggling_audit::{analyze_request_smuggling, analyze_smuggling_headers, smuggling_probe_issues, RequestSmugglingIssue, SmugglingIssue};


#[test]
fn obfuscated_te_variant() {
    let issue = RequestSmugglingIssue::ObfuscatedTransferEncoding {
        variant: "chunked ".to_string(),
    };
    assert_eq!(issue.to_string(), "obfuscated_te:chunked ");
}

#[test]
fn proxy_header_manipulation() {
    let issue = RequestSmugglingIssue::ProxyHeaderManipulation {
        header: "X-Forwarded-For".to_string(),
    };
    assert_eq!(
        issue.to_string(),
        "proxy_header_manipulation:X-Forwarded-For"
    );
}

#[test]
fn content_length_in_js_code() {
    let body = "xhr.setRequestHeader('Content-Length', '100');";
    let issues = analyze_request_smuggling(body);
    assert!(
        issues
            .iter()
            .any(|i| *i == RequestSmugglingIssue::ContentLengthInJsCode)
    );
}

#[test]
fn transfer_encoding_in_js_code() {
    let body = "xhr.setRequestHeader('Transfer-Encoding', 'chunked');";
    let issues = analyze_request_smuggling(body);
    assert!(
        issues
            .iter()
            .any(|i| *i == RequestSmugglingIssue::TransferEncodingInJsCode)
    );
}

#[test]
fn chunked_encoding_reference() {
    let body = "const encoding = 'chunked';";
    let issues = analyze_request_smuggling(body);
    assert!(
        issues
            .iter()
            .any(|i| *i == RequestSmugglingIssue::ChunkedEncodingReference)
    );
}

#[test]
fn h2c_upgrade_indicator() {
    let body = "Upgrade: h2c\r\nConnection: Upgrade";
    let issues = analyze_request_smuggling(body);
    assert!(
        issues
            .iter()
            .any(|i| *i == RequestSmugglingIssue::H2cUpgradeIndicator)
    );
}

#[test]
fn display_dual_content_length() {
    assert_eq!(
        RequestSmugglingIssue::DualContentLength.to_string(),
        "dual_content_length"
    );
}

#[test]
fn display_dual_transfer_encoding() {
    assert_eq!(
        RequestSmugglingIssue::DualTransferEncoding.to_string(),
        "dual_transfer_encoding"
    );
}

#[test]
fn display_te_and_cl() {
    assert_eq!(
        RequestSmugglingIssue::TransferEncodingAndContentLength.to_string(),
        "te_and_cl_both_present"
    );
}

#[test]
fn display_http2_downgrade() {
    assert_eq!(
        RequestSmugglingIssue::Http2Downgrade.to_string(),
        "http2_downgrade"
    );
}

#[test]
fn display_invalid_host() {
    assert_eq!(
        RequestSmugglingIssue::InvalidHostAccepted.to_string(),
        "invalid_host_accepted"
    );
}

#[test]
fn display_connection_upgrade() {
    assert_eq!(
        RequestSmugglingIssue::ConnectionUpgradePresent.to_string(),
        "connection_upgrade_present"
    );
}

#[test]
fn content_length_double_quote() {
    let body = r#"xhr.setRequestHeader("Content-Length", "100");"#;
    let issues = analyze_request_smuggling(body);
    assert!(
        issues
            .iter()
            .any(|i| *i == RequestSmugglingIssue::ContentLengthInJsCode)
    );
}

#[test]
fn transfer_encoding_property() {
    let body = "request.transferEncoding = 'chunked';";
    let issues = analyze_request_smuggling(body);
    assert!(
        issues
            .iter()
            .any(|i| *i == RequestSmugglingIssue::TransferEncodingInJsCode)
    );
}

#[test]
fn h2c_in_protocol_field() {
    let body = "const protocol: 'h2c'";
    let issues = analyze_request_smuggling(body);
    assert!(
        issues
            .iter()
            .any(|i| *i == RequestSmugglingIssue::H2cUpgradeIndicator)
    );
}

#[test]
fn http2_protocol_indicator() {
    let body = "supports HTTP/2 protocol";
    let issues = analyze_request_smuggling(body);
    assert!(
        issues
            .iter()
            .any(|i| *i == RequestSmugglingIssue::H2cUpgradeIndicator)
    );
}

#[test]
fn clean_body_no_issues() {
    let body = "<!DOCTYPE html><html><body>Hello World</body></html>";
    let issues = analyze_request_smuggling(body);
    assert!(issues.is_empty());
}

#[test]
fn multiple_patterns_detected() {
    let body = r#"
        xhr.setRequestHeader('Content-Length', '100');
        xhr.setRequestHeader('Transfer-Encoding', 'chunked');
        protocol: 'h2c'
    "#;
    let issues = analyze_request_smuggling(body);
    assert!(issues.len() >= 3);
}

#[test]
fn clean_response_has_no_issues() {
    assert!(analyze_smuggling_headers(false, true, &["chunked"], false).is_empty());
}

#[test]
fn te_and_cl_together_reported_first() {
    let issues = analyze_smuggling_headers(true, true, &["chunked"], false);
    assert_eq!(issues, vec![SmugglingIssue::TransferEncodingAndContentLength]);
}

#[test]
fn two_codings_reported_as_dual() {
    let issues = analyze_smuggling_headers(true, false, &["chunked", "gzip"], false);
    assert_eq!(issues, vec![SmugglingIssue::DualTransferEncoding]);
}

#[test]
fn unknown_coding_reported_with_its_text() {
    let issues = analyze_smuggling_headers(true, false, &["chunked "], false);
    assert_eq!(
        issues,
        vec![SmugglingIssue::ObfuscatedTransferEncoding { variant: "chunked ".to_string() }]
    );
}

#[test]
fn every_issue_in_report_order() {
    let issues = analyze_smuggling_headers(true, true, &["xchunked", "identity", "Chunked"], true);
    assert_eq!(
        issues,
        vec![
            SmugglingIssue::TransferEncodingAndContentLength,
            SmugglingIssue::DualTransferEncoding,
            SmugglingIssue::ObfuscatedTransferEncoding { variant: "xchunked".to_string() },
            SmugglingIssue::ObfuscatedTransferEncoding { variant: "Chunked".to_string() },
            SmugglingIssue::Http11WithoutHostValidation,
        ]
    );
}

#[test]
fn display_labels() {
    assert_eq!(SmugglingIssue::DualTransferEncoding.to_string(), "dual_transfer_encoding");
    assert_eq!(SmugglingIssue::TransferEncodingAndContentLength.to_string(), "te_and_cl_both_present");
    assert_eq!(
        SmugglingIssue::ObfuscatedTransferEncoding { variant: "chunked ".to_string() }.to_string(),
        "obfuscated_te:chunked "
    );
    assert_eq!(SmugglingIssue::Http11WithoutHostValidation.to_string(), "http11_no_host_validation");
}


#[test]
fn smuggling_probe_issues_reports_both_probes() {
    let issues = smuggling_probe_issues(Some(("chunked", "0")), Some(200));
    assert_eq!(
        issues,
        vec![
            SmugglingIssue::TransferEncodingAndContentLength,
            SmugglingIssue::Http11WithoutHostValidation,
        ]
    );
}

#[test]
fn smuggling_probe_issues_needs_both_headers_and_a_success() {
    assert!(smuggling_probe_issues(Some(("chunked", "")), Some(400)).is_empty());
    assert!(smuggling_probe_issues(None, None).is_empty());
    assert!(smuggling_probe_issues(Some(("", "12")), Some(302)).is_empty());
}
