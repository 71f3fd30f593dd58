use orchestrator::referrer_audit::{analyze_referrer_security, referrer_policy_findings_of, ReferrerIssueKind, ReferrerSecurityIssue};


#[test]
fn safe_strict_origin() {
    let issues = referrer_policy_findings_of("strict-origin");
    assert!(issues.is_empty());
}

#[test]
fn safe_no_referrer() {
    let issues = referrer_policy_findings_of("no-referrer");
    assert!(issues.is_empty());
}

#[test]
fn safe_same_origin() {
    let issues = referrer_policy_findings_of("same-origin");
    assert!(issues.is_empty());
}

#[test]
fn safe_strict_origin_when_cross_origin() {
    let issues = referrer_policy_findings_of("strict-origin-when-cross-origin");
    assert!(issues.is_empty());
}

#[test]
fn no_referrer_when_downgrade_detected() {
    let issues = referrer_policy_findings_of("no-referrer-when-downgrade");
    assert!(
        issues
            .iter()
            .any(|i| i.kind == ReferrerIssueKind::UnsafePolicy)
    );
}

#[test]
fn origin_when_cross_origin_detected() {
    let issues = referrer_policy_findings_of("origin-when-cross-origin");
    assert!(
        issues
            .iter()
            .any(|i| i.kind == ReferrerIssueKind::UnsafePolicy)
    );
}

#[test]
fn multiple_policies_flagged() {
    let issues = referrer_policy_findings_of("no-referrer, unsafe-url");
    assert!(
        issues
            .iter()
            .any(|i| i.kind == ReferrerIssueKind::MultiplePolicies)
    );
    assert!(
        issues
            .iter()
            .any(|i| i.kind == ReferrerIssueKind::UnsafePolicy)
    );
}

#[test]
fn invalid_policy_flagged() {
    let issues = referrer_policy_findings_of("not-a-real-policy");
    assert_eq!(issues.len(), 1);
    assert_eq!(issues[0].kind, ReferrerIssueKind::InvalidPolicy);
}

#[test]
fn case_insensitive() {
    let issues = referrer_policy_findings_of("Strict-Origin");
    assert!(issues.is_empty());
}

#[test]
fn whitespace_trimmed() {
    let issues = referrer_policy_findings_of("  strict-origin  ");
    assert!(issues.is_empty());
}

#[test]
fn empty_string_no_issues() {
    let issues = referrer_policy_findings_of("");
    assert!(issues.is_empty());
}

#[test]
fn referrer_audit_test_display_variants() {
    assert!(!ReferrerIssueKind::UnsafePolicy.to_string().is_empty());
    assert!(!ReferrerIssueKind::MultiplePolicies.to_string().is_empty());
    assert!(!ReferrerIssueKind::InvalidPolicy.to_string().is_empty());
}

#[test]
fn security_unsafe_url_policy_detected() {
    let html = "<html><body></body></html>";
    let issues = analyze_referrer_security(Some("unsafe-url"), html);
    assert!(issues.contains(&ReferrerSecurityIssue::UnsafeUrlPolicy));
}

#[test]
fn security_no_referrer_when_downgrade_detected() {
    let html = "<html><body></body></html>";
    let issues = analyze_referrer_security(Some("no-referrer-when-downgrade"), html);
    assert!(issues.contains(&ReferrerSecurityIssue::NoReferrerWhenDowngrade));
}

#[test]
fn security_origin_cross_origin_detected() {
    let html = "<html><body></body></html>";
    let issues = analyze_referrer_security(Some("origin-when-cross-origin"), html);
    assert!(issues.contains(&ReferrerSecurityIssue::OriginCrossOrigin));
}

#[test]
fn security_missing_referrer_policy() {
    let html = "<html><body></body></html>";
    let issues = analyze_referrer_security(None, html);
    assert!(issues.contains(&ReferrerSecurityIssue::MissingReferrerPolicy));
}

#[test]
fn security_conflicting_policies() {
    let html = r#"<html><head><meta name="referrer" content="no-referrer"></head></html>"#;
    let issues = analyze_referrer_security(Some("unsafe-url"), html);
    assert!(issues.contains(&ReferrerSecurityIssue::ConflictingPolicies));
}

#[test]
fn security_referrer_in_meta_tag() {
    let html = r#"<html><head><meta name="referrer" content="no-referrer"></head></html>"#;
    let issues = analyze_referrer_security(Some("no-referrer"), html);
    assert!(issues.contains(&ReferrerSecurityIssue::ReferrerInMetaTag));
}

#[test]
fn security_link_with_noreferrer_selective() {
    let html = r#"<html><body><a href="https://example.com" rel="noreferrer">Link1</a><a href="https://other.com">Link2</a></body></html>"#;
    let issues = analyze_referrer_security(Some("no-referrer-when-downgrade"), html);
    assert!(issues.contains(&ReferrerSecurityIssue::LinkWithNoReferrer));
}

#[test]
fn security_form_without_referrer() {
    let html = r#"<html><body><form action="/submit" method="post"></form></body></html>"#;
    let issues = analyze_referrer_security(Some("no-referrer"), html);
    assert!(issues.contains(&ReferrerSecurityIssue::FormWithoutReferrer));
}

#[test]
fn security_cross_origin_link_leak() {
    let html = r#"<html><body><a href="https://external.com">Link</a></body></html>"#;
    let issues = analyze_referrer_security(Some("unsafe-url"), html);
    assert!(issues.contains(&ReferrerSecurityIssue::CrossOriginLinkLeak));
}

#[test]
fn security_token_in_referrer() {
    let html = r#"<html><body><a href="/page?token=abc123">Link</a></body></html>"#;
    let issues = analyze_referrer_security(Some("unsafe-url"), html);
    assert!(issues.contains(&ReferrerSecurityIssue::TokenInReferrer));
}

#[test]
fn security_display_unsafe_url() {
    let msg = ReferrerSecurityIssue::UnsafeUrlPolicy.to_string();
    assert!(msg.contains("unsafe-url"));
}

#[test]
fn security_display_downgrade() {
    let msg = ReferrerSecurityIssue::NoReferrerWhenDowngrade.to_string();
    assert!(msg.contains("downgrade"));
}

#[test]
fn security_display_origin_cross() {
    let msg = ReferrerSecurityIssue::OriginCrossOrigin.to_string();
    assert!(msg.contains("origin-when-cross-origin"));
}

#[test]
fn security_display_missing() {
    let msg = ReferrerSecurityIssue::MissingReferrerPolicy.to_string();
    assert!(msg.contains("missing"));
}

#[test]
fn security_display_conflicting() {
    let msg = ReferrerSecurityIssue::ConflictingPolicies.to_string();
    assert!(msg.contains("conflict"));
}

#[test]
fn security_display_meta_tag() {
    let msg = ReferrerSecurityIssue::ReferrerInMetaTag.to_string();
    assert!(msg.contains("meta tag"));
}

#[test]
fn security_display_link_noreferrer() {
    let msg = ReferrerSecurityIssue::LinkWithNoReferrer.to_string();
    assert!(msg.contains("noreferrer"));
}

#[test]
fn security_display_form() {
    let msg = ReferrerSecurityIssue::FormWithoutReferrer.to_string();
    assert!(msg.contains("form"));
}

#[test]
fn security_display_cross_origin_leak() {
    let msg = ReferrerSecurityIssue::CrossOriginLinkLeak.to_string();
    assert!(msg.contains("external"));
}

#[test]
fn security_display_token() {
    let msg = ReferrerSecurityIssue::TokenInReferrer.to_string();
    assert!(msg.contains("token"));
}

#[test]
fn security_safe_policy_no_issues() {
    let html = "<html><body></body></html>";
    let issues = analyze_referrer_security(Some("strict-origin"), html);
    assert!(!issues.contains(&ReferrerSecurityIssue::UnsafeUrlPolicy));
    assert!(!issues.contains(&ReferrerSecurityIssue::NoReferrerWhenDowngrade));
}

#[test]
fn security_meta_policy_extraction() {
    let html = r#"<html><head><meta name="referrer" content="no-referrer"></head></html>"#;
    let issues = analyze_referrer_security(None, html);
    assert!(!issues.contains(&ReferrerSecurityIssue::MissingReferrerPolicy));
}

#[test]
fn security_multiple_forms() {
    let html = r#"<html><body><form></form><form></form></body></html>"#;
    let issues = analyze_referrer_security(Some("no-referrer"), html);
    assert!(issues.contains(&ReferrerSecurityIssue::FormWithoutReferrer));
}

#[test]
fn security_form_with_policy_attribute() {
    let html = r#"<html><body><form referrerpolicy="no-referrer"></form></body></html>"#;
    let issues = analyze_referrer_security(Some("no-referrer"), html);
    assert!(!issues.contains(&ReferrerSecurityIssue::FormWithoutReferrer));
}

#[test]
fn security_token_api_key_pattern() {
    let html = r#"<a href="/api?api_key=secret">API</a>"#;
    let issues = analyze_referrer_security(Some("unsafe-url"), html);
    assert!(issues.contains(&ReferrerSecurityIssue::TokenInReferrer));
}

#[test]
fn security_token_apikey_pattern() {
    let html = r#"<a href="/api?apikey=secret">API</a>"#;
    let issues = analyze_referrer_security(Some("unsafe-url"), html);
    assert!(issues.contains(&ReferrerSecurityIssue::TokenInReferrer));
}

#[test]
fn security_token_key_pattern() {
    let html = r#"<a href="/api?key=secret">API</a>"#;
    let issues = analyze_referrer_security(Some("unsafe-url"), html);
    assert!(issues.contains(&ReferrerSecurityIssue::TokenInReferrer));
}

#[test]
fn security_token_secret_pattern() {
    let html = r#"<a href="/api?secret=abc123">API</a>"#;
    let issues = analyze_referrer_security(Some("unsafe-url"), html);
    assert!(issues.contains(&ReferrerSecurityIssue::TokenInReferrer));
}

#[test]
fn security_token_auth_pattern() {
    let html = r#"<a href="/api?auth=token123">API</a>"#;
    let issues = analyze_referrer_security(Some("unsafe-url"), html);
    assert!(issues.contains(&ReferrerSecurityIssue::TokenInReferrer));
}

#[test]
fn security_no_external_links_no_leak() {
    let html = r#"<html><body><a href="/local">Local</a></body></html>"#;
    let issues = analyze_referrer_security(Some("unsafe-url"), html);
    assert!(!issues.contains(&ReferrerSecurityIssue::CrossOriginLinkLeak));
}

#[test]
fn security_external_link_with_safe_policy_no_leak() {
    let html = r#"<html><body><a href="https://example.com">External</a></body></html>"#;
    let issues = analyze_referrer_security(Some("no-referrer"), html);
    assert!(!issues.contains(&ReferrerSecurityIssue::CrossOriginLinkLeak));
}

#[test]
fn security_external_link_with_noreferrer_no_leak() {
    let html =
        r#"<html><body><a href="https://example.com" rel="noreferrer">External</a></body></html>"#;
    let issues = analyze_referrer_security(Some("unsafe-url"), html);
    assert!(!issues.contains(&ReferrerSecurityIssue::CrossOriginLinkLeak));
}

#[test]
fn security_case_insensitive_policy() {
    let html = "<html><body></body></html>";
    let issues = analyze_referrer_security(Some("UNSAFE-URL"), html);
    assert!(issues.contains(&ReferrerSecurityIssue::UnsafeUrlPolicy));
}

#[test]
fn security_meta_tag_case_insensitive() {
    let html = r#"<html><head><META NAME="referrer" CONTENT="no-referrer"></head></html>"#;
    let issues = analyze_referrer_security(None, html);
    assert!(!issues.contains(&ReferrerSecurityIssue::MissingReferrerPolicy));
}

#[test]
fn security_single_quote_noreferrer() {
    let html =
        r#"<html><body><a href='https://example.com' rel='noreferrer'>Link</a></body></html>"#;
    let issues = analyze_referrer_security(Some("unsafe-url"), html);
    assert!(!issues.contains(&ReferrerSecurityIssue::CrossOriginLinkLeak));
}

#[test]
fn unsafe_url_reported_with_effective_policy() {
    let findings = referrer_policy_findings_of("unsafe-url");
    assert_eq!(findings.len(), 1);
    assert_eq!(findings[0].kind, ReferrerIssueKind::UnsafePolicy);
    assert_eq!(findings[0].policy, "unsafe-url");
}

#[test]
fn last_of_several_policies_is_effective() {
    let findings = referrer_policy_findings_of("no-referrer, Origin ");
    assert_eq!(findings.len(), 2);
    assert_eq!(findings[0].kind, ReferrerIssueKind::MultiplePolicies);
    assert_eq!(findings[0].policy, "no-referrer, Origin ");
    assert_eq!(findings[1].kind, ReferrerIssueKind::UnsafePolicy);
    assert_eq!(findings[1].policy, "origin");
}

#[test]
fn security_external_link_needs_href_close_before() {
    let html = r#"<a href="x">y</a> text https://example.com"#;
    let issues = analyze_referrer_security(Some("unsafe-url"), html);
    assert!(!issues.contains(&ReferrerSecurityIssue::CrossOriginLinkLeak));
    let html = r#"<p>see <a href="https://example.com">x</a></p>"#;
    let issues = analyze_referrer_security(Some("unsafe-url"), html);
    assert!(issues.contains(&ReferrerSecurityIssue::CrossOriginLinkLeak));
}
