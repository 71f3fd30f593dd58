//! Resource-hint audits of `<link>` tags: `preconnect`, `dns-prefetch`,
//! `preload` and `prerender`.
use vstd::prelude::*;
use crate::html::{attr_value, attr_value_lower, char_pos, char_pos_exec, page_tags, tag_attr, tag_attr_lower, tag_texts};
use crate::text::{
    chars_eq, emit_if, find_first, has_substr, has_text, is_prefix, is_suffix, lower, lowercase_unicode,
    push_decimal, push_str, slice_chars, starts_with, ends_with, string_of, chars_of, unicode_lowercase,
    eq_text, lemma_contains_add, lemma_contains_emit_if,
};

verus! {

/// Above this many `preconnect`/`dns-prefetch` hints a page is flagged.
pub const MAX_PRECONNECTS: usize = 6;

/// Above this many resource hints a page is flagged.
pub const MAX_RESOURCE_HINTS: usize = 10;

#[derive(Debug, Clone, Copy, PartialEq, Eq, Structural)]
pub enum PreconnectIssueKind {
    HttpOrigin,
    MissingCrossorigin,
    ExcessivePreconnects,
}

impl PreconnectIssueKind {
    /// The kind's description.
    pub open spec fn message(self) -> Seq<char> {
        match self {
            PreconnectIssueKind::HttpOrigin => "preconnect/prefetch uses HTTP"@,
            PreconnectIssueKind::MissingCrossorigin => "cross-origin preconnect missing crossorigin attribute"@,
            PreconnectIssueKind::ExcessivePreconnects => "excessive preconnect hints (>6) degrade performance"@,
        }
    }

    /// Renders the description.
    pub fn to_string(&self) -> (s: String)
        ensures
            s@ == self.message(),
    {
        match self {
            PreconnectIssueKind::HttpOrigin => String::from_str("preconnect/prefetch uses HTTP"),
            PreconnectIssueKind::MissingCrossorigin => String::from_str(
                "cross-origin preconnect missing crossorigin attribute",
            ),
            PreconnectIssueKind::ExcessivePreconnects => String::from_str(
                "excessive preconnect hints (>6) degrade performance",
            ),
        }
    }
}

#[derive(Debug, Clone)]
pub struct PreconnectIssue {
    pub href: String,
    pub rel: String,
    pub kind: PreconnectIssueKind,
}

/// A `PreconnectIssue` with its text fields as character sequences.
pub struct PreconnectIssueModel {
    pub href: Seq<char>,
    pub rel: Seq<char>,
    pub kind: PreconnectIssueKind,
}

impl View for PreconnectIssue {
    type V = PreconnectIssueModel;

    open spec fn view(&self) -> PreconnectIssueModel {
        PreconnectIssueModel { href: self.href@, rel: self.rel@, kind: self.kind }
    }
}

pub open spec fn preconnect_views(v: Seq<PreconnectIssue>) -> Seq<PreconnectIssueModel> {
    v.map_values(|i: PreconnectIssue| i@)
}

/// The lowercased `rel` of a tag, if it has one.
pub open spec fn rel_of(tag: Seq<char>) -> Option<Seq<char>> {
    attr_value_lower(tag, "rel"@)
}

/// The `href` of a tag, empty when it has none.
pub open spec fn href_of(tag: Seq<char>) -> Seq<char> {
    match attr_value(tag, "href"@) {
        Some(h) => h,
        None => Seq::empty(),
    }
}

/// A `preconnect` or `dns-prefetch` hint.
pub open spec fn is_connect_hint(rel: Seq<char>) -> bool {
    rel == "preconnect"@ || rel == "dns-prefetch"@
}

/// The tag is counted as a connection hint.
pub open spec fn counts_as_connect_hint(tag: Seq<char>) -> bool {
    match rel_of(tag) {
        Some(rel) => is_connect_hint(rel),
        None => false,
    }
}

/// The issues one `<link>` tag raises in `analyze_preconnects`.
pub open spec fn tag_preconnect_issues(tag: Seq<char>) -> Seq<PreconnectIssueModel> {
    match rel_of(tag) {
        Some(rel) => if is_connect_hint(rel) && href_of(tag).len() > 0 {
            let href = href_of(tag);
            emit_if(is_prefix("http://"@, href), PreconnectIssueModel {
                href,
                rel,
                kind: PreconnectIssueKind::HttpOrigin,
            }) + emit_if(
                rel == "preconnect"@ && is_prefix("http"@, href) && !has_substr(lower(tag), "crossorigin"@),
                PreconnectIssueModel { href, rel, kind: PreconnectIssueKind::MissingCrossorigin },
            )
        } else {
            Seq::empty()
        },
        None => Seq::empty(),
    }
}

/// The per-tag issues of `tags`, in order.
pub open spec fn preconnect_issues_over(tags: Seq<Seq<char>>) -> Seq<PreconnectIssueModel>
    decreases tags.len(),
{
    if tags.len() == 0 {
        Seq::empty()
    } else {
        preconnect_issues_over(tags.drop_last()) + tag_preconnect_issues(tags.last())
    }
}

/// How many of `tags` are connection hints.
pub open spec fn connect_hint_count(tags: Seq<Seq<char>>) -> nat
    decreases tags.len(),
{
    if tags.len() == 0 {
        0
    } else {
        connect_hint_count(tags.drop_last()) + if counts_as_connect_hint(tags.last()) { 1nat } else { 0nat }
    }
}

/// The issues `analyze_preconnects` reports for a page, in report order.
pub open spec fn preconnect_issues(html: Seq<char>) -> Seq<PreconnectIssueModel> {
    let tags = tag_texts(html, "link"@);
    preconnect_issues_over(tags) + emit_if(
        connect_hint_count(tags) > MAX_PRECONNECTS,
        PreconnectIssueModel { href: Seq::empty(), rel: Seq::empty(), kind: PreconnectIssueKind::ExcessivePreconnects },
    )
}

/// `idx` lists, in increasing order, positions of `tags` whose lowercased
/// `rel` is `preconnect` or `dns-prefetch`.
pub open spec fn hint_positions(tags: Seq<Seq<char>>, idx: Seq<int>) -> bool {
    &&& forall|j: int, k: int| 0 <= j < k < idx.len() ==> idx[j] < idx[k]
    &&& forall|j: int| 0 <= j < idx.len() ==> 0 <= #[trigger] idx[j] < tags.len() && (rel_of(tags[idx[j]]) == Some(
        "preconnect"@,
    ) || rel_of(tags[idx[j]]) == Some("dns-prefetch"@))
}

/// Every listed hint is counted.
proof fn lemma_hint_count_at_least(tags: Seq<Seq<char>>, idx: Seq<int>)
    requires
        hint_positions(tags, idx),
    ensures
        connect_hint_count(tags) >= idx.len(),
    decreases tags.len(),
{
    if tags.len() > 0 {
        let n = tags.len() - 1;
        if idx.len() > 0 && idx.last() == n {
            let rest = idx.drop_last();
            assert forall|j: int| 0 <= j < rest.len() implies #[trigger] rest[j] < n by {
                assert(idx[j] < idx[idx.len() - 1]);
            }
            assert(hint_positions(tags.drop_last(), rest)) by {
                assert forall|j: int| 0 <= j < rest.len() implies tags.drop_last()[rest[j]] == tags[rest[j]] by {
                    assert(rest[j] < n);
                }
            }
            lemma_hint_count_at_least(tags.drop_last(), rest);
            assert(counts_as_connect_hint(tags.last())) by {
                assert(idx[idx.len() - 1] == n);
                assert(tags.last() == tags[n]);
            }
            assert(connect_hint_count(tags) == connect_hint_count(tags.drop_last()) + 1);
        } else {
            assert forall|j: int| 0 <= j < idx.len() implies #[trigger] idx[j] < n by {
                if idx[j] == n {
                    assert(idx[j] <= idx[idx.len() - 1]) by {
                        if j < idx.len() - 1 {
                            assert(idx[j] < idx[idx.len() - 1]);
                        }
                    }
                }
            }
            assert(hint_positions(tags.drop_last(), idx)) by {
                assert forall|j: int| 0 <= j < idx.len() implies tags.drop_last()[idx[j]] == tags[idx[j]] by {
                    assert(idx[j] < n);
                }
            }
            lemma_hint_count_at_least(tags.drop_last(), idx);
        }
        assert(connect_hint_count(tags) >= connect_hint_count(tags.drop_last()));
    } else if idx.len() > 0 {
        assert(0 <= idx[0] < tags.len());
    }
}

/// Both `preconnect` and `dns-prefetch` hints count toward the limit: a
/// page with more than `MAX_PRECONNECTS` `<link>` tags whose lowercased
/// `rel` is one of them is reported with `ExcessivePreconnects`.
pub proof fn law_excessive_connect_hints(html: Seq<char>, idx: Seq<int>)
    requires
        hint_positions(tag_texts(html, "link"@), idx),
        idx.len() > MAX_PRECONNECTS,
    ensures
        exists|k: int| 0 <= k < preconnect_issues(html).len() && (#[trigger] preconnect_issues(html)[k]).kind
            == PreconnectIssueKind::ExcessivePreconnects,
{
    let tags = tag_texts(html, "link"@);
    lemma_hint_count_at_least(tags, idx);
    let e = PreconnectIssueModel { href: Seq::empty(), rel: Seq::empty(), kind: PreconnectIssueKind::ExcessivePreconnects };
    let a = preconnect_issues_over(tags);
    assert(preconnect_issues(html) == a + emit_if(connect_hint_count(tags) > MAX_PRECONNECTS, e));
    assert(preconnect_issues(html)[a.len() as int] == e);
}

/// The issues of one tag, and whether it counts as a connection hint.
fn tag_preconnect(to: &[char], tl: &[char]) -> (r: (Vec<PreconnectIssue>, bool))
    requires
        tl@ == lower(to@),
    ensures
        preconnect_views(r.0@) == tag_preconnect_issues(to@),
        r.1 == counts_as_connect_hint(to@),
{
    let mut issues: Vec<PreconnectIssue> = Vec::new();
    let rel = match tag_attr_lower(tl, "rel") {
        Some(r) => r,
        None => {
            assert(preconnect_views(issues@) =~= tag_preconnect_issues(to@));
            return (issues, false);
        },
    };
    let is_preconnect = eq_text(rel.as_slice(), "preconnect");
    let is_prefetch = eq_text(rel.as_slice(), "dns-prefetch");
    if !is_preconnect && !is_prefetch {
        assert(preconnect_views(issues@) =~= tag_preconnect_issues(to@));
        return (issues, false);
    }
    let href = match tag_attr(to, tl, "href") {
        Some(h) => h,
        None => Vec::new(),
    };
    if href.len() == 0 {
        assert(preconnect_views(issues@) =~= tag_preconnect_issues(to@));
        return (issues, true);
    }
    let h = href.as_slice();
    let http = starts_with(h, "http://");
    let missing = is_preconnect && starts_with(h, "http") && !has_text(tl, "crossorigin");
    if http {
        issues.push(PreconnectIssue {
            href: string_of(h),
            rel: string_of(rel.as_slice()),
            kind: PreconnectIssueKind::HttpOrigin,
        });
    }
    if missing {
        issues.push(PreconnectIssue {
            href: string_of(h),
            rel: string_of(rel.as_slice()),
            kind: PreconnectIssueKind::MissingCrossorigin,
        });
    }
    assert(preconnect_views(issues@) =~= tag_preconnect_issues(to@));
    (issues, true)
}

/// Flags `preconnect` and `dns-prefetch` hints to plain-HTTP origins,
/// cross-origin `preconnect` hints without `crossorigin`, and pages with
/// more than `MAX_PRECONNECTS` such hints.
pub fn analyze_preconnects(html: &str) -> (issues: Vec<PreconnectIssue>)
    ensures
        preconnect_views(issues@) == preconnect_issues(html@),
{
    let tags = page_tags(html, "link");
    let ghost texts = tag_texts(html@, "link"@);
    let mut issues: Vec<PreconnectIssue> = Vec::new();
    let mut count: usize = 0;
    let mut k: usize = 0;
    while k < tags.len()
        invariant
            tags@.len() == texts.len(),
            texts == tag_texts(html@, "link"@),
            forall|i: int| 0 <= i < tags@.len() ==> {
                &&& (#[trigger] tags@[i]).0@ == texts[i]
                &&& tags@[i].1@ == lower(texts[i])
            },
            k <= tags@.len(),
            count <= k,
            count == connect_hint_count(texts.take(k as int)),
            preconnect_views(issues@) == preconnect_issues_over(texts.take(k as int)),
        decreases tags.len() - k,
    {
        let (mut found, counted) = tag_preconnect(tags[k].0.as_slice(), tags[k].1.as_slice());
        proof {
            assert(texts.take(k + 1).drop_last() =~= texts.take(k as int));
            assert(texts.take(k + 1).last() == texts[k as int]);
            assert(preconnect_views(issues@ + found@) =~= preconnect_views(issues@) + preconnect_views(found@));
        }
        issues.append(&mut found);
        if counted {
            count += 1;
        }
        k += 1;
    }
    assert(texts.take(k as int) =~= texts);
    let ghost before = issues@;
    if count > MAX_PRECONNECTS {
        issues.push(PreconnectIssue {
            href: String::new(),
            rel: String::new(),
            kind: PreconnectIssueKind::ExcessivePreconnects,
        });
    }
    proof {
        assert(preconnect_views(issues@) =~= preconnect_views(before) + emit_if(
            count > MAX_PRECONNECTS,
            PreconnectIssueModel { href: Seq::empty(), rel: Seq::empty(), kind: PreconnectIssueKind::ExcessivePreconnects },
        ));
    }
    issues
}

#[derive(Debug, Clone, PartialEq)]
pub enum PreconnectSecurityIssue {
    HttpPreconnect { href: String },
    ThirdPartyPreconnect { href: String },
    ExcessiveResourceHints { count: usize },
    TrackingPixelPreconnect { href: String },
    MissingCrossoriginAttribute { href: String },
    PreconnectToSuspiciousTld { href: String, tld: String },
    DnsPrefetchToExternal { href: String },
    PreloadWithoutIntegrity { href: String },
    PrerenderExternalUrl { href: String },
    DuplicateResourceHint { href: String },
}

/// A `PreconnectSecurityIssue` with its text fields as character sequences.
pub enum SecurityIssueModel {
    HttpPreconnect { href: Seq<char> },
    ThirdPartyPreconnect { href: Seq<char> },
    ExcessiveResourceHints { count: usize },
    TrackingPixelPreconnect { href: Seq<char> },
    MissingCrossoriginAttribute { href: Seq<char> },
    PreconnectToSuspiciousTld { href: Seq<char>, tld: Seq<char> },
    DnsPrefetchToExternal { href: Seq<char> },
    PreloadWithoutIntegrity { href: Seq<char> },
    PrerenderExternalUrl { href: Seq<char> },
    DuplicateResourceHint { href: Seq<char> },
}

impl View for PreconnectSecurityIssue {
    type V = SecurityIssueModel;

    open spec fn view(&self) -> SecurityIssueModel {
        match self {
            PreconnectSecurityIssue::HttpPreconnect { href } => SecurityIssueModel::HttpPreconnect { href: href@ },
            PreconnectSecurityIssue::ThirdPartyPreconnect { href } => SecurityIssueModel::ThirdPartyPreconnect {
                href: href@,
            },
            PreconnectSecurityIssue::ExcessiveResourceHints { count } => SecurityIssueModel::ExcessiveResourceHints {
                count: *count,
            },
            PreconnectSecurityIssue::TrackingPixelPreconnect { href } => SecurityIssueModel::TrackingPixelPreconnect {
                href: href@,
            },
            PreconnectSecurityIssue::MissingCrossoriginAttribute { href } =>
                SecurityIssueModel::MissingCrossoriginAttribute { href: href@ },
            PreconnectSecurityIssue::PreconnectToSuspiciousTld { href, tld } =>
                SecurityIssueModel::PreconnectToSuspiciousTld { href: href@, tld: tld@ },
            PreconnectSecurityIssue::DnsPrefetchToExternal { href } => SecurityIssueModel::DnsPrefetchToExternal {
                href: href@,
            },
            PreconnectSecurityIssue::PreloadWithoutIntegrity { href } => SecurityIssueModel::PreloadWithoutIntegrity {
                href: href@,
            },
            PreconnectSecurityIssue::PrerenderExternalUrl { href } => SecurityIssueModel::PrerenderExternalUrl {
                href: href@,
            },
            PreconnectSecurityIssue::DuplicateResourceHint { href } => SecurityIssueModel::DuplicateResourceHint {
                href: href@,
            },
        }
    }
}

pub open spec fn security_views(v: Seq<PreconnectSecurityIssue>) -> Seq<SecurityIssueModel> {
    v.map_values(|i: PreconnectSecurityIssue| i@)
}

impl SecurityIssueModel {
    /// The issue's description.
    pub open spec fn message(self) -> Seq<char> {
        match self {
            SecurityIssueModel::HttpPreconnect { href } => "preconnect to HTTP origin: "@ + href,
            SecurityIssueModel::ThirdPartyPreconnect { href } => "preconnect to unknown third-party domain: "@ + href,
            SecurityIssueModel::ExcessiveResourceHints { count } => "excessive resource hints ("@
                + crate::text::decimal(count as nat) + " total) degrade performance"@,
            SecurityIssueModel::TrackingPixelPreconnect { href } => "preconnect to known tracking domain: "@ + href,
            SecurityIssueModel::MissingCrossoriginAttribute { href } =>
                "cross-origin preconnect missing crossorigin attribute: "@ + href,
            SecurityIssueModel::PreconnectToSuspiciousTld { href, tld } => "preconnect to suspicious TLD ("@ + tld
                + "): "@ + href,
            SecurityIssueModel::DnsPrefetchToExternal { href } => "dns-prefetch pointing to external domain: "@ + href,
            SecurityIssueModel::PreloadWithoutIntegrity { href } => "preload of script/style without integrity: "@
                + href,
            SecurityIssueModel::PrerenderExternalUrl { href } => "prerender hint pointing to external URL: "@ + href,
            SecurityIssueModel::DuplicateResourceHint { href } => "duplicate resource hint for URL: "@ + href,
        }
    }
}

impl PreconnectSecurityIssue {
    /// Renders the issue's description.
    pub fn to_string(&self) -> (s: String)
        ensures
            s@ == self@.message(),
    {
        let mut out: Vec<char> = Vec::new();
        match self {
            PreconnectSecurityIssue::HttpPreconnect { href } => {
                push_str(&mut out, "preconnect to HTTP origin: ");
                push_str(&mut out, href.as_str());
            },
            PreconnectSecurityIssue::ThirdPartyPreconnect { href } => {
                push_str(&mut out, "preconnect to unknown third-party domain: ");
                push_str(&mut out, href.as_str());
            },
            PreconnectSecurityIssue::ExcessiveResourceHints { count } => {
                push_str(&mut out, "excessive resource hints (");
                push_decimal(&mut out, *count as u64);
                push_str(&mut out, " total) degrade performance");
            },
            PreconnectSecurityIssue::TrackingPixelPreconnect { href } => {
                push_str(&mut out, "preconnect to known tracking domain: ");
                push_str(&mut out, href.as_str());
            },
            PreconnectSecurityIssue::MissingCrossoriginAttribute { href } => {
                push_str(&mut out, "cross-origin preconnect missing crossorigin attribute: ");
                push_str(&mut out, href.as_str());
            },
            PreconnectSecurityIssue::PreconnectToSuspiciousTld { href, tld } => {
                push_str(&mut out, "preconnect to suspicious TLD (");
                push_str(&mut out, tld.as_str());
                push_str(&mut out, "): ");
                push_str(&mut out, href.as_str());
            },
            PreconnectSecurityIssue::DnsPrefetchToExternal { href } => {
                push_str(&mut out, "dns-prefetch pointing to external domain: ");
                push_str(&mut out, href.as_str());
            },
            PreconnectSecurityIssue::PreloadWithoutIntegrity { href } => {
                push_str(&mut out, "preload of script/style without integrity: ");
                push_str(&mut out, href.as_str());
            },
            PreconnectSecurityIssue::PrerenderExternalUrl { href } => {
                push_str(&mut out, "prerender hint pointing to external URL: ");
                push_str(&mut out, href.as_str());
            },
            PreconnectSecurityIssue::DuplicateResourceHint { href } => {
                push_str(&mut out, "duplicate resource hint for URL: ");
                push_str(&mut out, href.as_str());
            },
        }
        assert(out@ =~= self@.message());
        string_of(out.as_slice())
    }
}

/// The text of `s` before its first `/`.
pub open spec fn before_slash(s: Seq<char>) -> Seq<char> {
    s.subrange(0, char_pos(s, 0, '/'))
}

/// The host part of a URL with a scheme (`scheme://host/...`) or of a
/// protocol-relative URL (`//host/...`), before lowercasing.
pub open spec fn raw_domain(url: Seq<char>) -> Option<Seq<char>> {
    match crate::text::first_index(url, "://"@) {
        Some(st) => Some(before_slash(url.subrange(st + 3, url.len() as int))),
        None => if is_prefix("//"@, url) {
            Some(before_slash(url.subrange(2, url.len() as int)))
        } else {
            None
        },
    }
}

/// The lowercased host of a URL, if it names one.
pub open spec fn domain_of(url: Seq<char>) -> Option<Seq<char>> {
    match raw_domain(url) {
        Some(d) => Some(unicode_lowercase(d)),
        None => None,
    }
}

/// The text of `s` before its first `/`.
fn before_slash_exec(s: &[char]) -> (r: Vec<char>)
    ensures
        r@ == before_slash(s@),
{
    let j = char_pos_exec(s, 0, '/');
    slice_chars(s, 0, j)
}

/// The lowercased host of `url`: after `://` or a leading `//`, up to the next `/`.
pub fn extract_domain_from_url(url: &str) -> (r: Option<String>)
    ensures
        match domain_of(url@) {
            Some(d) => r is Some && r->0@ == d,
            None => r is None,
        },
{
    let u = chars_of(url);
    proof {
        reveal_strlit("://");
        reveal_strlit("//");
    }
    let raw = match find_first(u.as_slice(), "://") {
        Some(st) => {
            assert(st + 3 <= u.len());
            let after = slice_chars(u.as_slice(), st + 3, u.len());
            before_slash_exec(after.as_slice())
        },
        None => {
            if starts_with(u.as_slice(), "//") {
                let after = slice_chars(u.as_slice(), 2, u.len());
                before_slash_exec(after.as_slice())
            } else {
                return None;
            }
        },
    };
    let raw_s = string_of(raw.as_slice());
    Some(lowercase_unicode(raw_s.as_str()))
}

/// The host belongs to a known tracking service.
pub open spec fn is_tracking_domain(d: Seq<char>) -> bool {
    has_substr(d, "google-analytics.com"@) || has_substr(d, "googletagmanager.com"@)
        || has_substr(d, "facebook.com"@) || has_substr(d, "facebook.net"@)
        || has_substr(d, "doubleclick.net"@) || has_substr(d, "scorecardresearch.com"@)
        || has_substr(d, "hotjar.com"@) || has_substr(d, "mouseflow.com"@)
        || has_substr(d, "amplitude.com"@) || has_substr(d, "segment.com"@)
        || has_substr(d, "mixpanel.com"@)
}

/// The first suspicious top-level domain, in list order, that the host ends with.
pub open spec fn suspicious_tld(d: Seq<char>) -> Option<Seq<char>> {
    if is_suffix(".tk"@, d) { Some(".tk"@) }
    else if is_suffix(".ml"@, d) { Some(".ml"@) }
    else if is_suffix(".ga"@, d) { Some(".ga"@) }
    else if is_suffix(".cf"@, d) { Some(".cf"@) }
    else if is_suffix(".gq"@, d) { Some(".gq"@) }
    else if is_suffix(".pw"@, d) { Some(".pw"@) }
    else if is_suffix(".cc"@, d) { Some(".cc"@) }
    else if is_suffix(".top"@, d) { Some(".top"@) }
    else if is_suffix(".xyz"@, d) { Some(".xyz"@) }
    else if is_suffix(".work"@, d) { Some(".work"@) }
    else { None }
}

/// The host is not the local machine.
pub open spec fn is_external_host(d: Seq<char>) -> bool {
    !has_substr(d, "localhost"@) && !is_prefix("127.0.0.1"@, d) && !is_prefix("::1"@, d)
}

/// The host is neither local nor a reserved example or test domain.
pub open spec fn is_third_party_host(d: Seq<char>) -> bool {
    is_external_host(d) && !has_substr(d, "example.com"@) && !has_substr(d, "test.com"@)
}

/// The URL is absolute or protocol-relative.
pub open spec fn is_external_link(url: Seq<char>) -> bool {
    is_prefix("http://"@, url) || is_prefix("https://"@, url) || is_prefix("//"@, url)
}

/// The issues that the host `d` of a hint's `href` raises.
pub open spec fn host_issues(href: Seq<char>, d: Seq<char>, preconnect: bool, prefetch: bool) -> Seq<SecurityIssueModel> {
    emit_if(is_tracking_domain(d), SecurityIssueModel::TrackingPixelPreconnect { href })
        + match suspicious_tld(d) {
            Some(tld) => seq![SecurityIssueModel::PreconnectToSuspiciousTld { href, tld }],
            None => Seq::empty(),
        }
        + emit_if(preconnect && is_third_party_host(d), SecurityIssueModel::ThirdPartyPreconnect { href })
        + emit_if(prefetch && is_external_host(d), SecurityIssueModel::DnsPrefetchToExternal { href })
}

fn is_tracking_domain_exec(d: &[char]) -> (r: bool)
    ensures
        r == is_tracking_domain(d@),
{
    has_text(d, "google-analytics.com") || has_text(d, "googletagmanager.com") || has_text(d, "facebook.com")
        || has_text(d, "facebook.net") || has_text(d, "doubleclick.net") || has_text(d, "scorecardresearch.com")
        || has_text(d, "hotjar.com") || has_text(d, "mouseflow.com") || has_text(d, "amplitude.com")
        || has_text(d, "segment.com") || has_text(d, "mixpanel.com")
}

fn suspicious_tld_exec(d: &[char]) -> (r: Option<&'static str>)
    ensures
        match suspicious_tld(d@) {
            Some(t) => r is Some && r->0@ == t,
            None => r is None,
        },
{
    if ends_with(d, ".tk") { Some(".tk") }
    else if ends_with(d, ".ml") { Some(".ml") }
    else if ends_with(d, ".ga") { Some(".ga") }
    else if ends_with(d, ".cf") { Some(".cf") }
    else if ends_with(d, ".gq") { Some(".gq") }
    else if ends_with(d, ".pw") { Some(".pw") }
    else if ends_with(d, ".cc") { Some(".cc") }
    else if ends_with(d, ".top") { Some(".top") }
    else if ends_with(d, ".xyz") { Some(".xyz") }
    else if ends_with(d, ".work") { Some(".work") }
    else { None }
}

/// Whether the host is neither local nor a reserved example or test domain.
pub fn is_third_party_domain(domain: &str) -> (r: bool)
    ensures
        r == is_third_party_host(domain@),
{
    let d = chars_of(domain);
    is_external_domain(domain) && !has_text(d.as_slice(), "example.com") && !has_text(d.as_slice(), "test.com")
}

/// Whether the host is not the local machine.
pub fn is_external_domain(domain: &str) -> (r: bool)
    ensures
        r == is_external_host(domain@),
{
    let d = chars_of(domain);
    let s = d.as_slice();
    !has_text(s, "localhost") && !starts_with(s, "127.0.0.1") && !starts_with(s, "::1")
}

/// Whether the URL is absolute or protocol-relative.
pub fn is_external_url(url: &str) -> (r: bool)
    ensures
        r == is_external_link(url@),
{
    let u = chars_of(url);
    let s = u.as_slice();
    starts_with(s, "http://") || starts_with(s, "https://") || starts_with(s, "//")
}

/// Appends `x` to `v` when `cond` holds.
fn push_security_if(v: &mut Vec<PreconnectSecurityIssue>, cond: bool, x: PreconnectSecurityIssue)
    ensures
        security_views(final(v)@) == security_views(old(v)@) + emit_if(cond, x@),
{
    if cond {
        v.push(x);
    }
    assert(security_views(final(v)@) =~= security_views(old(v)@) + emit_if(cond, x@));
}

/// The issues that the host `domain` of a hint's `href` raises: a tracking
/// service, a suspicious top-level domain, a third-party `preconnect`, an
/// external `dns-prefetch`.
pub fn host_security_issues(href: &str, domain: &str, preconnect: bool, prefetch: bool) -> (issues: Vec<
    PreconnectSecurityIssue,
>)
    ensures
        security_views(issues@) == host_issues(href@, domain@, preconnect, prefetch),
{
    let d = chars_of(domain);
    let mut issues: Vec<PreconnectSecurityIssue> = Vec::new();
    assert(security_views(issues@) =~= Seq::<SecurityIssueModel>::empty());
    push_security_if(
        &mut issues,
        is_tracking_domain_exec(d.as_slice()),
        PreconnectSecurityIssue::TrackingPixelPreconnect { href: String::from_str(href) },
    );
    let ghost after_tracking = security_views(issues@);
    match suspicious_tld_exec(d.as_slice()) {
        Some(tld) => {
            issues.push(PreconnectSecurityIssue::PreconnectToSuspiciousTld {
                href: String::from_str(href),
                tld: String::from_str(tld),
            });
        },
        None => {},
    }
    let ghost after_tld = security_views(issues@);
    assert(after_tld =~= after_tracking + match suspicious_tld(domain@) {
        Some(tld) => seq![SecurityIssueModel::PreconnectToSuspiciousTld { href: href@, tld }],
        None => Seq::empty(),
    });
    push_security_if(
        &mut issues,
        preconnect && is_third_party_domain(domain),
        PreconnectSecurityIssue::ThirdPartyPreconnect { href: String::from_str(href) },
    );
    push_security_if(
        &mut issues,
        prefetch && is_external_domain(domain),
        PreconnectSecurityIssue::DnsPrefetchToExternal { href: String::from_str(href) },
    );
    issues
}

/// A resource hint: `preconnect`, `dns-prefetch`, `preload` or `prerender`.
pub open spec fn is_resource_hint(rel: Seq<char>) -> bool {
    rel == "preconnect"@ || rel == "dns-prefetch"@ || rel == "preload"@ || rel == "prerender"@
}

/// The tag is counted as a resource hint.
pub open spec fn counts_as_resource_hint(tag: Seq<char>) -> bool {
    match rel_of(tag) {
        Some(rel) => is_resource_hint(rel),
        None => false,
    }
}

/// The `href` that a resource hint contributes to the set of seen URLs.
pub open spec fn hinted_href(tag: Seq<char>) -> Option<Seq<char>> {
    if counts_as_resource_hint(tag) && href_of(tag).len() > 0 {
        Some(href_of(tag))
    } else {
        None
    }
}

/// The lowercased `as` of a tag, empty when it has none.
pub open spec fn as_of(tag: Seq<char>) -> Seq<char> {
    match attr_value_lower(tag, "as"@) {
        Some(a) => a,
        None => Seq::empty(),
    }
}

/// The issues one `<link>` tag raises, given the URLs of the earlier hints.
pub open spec fn tag_security_issues(tag: Seq<char>, seen: Seq<Seq<char>>) -> Seq<SecurityIssueModel> {
    match rel_of(tag) {
        Some(rel) => if is_resource_hint(rel) && href_of(tag).len() > 0 {
            let href = href_of(tag);
            let tl = lower(tag);
            emit_if(seen.contains(href), SecurityIssueModel::DuplicateResourceHint { href })
                + emit_if(is_prefix("http://"@, href), SecurityIssueModel::HttpPreconnect { href })
                + emit_if(
                    rel == "preconnect"@ && (is_prefix("http"@, href) || is_prefix("//"@, href))
                        && !has_substr(tl, "crossorigin"@),
                    SecurityIssueModel::MissingCrossoriginAttribute { href },
                )
                + match domain_of(href) {
                    Some(d) => host_issues(href, d, rel == "preconnect"@, rel == "dns-prefetch"@),
                    None => Seq::empty(),
                }
                + emit_if(
                    rel == "preload"@ && (as_of(tag) == "script"@ || as_of(tag) == "style"@)
                        && !has_substr(tl, "integrity"@),
                    SecurityIssueModel::PreloadWithoutIntegrity { href },
                )
                + emit_if(rel == "prerender"@ && is_external_link(href), SecurityIssueModel::PrerenderExternalUrl { href })
        } else {
            Seq::empty()
        },
        None => Seq::empty(),
    }
}

/// The URLs of the resource hints among `tags`, in order.
pub open spec fn seen_over(tags: Seq<Seq<char>>) -> Seq<Seq<char>>
    decreases tags.len(),
{
    if tags.len() == 0 {
        Seq::empty()
    } else {
        seen_over(tags.drop_last()) + match hinted_href(tags.last()) {
            Some(h) => seq![h],
            None => Seq::empty(),
        }
    }
}

/// The per-tag issues of `tags`, in order.
pub open spec fn security_issues_over(tags: Seq<Seq<char>>) -> Seq<SecurityIssueModel>
    decreases tags.len(),
{
    if tags.len() == 0 {
        Seq::empty()
    } else {
        security_issues_over(tags.drop_last()) + tag_security_issues(tags.last(), seen_over(tags.drop_last()))
    }
}

/// How many of `tags` are resource hints.
pub open spec fn resource_hint_count(tags: Seq<Seq<char>>) -> nat
    decreases tags.len(),
{
    if tags.len() == 0 {
        0
    } else {
        resource_hint_count(tags.drop_last()) + if counts_as_resource_hint(tags.last()) { 1nat } else { 0nat }
    }
}

/// The issues `analyze_preconnect_security` reports for a page, in report order.
pub open spec fn preconnect_security_issues(html: Seq<char>) -> Seq<SecurityIssueModel> {
    let tags = tag_texts(html, "link"@);
    security_issues_over(tags) + emit_if(
        resource_hint_count(tags) > MAX_RESOURCE_HINTS,
        SecurityIssueModel::ExcessiveResourceHints { count: resource_hint_count(tags) as usize },
    )
}

pub open spec fn seen_views(v: Seq<Vec<char>>) -> Seq<Seq<char>> {
    v.map_values(|x: Vec<char>| x@)
}

/// Whether `x` is one of `seen`.
fn seen_contains(seen: &Vec<Vec<char>>, x: &[char]) -> (r: bool)
    ensures
        r == seen_views(seen@).contains(x@),
{
    let mut i: usize = 0;
    while i < seen.len()
        invariant
            i <= seen@.len(),
            forall|j: int| 0 <= j < i ==> seen@[j]@ != x@,
        decreases seen.len() - i,
    {
        if chars_eq(seen[i].as_slice(), x) {
            assert(seen_views(seen@)[i as int] == x@);
            return true;
        }
        i += 1;
    }
    proof {
        if seen_views(seen@).contains(x@) {
            let j = choose|j: int| 0 <= j < seen_views(seen@).len() && seen_views(seen@)[j] == x@;
            assert(seen@[j]@ == x@);
        }
    }
    false
}

/// The issues of the host of a hint's `href`, when it names one.
fn href_host_issues(h: &[char], preconnect: bool, prefetch: bool) -> (issues: Vec<PreconnectSecurityIssue>)
    ensures
        security_views(issues@) == match domain_of(h@) {
            Some(d) => host_issues(h@, d, preconnect, prefetch),
            None => Seq::<SecurityIssueModel>::empty(),
        },
{
    let href = string_of(h);
    match extract_domain_from_url(href.as_str()) {
        Some(d) => host_security_issues(href.as_str(), d.as_str(), preconnect, prefetch),
        None => {
            let issues: Vec<PreconnectSecurityIssue> = Vec::new();
            assert(security_views(issues@) =~= Seq::<SecurityIssueModel>::empty());
            issues
        },
    }
}

/// The issues of one tag given the URLs of the earlier hints, whether it
/// counts as a resource hint, and the URL it adds to the seen ones.
fn tag_security(to: &[char], tl: &[char], seen: &Vec<Vec<char>>) -> (r: (
    Vec<PreconnectSecurityIssue>,
    bool,
    Option<Vec<char>>,
))
    requires
        tl@ == lower(to@),
    ensures
        security_views(r.0@) == tag_security_issues(to@, seen_views(seen@)),
        r.1 == counts_as_resource_hint(to@),
        match hinted_href(to@) {
            Some(h) => r.2 is Some && r.2->0@ == h,
            None => r.2 is None,
        },
{
    let mut issues: Vec<PreconnectSecurityIssue> = Vec::new();
    let rel = match tag_attr_lower(tl, "rel") {
        Some(r) => r,
        None => {
            assert(security_views(issues@) =~= tag_security_issues(to@, seen_views(seen@)));
            return (issues, false, None);
        },
    };
    let r = rel.as_slice();
    let is_preconnect = eq_text(r, "preconnect");
    let is_prefetch = eq_text(r, "dns-prefetch");
    let is_preload = eq_text(r, "preload");
    let is_prerender = eq_text(r, "prerender");
    if !is_preconnect && !is_prefetch && !is_preload && !is_prerender {
        assert(security_views(issues@) =~= tag_security_issues(to@, seen_views(seen@)));
        return (issues, false, None);
    }
    let href = match tag_attr(to, tl, "href") {
        Some(h) => h,
        None => Vec::new(),
    };
    if href.len() == 0 {
        assert(security_views(issues@) =~= tag_security_issues(to@, seen_views(seen@)));
        return (issues, true, None);
    }
    let h = href.as_slice();
    let hs = string_of(h);
    let duplicate = seen_contains(seen, h);
    let http = starts_with(h, "http://");
    let missing = is_preconnect && (starts_with(h, "http") || starts_with(h, "//")) && !has_text(tl, "crossorigin");
    let as_attr = match tag_attr_lower(tl, "as") {
        Some(a) => a,
        None => Vec::new(),
    };
    let preload = is_preload && (eq_text(as_attr.as_slice(), "script") || eq_text(as_attr.as_slice(), "style"))
        && !has_text(tl, "integrity");
    let prerender = is_prerender && is_external_url(hs.as_str());
    assert(security_views(issues@) =~= Seq::<SecurityIssueModel>::empty());
    push_security_if(&mut issues, duplicate, PreconnectSecurityIssue::DuplicateResourceHint { href: string_of(h) });
    push_security_if(&mut issues, http, PreconnectSecurityIssue::HttpPreconnect { href: string_of(h) });
    push_security_if(&mut issues, missing, PreconnectSecurityIssue::MissingCrossoriginAttribute { href: string_of(h) });
    let mut hosts = href_host_issues(h, is_preconnect, is_prefetch);
    proof {
        assert(security_views(issues@ + hosts@) =~= security_views(issues@) + security_views(hosts@));
    }
    issues.append(&mut hosts);
    push_security_if(&mut issues, preload, PreconnectSecurityIssue::PreloadWithoutIntegrity { href: string_of(h) });
    push_security_if(&mut issues, prerender, PreconnectSecurityIssue::PrerenderExternalUrl { href: string_of(h) });
    (issues, true, Some(href))
}

/// Audits a page's resource hints: duplicates, plain-HTTP origins, missing
/// `crossorigin`, tracking and suspicious hosts, third-party `preconnect`,
/// external `dns-prefetch`, `preload` of scripts and styles without
/// `integrity`, external `prerender`, and more than `MAX_RESOURCE_HINTS`
/// hints on the page.
pub fn analyze_preconnect_security(html: &str) -> (issues: Vec<PreconnectSecurityIssue>)
    ensures
        security_views(issues@) == preconnect_security_issues(html@),
{
    let tags = page_tags(html, "link");
    let ghost texts = tag_texts(html@, "link"@);
    let mut issues: Vec<PreconnectSecurityIssue> = Vec::new();
    let mut seen: Vec<Vec<char>> = Vec::new();
    let mut count: usize = 0;
    let mut k: usize = 0;
    while k < tags.len()
        invariant
            tags@.len() == texts.len(),
            texts == tag_texts(html@, "link"@),
            forall|i: int| 0 <= i < tags@.len() ==> {
                &&& (#[trigger] tags@[i]).0@ == texts[i]
                &&& tags@[i].1@ == lower(texts[i])
            },
            k <= tags@.len(),
            count <= k,
            count == resource_hint_count(texts.take(k as int)),
            seen_views(seen@) == seen_over(texts.take(k as int)),
            security_views(issues@) == security_issues_over(texts.take(k as int)),
        decreases tags.len() - k,
    {
        let (mut found, counted, added) = tag_security(tags[k].0.as_slice(), tags[k].1.as_slice(), &seen);
        proof {
            assert(texts.take(k + 1).drop_last() =~= texts.take(k as int));
            assert(texts.take(k + 1).last() == texts[k as int]);
            assert(security_views(issues@ + found@) =~= security_views(issues@) + security_views(found@));
        }
        issues.append(&mut found);
        let ghost seen_before = seen@;
        match added {
            Some(h) => {
                seen.push(h);
            },
            None => {},
        }
        proof {
            assert(seen_views(seen@) =~= seen_views(seen_before) + match hinted_href(texts[k as int]) {
                Some(h) => seq![h],
                None => Seq::<Seq<char>>::empty(),
            });
        }
        if counted {
            count += 1;
        }
        k += 1;
    }
    assert(texts.take(k as int) =~= texts);
    let ghost before = issues@;
    push_security_if(
        &mut issues,
        count > MAX_RESOURCE_HINTS,
        PreconnectSecurityIssue::ExcessiveResourceHints { count },
    );
    issues
}

} // verus!
