//! Referrer policy analysis: the `Referrer-Policy` header on its own, and
//! together with a page's meta tag, links and forms.
use vstd::prelude::*;
use vstd::utf8::{encode_utf8, is_char_boundary};
use crate::strings::{char_views, index_of_char, find_char, split_char, split_char_exec, trim, trim_exec};
use crate::text::{
    chars_eq, chars_of, emit_if, eq_text, find_first, first_index, has_substr, has_text, is_prefix, lower,
    lower_chars, occurs_at, slice_chars, string_of, find_from, lemma_contains_add, lemma_contains_emit_if,
};

verus! {

#[derive(Debug, Clone, Copy, PartialEq, Eq, Structural)]
pub enum ReferrerIssueKind {
    UnsafePolicy,
    MultiplePolicies,
    InvalidPolicy,
}

impl ReferrerIssueKind {
    /// The description.
    pub open spec fn label(self) -> Seq<char> {
        match self {
            ReferrerIssueKind::UnsafePolicy => "unsafe referrer policy leaks URL information"@,
            ReferrerIssueKind::MultiplePolicies => "multiple referrer policies may cause confusion"@,
            ReferrerIssueKind::InvalidPolicy => "unrecognized referrer policy value"@,
        }
    }

    /// Renders the label.
    pub fn to_string(&self) -> (s: String)
        ensures s@ == self.label(),
    {
        match self {
            ReferrerIssueKind::UnsafePolicy => String::from_str("unsafe referrer policy leaks URL information"),
            ReferrerIssueKind::MultiplePolicies => String::from_str("multiple referrer policies may cause confusion"),
            ReferrerIssueKind::InvalidPolicy => String::from_str("unrecognized referrer policy value"),
        }
    }
}
#[derive(Debug, Clone, Copy, PartialEq, Eq, Structural)]
pub enum ReferrerSecurityIssue {
    UnsafeUrlPolicy,
    NoReferrerWhenDowngrade,
    OriginCrossOrigin,
    MissingReferrerPolicy,
    ConflictingPolicies,
    ReferrerInMetaTag,
    LinkWithNoReferrer,
    FormWithoutReferrer,
    CrossOriginLinkLeak,
    TokenInReferrer,
}

impl ReferrerSecurityIssue {
    /// The description.
    pub open spec fn label(self) -> Seq<char> {
        match self {
            ReferrerSecurityIssue::UnsafeUrlPolicy => "unsafe-url policy leaks full URL including path and query"@,
            ReferrerSecurityIssue::NoReferrerWhenDowngrade => "no-referrer-when-downgrade leaks referrer on HTTPS to HTTP"@,
            ReferrerSecurityIssue::OriginCrossOrigin => "origin-when-cross-origin may leak path information"@,
            ReferrerSecurityIssue::MissingReferrerPolicy => "missing referrer policy relies on insecure browser default"@,
            ReferrerSecurityIssue::ConflictingPolicies => "meta tag and header referrer policies conflict"@,
            ReferrerSecurityIssue::ReferrerInMetaTag => "referrer policy set via meta tag is weaker than header"@,
            ReferrerSecurityIssue::LinkWithNoReferrer => "selective rel=noreferrer on links may leak from other links"@,
            ReferrerSecurityIssue::FormWithoutReferrer => "forms missing referrer-policy attribute may leak data"@,
            ReferrerSecurityIssue::CrossOriginLinkLeak => "external links without noreferrer leak referrer information"@,
            ReferrerSecurityIssue::TokenInReferrer => "sensitive tokens detected in referrer-leaking URLs"@,
        }
    }

    /// Renders the label.
    pub fn to_string(&self) -> (s: String)
        ensures s@ == self.label(),
    {
        match self {
            ReferrerSecurityIssue::UnsafeUrlPolicy => String::from_str("unsafe-url policy leaks full URL including path and query"),
            ReferrerSecurityIssue::NoReferrerWhenDowngrade => String::from_str("no-referrer-when-downgrade leaks referrer on HTTPS to HTTP"),
            ReferrerSecurityIssue::OriginCrossOrigin => String::from_str("origin-when-cross-origin may leak path information"),
            ReferrerSecurityIssue::MissingReferrerPolicy => String::from_str("missing referrer policy relies on insecure browser default"),
            ReferrerSecurityIssue::ConflictingPolicies => String::from_str("meta tag and header referrer policies conflict"),
            ReferrerSecurityIssue::ReferrerInMetaTag => String::from_str("referrer policy set via meta tag is weaker than header"),
            ReferrerSecurityIssue::LinkWithNoReferrer => String::from_str("selective rel=noreferrer on links may leak from other links"),
            ReferrerSecurityIssue::FormWithoutReferrer => String::from_str("forms missing referrer-policy attribute may leak data"),
            ReferrerSecurityIssue::CrossOriginLinkLeak => String::from_str("external links without noreferrer leak referrer information"),
            ReferrerSecurityIssue::TokenInReferrer => String::from_str("sensitive tokens detected in referrer-leaking URLs"),
        }
    }
}

/// A policy that sends no more than the origin across sites.
pub open spec fn safe_policy(p: Seq<char>) -> bool {
    p == "no-referrer"@ || p == "same-origin"@ || p == "strict-origin"@ || p == "strict-origin-when-cross-origin"@
}

/// A recognised policy that leaks more than that.
pub open spec fn unsafe_policy(p: Seq<char>) -> bool {
    p == "unsafe-url"@ || p == "no-referrer-when-downgrade"@ || p == "origin-when-cross-origin"@ || p == "origin"@
}

fn safe_policy_exec(p: &[char]) -> (r: bool)
    ensures
        r == safe_policy(p@),
{
    eq_text(p, "no-referrer") || eq_text(p, "same-origin") || eq_text(p, "strict-origin") || eq_text(
        p,
        "strict-origin-when-cross-origin",
    )
}

fn unsafe_policy_exec(p: &[char]) -> (r: bool)
    ensures
        r == unsafe_policy(p@),
{
    eq_text(p, "unsafe-url") || eq_text(p, "no-referrer-when-downgrade") || eq_text(p, "origin-when-cross-origin")
        || eq_text(p, "origin")
}

/// One finding about a `Referrer-Policy` value: the policy text it is
/// about and what is wrong with it.
#[derive(Debug, Clone)]
pub struct ReferrerPolicyFinding {
    pub policy: String,
    pub kind: ReferrerIssueKind,
}

/// A `ReferrerPolicyFinding` with its text as a character sequence.
pub struct ReferrerPolicyFindingModel {
    pub policy: Seq<char>,
    pub kind: ReferrerIssueKind,
}

impl View for ReferrerPolicyFinding {
    type V = ReferrerPolicyFindingModel;

    open spec fn view(&self) -> ReferrerPolicyFindingModel {
        ReferrerPolicyFindingModel { policy: self.policy@, kind: self.kind }
    }
}

pub open spec fn finding_views(v: Seq<ReferrerPolicyFinding>) -> Seq<ReferrerPolicyFindingModel> {
    v.map_values(|f: ReferrerPolicyFinding| f@)
}

/// What a `Referrer-Policy` value gives: several comma-separated policies
/// are reported with the whole value; the last one, trimmed and
/// lower-cased, is the effective policy, reported when it is recognised
/// as unsafe or not recognised at all.
pub open spec fn referrer_policy_findings(value: Seq<char>) -> Seq<ReferrerPolicyFindingModel> {
    let policies = split_char(value, ',');
    let effective = lower(trim(policies.last()));
    emit_if(
        policies.len() > 1,
        ReferrerPolicyFindingModel { policy: value, kind: ReferrerIssueKind::MultiplePolicies },
    ) + if safe_policy(effective) {
        Seq::empty()
    } else if unsafe_policy(effective) {
        seq![ReferrerPolicyFindingModel { policy: effective, kind: ReferrerIssueKind::UnsafePolicy }]
    } else if effective.len() > 0 {
        seq![ReferrerPolicyFindingModel { policy: effective, kind: ReferrerIssueKind::InvalidPolicy }]
    } else {
        Seq::empty()
    }
}

proof fn lemma_split_nonempty(s: Seq<char>, c: char)
    ensures
        split_char(s, c).len() >= 1,
    decreases s.len(),
{
    reveal_with_fuel(split_char, 2);
    match index_of_char(s, c) {
        Some(i) => {
            if 0 <= i < s.len() {
                lemma_split_nonempty(s.skip(i + 1), c);
            }
        },
        None => {},
    }
}

/// Classifies a `Referrer-Policy` header value.
pub fn referrer_policy_findings_of(value: &str) -> (findings: Vec<ReferrerPolicyFinding>)
    ensures
        finding_views(findings@) == referrer_policy_findings(value@),
{
    let v = chars_of(value);
    let policies = split_char_exec(v.as_slice(), ',');
    proof {
        lemma_split_nonempty(v@, ',');
    }
    let mut findings: Vec<ReferrerPolicyFinding> = Vec::new();
    if policies.len() > 1 {
        findings.push(ReferrerPolicyFinding { policy: string_of(v.as_slice()), kind: ReferrerIssueKind::MultiplePolicies });
    }
    let ghost head = finding_views(findings@);
    let last = policies.len() - 1;
    assert(char_views(policies@)[last as int] == policies@[last as int]@);
    let t = trim_exec(policies[last].as_slice());
    let effective = lower_chars(t.as_slice());
    if safe_policy_exec(effective.as_slice()) {
    } else if unsafe_policy_exec(effective.as_slice()) {
        findings.push(ReferrerPolicyFinding { policy: string_of(effective.as_slice()), kind: ReferrerIssueKind::UnsafePolicy });
    } else if effective.len() > 0 {
        findings.push(ReferrerPolicyFinding { policy: string_of(effective.as_slice()), kind: ReferrerIssueKind::InvalidPolicy });
    }
    assert(finding_views(findings@) =~= referrer_policy_findings(value@));
    findings
}

/// The content of the first `<meta name="referrer"` tag of the
/// lower-cased page: after the next `content="` and up to the following
/// quote.
#[verifier::opaque]
pub open spec fn meta_policy(l: Seq<char>) -> Option<Seq<char>> {
    match first_index(l, "<meta name=\"referrer\""@) {
        Some(s) => {
            let t = l.skip(s);
            match first_index(t, "content=\""@) {
                Some(c) => {
                    let part = t.skip(c + 9);
                    match index_of_char(part, '"') {
                        Some(e) => Some(part.take(e)),
                        None => None,
                    }
                },
                None => None,
            }
        },
        None => None,
    }
}

fn meta_policy_exec(l: &[char]) -> (r: Option<Vec<char>>)
    ensures
        match meta_policy(l@) {
            Some(m) => r is Some && r->0@ == m,
            None => r is None,
        },
{
    reveal(meta_policy);
    proof {
        reveal_strlit("content=\"");
    }
    let s = match find_first(l, "<meta name=\"referrer\"") {
        Some(s) => s,
        None => return None,
    };
    let t = slice_chars(l, s, l.len());
    assert(t@ =~= l@.skip(s as int));
    let c = match find_first(t.as_slice(), "content=\"") {
        Some(c) => c,
        None => return None,
    };
    let part = slice_chars(t.as_slice(), c + 9, t.len());
    assert(part@ =~= t@.skip(c + 9));
    match find_char(part.as_slice(), '"') {
        Some(e) => {
            let m = slice_chars(part.as_slice(), 0, e);
            assert(m@ =~= part@.take(e as int));
            Some(m)
        },
        None => None,
    }
}

/// Whether a form tag is found at or after `pos` that has no
/// `referrerpolicy=` attribute, scanning tag by tag: each `<form` up to
/// its next `>`, stopping at a form that is never closed.
#[verifier::opaque]
pub open spec fn form_without_policy_from(l: Seq<char>, pos: int) -> bool
    decreases l.len() + 1 - pos,
{
    if pos < 0 || pos > l.len() {
        false
    } else {
        match first_index(l.skip(pos), "<form"@) {
            Some(f) => {
                let start = pos + f;
                match index_of_char(l.skip(start), '>') {
                    Some(e) => if 0 <= f && 0 <= e && start + e < l.len() {
                        !has_substr(l.subrange(start, start + e), "referrerpolicy="@)
                            || form_without_policy_from(l, start + e + 1)
                    } else {
                        false
                    },
                    None => false,
                }
            },
            None => false,
        }
    }
}

proof fn lemma_form_step(l: Seq<char>, pos: int, f: int, e: int)
    requires
        0 <= pos <= l.len(),
        first_index(l.skip(pos), "<form"@) == Some(f),
        index_of_char(l.skip(pos + f), '>') == Some(e),
        0 <= f,
        0 <= e,
        pos + f + e < l.len(),
    ensures
        form_without_policy_from(l, pos) == (!has_substr(l.subrange(pos + f, pos + f + e), "referrerpolicy="@)
            || form_without_policy_from(l, pos + f + e + 1)),
{
    reveal(form_without_policy_from);
}

proof fn lemma_form_stop(l: Seq<char>, pos: int, f: int)
    requires
        0 <= pos <= l.len(),
        first_index(l.skip(pos), "<form"@) is None || (first_index(l.skip(pos), "<form"@) == Some(f)
            && index_of_char(l.skip(pos + f), '>') is None),
    ensures
        !form_without_policy_from(l, pos),
{
    reveal(form_without_policy_from);
}

fn form_without_policy_exec(l: &[char]) -> (r: bool)
    ensures
        r == form_without_policy_from(l@, 0),
{
    let mut pos: usize = 0;
    while pos <= l.len()
        invariant
            pos <= l@.len() + 1,
            form_without_policy_from(l@, pos as int) == form_without_policy_from(l@, 0),
        decreases l.len() + 1 - pos,
    {
        let rest = slice_chars(l, pos, l.len());
        assert(rest@ =~= l@.skip(pos as int));
        let f = match find_first(rest.as_slice(), "<form") {
            Some(f) => f,
            None => {
                proof {
                    lemma_form_stop(l@, pos as int, 0);
                }
                return false;
            },
        };
        let start = pos + f;
        let after = slice_chars(l, start, l.len());
        assert(after@ =~= l@.skip(start as int));
        let e = match find_char(after.as_slice(), '>') {
            Some(e) => e,
            None => {
                proof {
                    lemma_form_stop(l@, pos as int, f as int);
                }
                return false;
            },
        };
        let tag = slice_chars(l, start, start + e);
        proof {
            lemma_form_step(l@, pos as int, f as int, e as int);
        }
        if !has_text(tag.as_slice(), "referrerpolicy=") {
            return true;
        }
        pos = start + e + 1;
    }
    proof {
        reveal(form_without_policy_from);
    }
    false
}

/// The lower-cased page mentions a credential-like query parameter.
#[verifier::opaque]
pub open spec fn token_in_page(l: Seq<char>) -> bool {
    has_substr(l, "token="@) || has_substr(l, "api_key="@) || has_substr(l, "apikey="@) || has_substr(l, "key="@)
        || has_substr(l, "secret="@) || has_substr(l, "auth="@)
}

/// ASCII lower-casing of one byte.
pub open spec fn lower_byte(b: u8) -> u8 {
    if 65 <= b <= 90 { (b + 32) as u8 } else { b }
}

/// The page's UTF-8 bytes, ASCII lower-cased.
pub open spec fn lower_bytes(html: Seq<char>) -> Seq<u8> {
    encode_utf8(html).map_values(|b: u8| lower_byte(b))
}

/// The bytes of an ASCII text.
pub open spec fn ascii_bytes(s: Seq<char>) -> Seq<u8> {
    s.map_values(|c: char| (c as u32) as u8)
}

pub open spec fn bytes_at(hay: Seq<u8>, needle: Seq<u8>, i: int) -> bool {
    0 <= i && i + needle.len() <= hay.len() && hay.subrange(i, i + needle.len()) == needle
}

/// A URL scheme starts at byte `a`.
pub open spec fn scheme_at(b: Seq<u8>, a: int) -> bool {
    bytes_at(b, ascii_bytes("http://"@), a) || bytes_at(b, ascii_bytes("https://"@), a)
}

/// `href=` appears in the ten bytes before byte `a`.
pub open spec fn href_before(b: Seq<u8>, a: int) -> bool {
    exists|j: int| a - 10 <= j && j + 5 <= a && bytes_at(b, ascii_bytes("href="@), j)
}

/// The page links out: some `http://` or `https://` past its first ten
/// bytes has `href=` in the ten bytes before it.
#[verifier::opaque]
pub open spec fn external_link(html: Seq<char>) -> bool {
    let b = lower_bytes(html);
    exists|a: int| a > 10 && #[trigger] scheme_at(b, a) && href_before(b, a)
}

/// Reading the ten bytes before each URL scheme cuts the page at
/// character boundaries.
pub open spec fn link_windows_cut_cleanly(html: Seq<char>) -> bool {
    forall|a: int|
        a > 10 && #[trigger] scheme_at(lower_bytes(html), a) ==> is_char_boundary(encode_utf8(html), a - 10)
}

fn bytes_at_exec(hay: &[u8], needle: &[u8], i: usize) -> (r: bool)
    ensures
        r == bytes_at(hay@, needle@, i as int),
{
    if i > hay.len() || needle.len() > hay.len() - i {
        return false;
    }
    let mut k: usize = 0;
    while k < needle.len()
        invariant
            i + needle.len() <= hay.len(),
            k <= needle.len(),
            forall|j: int| 0 <= j < k ==> hay@[i + j] == needle@[j],
        decreases needle.len() - k,
    {
        if hay[i + k] != needle[k] {
            assert(hay@.subrange(i as int, i + needle.len())[k as int] != needle@[k as int]);
            return false;
        }
        k += 1;
    }
    assert(hay@.subrange(i as int, i + needle.len()) =~= needle@);
    true
}

fn ascii_bytes_of(s: &str) -> (r: Vec<u8>)
    requires
        forall|i: int| 0 <= i < s@.len() ==> ((#[trigger] s@[i]) as u32) < 128,
    ensures
        r@ == ascii_bytes(s@),
{
    let c = chars_of(s);
    let mut r: Vec<u8> = Vec::new();
    let mut i: usize = 0;
    while i < c.len()
        invariant
            c@ == s@,
            i <= c@.len(),
            forall|k: int| 0 <= k < s@.len() ==> ((#[trigger] s@[k]) as u32) < 128,
            r@ == ascii_bytes(s@).take(i as int),
        decreases c.len() - i,
    {
        let ch = c[i];
        let code = ch as u32;
        assert(code < 128);
        r.push(code as u8);
        i += 1;
        assert(r@ =~= ascii_bytes(s@).take(i as int));
    }
    assert(ascii_bytes(s@).take(i as int) =~= ascii_bytes(s@));
    r
}

fn external_link_exec(html: &str) -> (r: bool)
    ensures
        r == external_link(html@),
{
    reveal(external_link);
    let raw = html.as_bytes();
    let mut b: Vec<u8> = Vec::new();
    let mut i: usize = 0;
    while i < raw.len()
        invariant
            raw@ == encode_utf8(html@),
            i <= raw@.len(),
            b@ == lower_bytes(html@).take(i as int),
        decreases raw.len() - i,
    {
        let x = raw[i];
        let y = if 65 <= x && x <= 90 { x + 32 } else { x };
        b.push(y);
        i += 1;
        assert(b@ =~= lower_bytes(html@).take(i as int));
    }
    assert(b@ =~= lower_bytes(html@));
    proof {
        reveal_strlit("http://");
        reveal_strlit("https://");
        reveal_strlit("href=");
    }
    let http = ascii_bytes_of("http://");
    let https = ascii_bytes_of("https://");
    let href = ascii_bytes_of("href=");
    let ghost lb = lower_bytes(html@);
    let mut a: usize = 11;
    while a < b.len()
        invariant
            b@ == lb,
            lb == lower_bytes(html@),
            http@ == ascii_bytes("http://"@),
            https@ == ascii_bytes("https://"@),
            href@ == ascii_bytes("href="@),
            a >= 11,
            forall|k: int| 10 < k < a ==> !(#[trigger] scheme_at(lb, k) && href_before(lb, k)),
        decreases b.len() - a,
    {
        if bytes_at_exec(b.as_slice(), http.as_slice(), a) || bytes_at_exec(b.as_slice(), https.as_slice(), a) {
            let mut j: usize = a - 10;
            while j < a && a - j >= 5
                invariant
                    scheme_at(lb, a as int),
                    lb == lower_bytes(html@),
                    a >= 11,
                    a - 10 <= j,
                    j <= a,
                    b@ == lb,
                    href@ == ascii_bytes("href="@),
                    forall|m: int| a - 10 <= m < j ==> !bytes_at(lb, href@, m),
                decreases a - j,
            {
                if bytes_at_exec(b.as_slice(), href.as_slice(), j) {
                    assert(scheme_at(lb, a as int) && href_before(lb, a as int));
                    proof {
                        reveal(external_link);
                    }
                    return true;
                }
                j += 1;
            }
            assert(!href_before(lb, a as int));
        }
        a += 1;
    }
    assert forall|k: int| k > 10 implies !(#[trigger] scheme_at(lb, k) && href_before(lb, k)) by {
        if k >= a {
            assert(!bytes_at(lb, http@, k));
            assert(!bytes_at(lb, https@, k));
        }
    }
    false
}

/// What `analyze_referrer_security` reports for an optional header policy
/// and a page, in order: conflicts with and use of a meta tag, the
/// effective policy, selective `noreferrer`, leaking links, forms without
/// a policy, and credentials in URLs.
pub open spec fn referrer_security_issues(policy: Option<Seq<char>>, html: Seq<char>) -> Seq<ReferrerSecurityIssue> {
    let l = lower(html);
    let has_header = policy is Some;
    let header = match policy {
        Some(p) => p,
        None => Seq::empty(),
    };
    let meta = meta_policy(l);
    let effective = if has_header {
        header
    } else {
        match meta {
            Some(m) => m,
            None => Seq::empty(),
        }
    };
    let noreferrer = has_substr(html, "rel=\"noreferrer\""@) || has_substr(html, "rel='noreferrer'"@);
    let external = external_link(html);
    meta_issues(meta, has_header, header) + policy_issues(effective) + emit_if(
        noreferrer && external,
        ReferrerSecurityIssue::LinkWithNoReferrer,
    ) + emit_if(external && !safe_policy(lower(effective)) && !noreferrer, ReferrerSecurityIssue::CrossOriginLinkLeak)
        + emit_if(form_without_policy_from(l, 0), ReferrerSecurityIssue::FormWithoutReferrer) + emit_if(
        token_in_page(l),
        ReferrerSecurityIssue::TokenInReferrer,
    )
}

/// The issues of a meta-tag policy next to an optional header policy.
pub open spec fn meta_issues(meta: Option<Seq<char>>, has_header: bool, header: Seq<char>) -> Seq<ReferrerSecurityIssue> {
    match meta {
        Some(m) => emit_if(has_header && lower(m) != lower(header), ReferrerSecurityIssue::ConflictingPolicies)
            + emit_if(has_header || m.len() > 0, ReferrerSecurityIssue::ReferrerInMetaTag),
        None => Seq::empty(),
    }
}

/// The issue of the effective policy, if any.
pub open spec fn policy_issues(effective: Seq<char>) -> Seq<ReferrerSecurityIssue> {
    if effective.len() == 0 {
        seq![ReferrerSecurityIssue::MissingReferrerPolicy]
    } else if lower(effective) == "unsafe-url"@ {
        seq![ReferrerSecurityIssue::UnsafeUrlPolicy]
    } else if lower(effective) == "no-referrer-when-downgrade"@ {
        seq![ReferrerSecurityIssue::NoReferrerWhenDowngrade]
    } else if lower(effective) == "origin-when-cross-origin"@ {
        seq![ReferrerSecurityIssue::OriginCrossOrigin]
    } else {
        Seq::empty()
    }
}

fn policy_issues_exec(issues: &mut Vec<ReferrerSecurityIssue>, effective: &[char])
    ensures
        final(issues)@ == old(issues)@ + policy_issues(effective@),
{
    let le = lower_chars(effective);
    if effective.len() == 0 {
        issues.push(ReferrerSecurityIssue::MissingReferrerPolicy);
    } else if eq_text(le.as_slice(), "unsafe-url") {
        issues.push(ReferrerSecurityIssue::UnsafeUrlPolicy);
    } else if eq_text(le.as_slice(), "no-referrer-when-downgrade") {
        issues.push(ReferrerSecurityIssue::NoReferrerWhenDowngrade);
    } else if eq_text(le.as_slice(), "origin-when-cross-origin") {
        issues.push(ReferrerSecurityIssue::OriginCrossOrigin);
    }
    assert(issues@ =~= old(issues)@ + policy_issues(effective@));
}

fn meta_issues_exec(issues: &mut Vec<ReferrerSecurityIssue>, meta: &Option<Vec<char>>, has_header: bool, header: &[char])
    ensures
        final(issues)@ == old(issues)@ + meta_issues(
            match meta {
                Some(m) => Some(m@),
                None => None,
            },
            has_header,
            header@,
        ),
{
    match meta {
        Some(m) => {
            let lm = lower_chars(m.as_slice());
            let lh = lower_chars(header);
            if has_header && !chars_eq(lm.as_slice(), lh.as_slice()) {
                issues.push(ReferrerSecurityIssue::ConflictingPolicies);
            }
            if has_header || m.len() > 0 {
                issues.push(ReferrerSecurityIssue::ReferrerInMetaTag);
            }
        },
        None => {},
    }
    assert(issues@ =~= old(issues)@ + meta_issues(
        match meta {
            Some(m) => Some(m@),
            None => None,
        },
        has_header,
        header@,
    ));
}

fn token_in_page_exec(lc: &[char]) -> (r: bool)
    ensures
        r == token_in_page(lc@),
{
    reveal(token_in_page);
    has_text(lc, "token=") || has_text(lc, "api_key=") || has_text(lc, "apikey=") || has_text(lc, "key=")
        || has_text(lc, "secret=") || has_text(lc, "auth=")
}

pub open spec fn opt_view(s: Option<&str>) -> Option<Seq<char>> {
    match s {
        Some(t) => Some(t@),
        None => None,
    }
}

/// Examines the referrer policy in effect for a page and what its links,
/// forms and URLs let leak. The ten bytes before each URL scheme that are
/// read must begin at a character boundary.
pub fn analyze_referrer_security(referrer_policy: Option<&str>, html: &str) -> (issues: Vec<ReferrerSecurityIssue>)
    requires
        link_windows_cut_cleanly(html@),
    ensures
        issues@ == referrer_security_issues(opt_view(referrer_policy), html@),
{
    let h = chars_of(html);
    let l = lower_chars(h.as_slice());
    let has_header = referrer_policy.is_some();
    let header: Vec<char> = match referrer_policy {
        Some(p) => chars_of(p),
        None => Vec::new(),
    };
    let meta = meta_policy_exec(l.as_slice());
    let mut issues: Vec<ReferrerSecurityIssue> = Vec::new();
    meta_issues_exec(&mut issues, &meta, has_header, header.as_slice());
    let effective: Vec<char> = if has_header {
        header
    } else {
        match meta {
            Some(m) => m,
            None => Vec::new(),
        }
    };
    policy_issues_exec(&mut issues, effective.as_slice());
    let le = lower_chars(effective.as_slice());
    let noreferrer = has_text(h.as_slice(), "rel=\"noreferrer\"") || has_text(h.as_slice(), "rel='noreferrer'");
    let external = external_link_exec(html);
    if noreferrer && external {
        issues.push(ReferrerSecurityIssue::LinkWithNoReferrer);
    }
    if external && !safe_policy_exec(le.as_slice()) && !noreferrer {
        issues.push(ReferrerSecurityIssue::CrossOriginLinkLeak);
    }
    if form_without_policy_exec(l.as_slice()) {
        issues.push(ReferrerSecurityIssue::FormWithoutReferrer);
    }
    if token_in_page_exec(l.as_slice()) {
        issues.push(ReferrerSecurityIssue::TokenInReferrer);
    }
    assert(issues@ =~= referrer_security_issues(opt_view(referrer_policy), html@));
    issues
}

/// Whether reading the ten bytes before each URL scheme of the page cuts
/// it at character boundaries, as `analyze_referrer_security` needs.
pub fn link_windows_cut_cleanly_exec(html: &str) -> (r: bool)
    ensures
        r == link_windows_cut_cleanly(html@),
{
    let raw = html.as_bytes();
    proof {
        vstd::utf8::encode_utf8_valid_utf8(html@);
        reveal_strlit("http://");
        reveal_strlit("https://");
    }
    let mut b: Vec<u8> = Vec::new();
    let mut i: usize = 0;
    while i < raw.len()
        invariant
            raw@ == encode_utf8(html@),
            i <= raw@.len(),
            b@ == lower_bytes(html@).take(i as int),
        decreases raw.len() - i,
    {
        let x = raw[i];
        let y = if 65 <= x && x <= 90 { x + 32 } else { x };
        b.push(y);
        i += 1;
        assert(b@ =~= lower_bytes(html@).take(i as int));
    }
    assert(b@ =~= lower_bytes(html@));
    let http = ascii_bytes_of("http://");
    let https = ascii_bytes_of("https://");
    let ghost lb = lower_bytes(html@);
    let mut a: usize = 11;
    while a < b.len()
        invariant
            b@ == lb,
            lb == lower_bytes(html@),
            raw@ == encode_utf8(html@),
            vstd::utf8::valid_utf8(raw@),
            lb.len() == raw@.len(),
            http@ == ascii_bytes("http://"@),
            https@ == ascii_bytes("https://"@),
            a >= 11,
            forall|k: int| 10 < k < a && #[trigger] scheme_at(lb, k) ==> is_char_boundary(encode_utf8(html@), k - 10),
        decreases b.len() - a,
    {
        if bytes_at_exec(b.as_slice(), http.as_slice(), a) || bytes_at_exec(b.as_slice(), https.as_slice(), a) {
            let x = raw[a - 10];
            proof {
                vstd::utf8::is_char_boundary_iff_not_is_continuation_byte(raw@, a - 10);
            }
            if 0x80 <= x && x <= 0xbf {
                assert(scheme_at(lb, a as int));
                assert(!is_char_boundary(encode_utf8(html@), a - 10));
                return false;
            }
        }
        a += 1;
    }
    assert forall|k: int| k > 10 && #[trigger] scheme_at(lb, k) implies is_char_boundary(encode_utf8(html@), k - 10) by {
        if k >= a {
            assert(!bytes_at(lb, http@, k));
            assert(!bytes_at(lb, https@, k));
        }
    }
    true
}

/// A policy header and a meta-tag policy conflict exactly when both are
/// present and they differ, ignoring ASCII case: equal policies never
/// conflict, and a page without a header or without a meta-tag policy has
/// no conflict.
pub proof fn law_policies_conflict_only_when_different(policy: Option<Seq<char>>, html: Seq<char>)
    ensures
        referrer_security_issues(policy, html).contains(ReferrerSecurityIssue::ConflictingPolicies) <==> (
        policy matches Some(p) && meta_policy(lower(html)) matches Some(m) && lower(m) != lower(p)),
{
    let x = ReferrerSecurityIssue::ConflictingPolicies;
    let l = lower(html);
    let has_header = policy is Some;
    let header = match policy {
        Some(p) => p,
        None => Seq::empty(),
    };
    let meta = meta_policy(l);
    let effective = if has_header {
        header
    } else {
        match meta {
            Some(m) => m,
            None => Seq::empty(),
        }
    };
    let noreferrer = has_substr(html, "rel=\"noreferrer\""@) || has_substr(html, "rel='noreferrer'"@);
    let external = external_link(html);
    let m0 = meta_issues(meta, has_header, header);
    let q1 = policy_issues(effective);
    let q2 = emit_if(noreferrer && external, ReferrerSecurityIssue::LinkWithNoReferrer);
    let q3 = emit_if(external && !safe_policy(lower(effective)) && !noreferrer, ReferrerSecurityIssue::CrossOriginLinkLeak);
    let q4 = emit_if(form_without_policy_from(l, 0), ReferrerSecurityIssue::FormWithoutReferrer);
    let q5 = emit_if(token_in_page(l), ReferrerSecurityIssue::TokenInReferrer);
    assert(referrer_security_issues(policy, html) == m0 + q1 + q2 + q3 + q4 + q5);
    match meta {
        Some(m) => {
            let c = has_header && lower(m) != lower(header);
            lemma_contains_emit_if(c, x, x);
            lemma_contains_emit_if(has_header || m.len() > 0, ReferrerSecurityIssue::ReferrerInMetaTag, x);
            lemma_contains_add(
                emit_if(c, x),
                emit_if(has_header || m.len() > 0, ReferrerSecurityIssue::ReferrerInMetaTag),
                x,
            );
        },
        None => {},
    }
    assert(!q1.contains(x)) by {
        if q1.len() > 0 {
            assert(q1.len() == 1);
            assert(q1[0] != x);
        }
    }
    lemma_contains_emit_if(noreferrer && external, ReferrerSecurityIssue::LinkWithNoReferrer, x);
    lemma_contains_emit_if(
        external && !safe_policy(lower(effective)) && !noreferrer,
        ReferrerSecurityIssue::CrossOriginLinkLeak,
        x,
    );
    lemma_contains_emit_if(form_without_policy_from(l, 0), ReferrerSecurityIssue::FormWithoutReferrer, x);
    lemma_contains_emit_if(token_in_page(l), ReferrerSecurityIssue::TokenInReferrer, x);
    lemma_contains_add(m0, q1, x);
    lemma_contains_add(m0 + q1, q2, x);
    lemma_contains_add(m0 + q1 + q2, q3, x);
    lemma_contains_add(m0 + q1 + q2 + q3, q4, x);
    lemma_contains_add(m0 + q1 + q2 + q3 + q4, q5, x);
}

} // verus!
