//! Open-redirect analysis of `Location` headers.
use vstd::prelude::*;
use crate::strings::{find_char, index_of_char};
use crate::text::{
    push_decimal, push_str, string_of,
    chars_of, emit_if, find_from, has_substr, has_text, is_prefix, lower, lower_chars, occurs_at,
    push_if, slice_chars, starts_with,
};

verus! {

/// Query parameters commonly used for redirect targets.
pub const REDIRECT_PARAMS: [&'static str; 17] = [
    "url",
    "redirect",
    "next",
    "return",
    "redir",
    "return_to",
    "redirect_uri",
    "continue",
    "dest",
    "destination",
    "go",
    "target",
    "out",
    "view",
    "login",
    "link",
    "forward",
];

/// The external URL injected into redirect parameters.
pub const CANARY_URL: &'static str = "https://evil.example.com";

#[derive(Debug, Clone, PartialEq)]
pub enum RedirectIssue {
    OpenRedirect { param: String, location: String },
    JavascriptRedirect { param: String },
    DataUriRedirect { param: String },
    MetaRefreshRedirect { url: String },
    DoubleEncodedRedirect { param: String },
    RelativePathBypass { param: String, location: String },
    FragmentRedirect { param: String, location: String },
    HttpToHttpsDowngrade { param: String, location: String },
    RedirectChain { param: String, hops: usize },
    HeaderInjection { param: String },
}

/// A `RedirectIssue` with its text fields as character sequences.
pub enum RedirectIssueModel {
    OpenRedirect { param: Seq<char>, location: Seq<char> },
    JavascriptRedirect { param: Seq<char> },
    DataUriRedirect { param: Seq<char> },
    MetaRefreshRedirect { url: Seq<char> },
    DoubleEncodedRedirect { param: Seq<char> },
    RelativePathBypass { param: Seq<char>, location: Seq<char> },
    FragmentRedirect { param: Seq<char>, location: Seq<char> },
    HttpToHttpsDowngrade { param: Seq<char>, location: Seq<char> },
    RedirectChain { param: Seq<char>, hops: usize },
    HeaderInjection { param: Seq<char> },
}

impl View for RedirectIssue {
    type V = RedirectIssueModel;

    open spec fn view(&self) -> RedirectIssueModel {
        match self {
            RedirectIssue::OpenRedirect { param, location } => RedirectIssueModel::OpenRedirect {
                param: param@,
                location: location@,
            },
            RedirectIssue::JavascriptRedirect { param } => RedirectIssueModel::JavascriptRedirect { param: param@ },
            RedirectIssue::DataUriRedirect { param } => RedirectIssueModel::DataUriRedirect { param: param@ },
            RedirectIssue::MetaRefreshRedirect { url } => RedirectIssueModel::MetaRefreshRedirect { url: url@ },
            RedirectIssue::DoubleEncodedRedirect { param } => RedirectIssueModel::DoubleEncodedRedirect {
                param: param@,
            },
            RedirectIssue::RelativePathBypass { param, location } => RedirectIssueModel::RelativePathBypass {
                param: param@,
                location: location@,
            },
            RedirectIssue::FragmentRedirect { param, location } => RedirectIssueModel::FragmentRedirect {
                param: param@,
                location: location@,
            },
            RedirectIssue::HttpToHttpsDowngrade { param, location } => RedirectIssueModel::HttpToHttpsDowngrade {
                param: param@,
                location: location@,
            },
            RedirectIssue::RedirectChain { param, hops } => RedirectIssueModel::RedirectChain {
                param: param@,
                hops: *hops,
            },
            RedirectIssue::HeaderInjection { param } => RedirectIssueModel::HeaderInjection { param: param@ },
        }
    }
}

pub open spec fn redirect_views(v: Seq<RedirectIssue>) -> Seq<RedirectIssueModel> {
    v.map_values(|i: RedirectIssue| i@)
}

/// The location points at the injected canary host.
pub open spec fn external_redirect(loc: Seq<char>) -> bool {
    is_prefix("https://evil.example.com"@, loc) || is_prefix("http://evil.example.com"@, loc)
        || is_prefix("//evil.example.com"@, loc)
}

pub fn is_external_redirect(location: &str) -> (r: bool)
    ensures r == external_redirect(location@),
{
    let chars = chars_of(location);
    let l = chars.as_slice();
    starts_with(l, "https://evil.example.com") || starts_with(l, "http://evil.example.com")
        || starts_with(l, "//evil.example.com")
}

/// The text after the first `#` of `s`, if it has one.
pub open spec fn after_first_hash(s: Seq<char>) -> Option<Seq<char>> {
    if exists|i: int| 0 <= i < s.len() && s[i] == '#' {
        let i = choose|i: int| 0 <= i < s.len() && s[i] == '#' && forall|j: int| 0 <= j < i ==> s[j] != '#';
        Some(s.subrange(i + 1, s.len() as int))
    } else {
        None
    }
}

/// The fragment of the location targets another site.
pub open spec fn fragment_redirects(loc: Seq<char>) -> bool {
    match after_first_hash(loc) {
        Some(f) => is_prefix("http://"@, lower(f)) || is_prefix("https://"@, lower(f)) || is_prefix("//"@, lower(f)),
        None => false,
    }
}

/// The issues that `analyze_redirect_location` reports, in report order.
pub open spec fn redirect_issues(loc: Seq<char>, param: Seq<char>) -> Seq<RedirectIssueModel> {
    let low = lower(loc);
    if loc.len() == 0 {
        Seq::empty()
    } else {
        emit_if(is_prefix("javascript:"@, low), RedirectIssueModel::JavascriptRedirect { param })
        + emit_if(is_prefix("data:"@, low), RedirectIssueModel::DataUriRedirect { param })
        + emit_if(has_substr(low, "%252f"@) || has_substr(low, "%2f%2f"@),
            RedirectIssueModel::DoubleEncodedRedirect { param })
        + emit_if(is_prefix("/\\"@, loc) || is_prefix("\\/"@, loc),
            RedirectIssueModel::RelativePathBypass { param, location: loc })
        + emit_if(fragment_redirects(loc), RedirectIssueModel::FragmentRedirect { param, location: loc })
        + emit_if(is_prefix("http://"@, low), RedirectIssueModel::HttpToHttpsDowngrade { param, location: loc })
        + emit_if(external_redirect(loc), RedirectIssueModel::OpenRedirect { param, location: loc })
    }
}

/// Whether the fragment of `loc` targets another site.
fn fragment_redirects_exec(loc: &[char]) -> (r: bool)
    ensures r == fragment_redirects(loc@),
{
    let hash = ['#'];
    match find_from(loc, &hash, 0) {
        Some(i) => {
            proof {
                assert(occurs_at(loc@, hash@, i as int));
                assert(loc@.subrange(i as int, i + 1)[0] == '#');
                assert(loc@[i as int] == '#');
                assert forall|j: int| 0 <= j < i implies loc@[j] != '#' by {
                    if loc@[j] == '#' {
                        assert(loc@.subrange(j, j + 1) =~= hash@);
                        assert(occurs_at(loc@, hash@, j));
                    }
                }
            }
            assert(i < loc.len());
            let frag = slice_chars(loc, i + 1, loc.len());
            let fl = lower_chars(frag.as_slice());
            let f = fl.as_slice();
            starts_with(f, "http://") || starts_with(f, "https://") || starts_with(f, "//")
        },
        None => {
            proof {
                assert forall|j: int| 0 <= j < loc@.len() implies loc@[j] != '#' by {
                    if loc@[j] == '#' {
                        assert(loc@.subrange(j, j + 1) =~= hash@);
                        assert(occurs_at(loc@, hash@, j));
                    }
                }
            }
            false
        },
    }
}

/// Appends `x` to `v` when `cond` holds.
fn push_issue_if(v: &mut Vec<RedirectIssue>, cond: bool, x: RedirectIssue)
    ensures
        redirect_views(final(v)@) == redirect_views(old(v)@) + emit_if(cond, x@),
{
    if cond {
        v.push(x);
        assert(redirect_views(final(v)@) =~= redirect_views(old(v)@) + emit_if(cond, x@));
    } else {
        assert(redirect_views(final(v)@) =~= redirect_views(old(v)@) + emit_if(cond, x@));
    }
}

pub fn analyze_redirect_location(location: &str, param: &str) -> (issues: Vec<RedirectIssue>)
    ensures redirect_views(issues@) == redirect_issues(location@, param@),
{
    let mut issues: Vec<RedirectIssue> = Vec::new();
    if location.is_empty() {
        assert(redirect_views(issues@) =~= redirect_issues(location@, param@));
        return issues;
    }
    let chars = chars_of(location);
    let loc = chars.as_slice();
    let low_v = lower_chars(loc);
    let low = low_v.as_slice();
    let javascript = starts_with(low, "javascript:");
    let data = starts_with(low, "data:");
    let double_encoded = has_text(low, "%252f") || has_text(low, "%2f%2f");
    let backslash = starts_with(loc, "/\\") || starts_with(loc, "\\/");
    let fragment = fragment_redirects_exec(loc);
    let http = starts_with(low, "http://");
    let external = is_external_redirect(location);
    assert(redirect_views(issues@) =~= Seq::<RedirectIssueModel>::empty());
    push_issue_if(&mut issues, javascript, RedirectIssue::JavascriptRedirect { param: String::from_str(param) });
    push_issue_if(&mut issues, data, RedirectIssue::DataUriRedirect { param: String::from_str(param) });
    push_issue_if(&mut issues, double_encoded, RedirectIssue::DoubleEncodedRedirect { param: String::from_str(param) });
    push_issue_if(&mut issues, backslash, RedirectIssue::RelativePathBypass {
        param: String::from_str(param),
        location: String::from_str(location),
    });
    push_issue_if(&mut issues, fragment, RedirectIssue::FragmentRedirect {
        param: String::from_str(param),
        location: String::from_str(location),
    });
    push_issue_if(&mut issues, http, RedirectIssue::HttpToHttpsDowngrade {
        param: String::from_str(param),
        location: String::from_str(location),
    });
    push_issue_if(&mut issues, external, RedirectIssue::OpenRedirect {
        param: String::from_str(param),
        location: String::from_str(location),
    });
    issues
}

impl RedirectIssueModel {
    /// The issue's description.
    pub open spec fn message(self) -> Seq<char> {
        match self {
            RedirectIssueModel::OpenRedirect { param, location } => "open_redirect: param="@ + param + " location="@ + location,
            RedirectIssueModel::JavascriptRedirect { param } => "javascript_redirect: param="@ + param,
            RedirectIssueModel::DataUriRedirect { param } => "data_uri_redirect: param="@ + param,
            RedirectIssueModel::MetaRefreshRedirect { url } => "meta_refresh_redirect: url="@ + url,
            RedirectIssueModel::DoubleEncodedRedirect { param } => "double_encoded_redirect: param="@ + param,
            RedirectIssueModel::RelativePathBypass { param, location } => "relative_path_bypass: param="@ + param + " location="@ + location,
            RedirectIssueModel::FragmentRedirect { param, location } => "fragment_redirect: param="@ + param + " location="@ + location,
            RedirectIssueModel::HttpToHttpsDowngrade { param, location } => "http_to_https_downgrade: param="@ + param + " location="@ + location,
            RedirectIssueModel::RedirectChain { param, hops } => "redirect_chain: param="@ + param + " hops="@ + crate::text::decimal(hops as nat),
            RedirectIssueModel::HeaderInjection { param } => "header_injection: param="@ + param,
        }
    }
}

impl RedirectIssue {
    /// Renders the issue's description.
    pub fn to_string(&self) -> (s: String)
        ensures
            s@ == self@.message(),
    {
        let mut out: Vec<char> = Vec::new();
        match self {
            RedirectIssue::OpenRedirect { param, location } => {
                push_str(&mut out, "open_redirect: param=");
                push_str(&mut out, param.as_str());
                push_str(&mut out, " location=");
                push_str(&mut out, location.as_str());
            },
            RedirectIssue::JavascriptRedirect { param } => {
                push_str(&mut out, "javascript_redirect: param=");
                push_str(&mut out, param.as_str());
            },
            RedirectIssue::DataUriRedirect { param } => {
                push_str(&mut out, "data_uri_redirect: param=");
                push_str(&mut out, param.as_str());
            },
            RedirectIssue::MetaRefreshRedirect { url } => {
                push_str(&mut out, "meta_refresh_redirect: url=");
                push_str(&mut out, url.as_str());
            },
            RedirectIssue::DoubleEncodedRedirect { param } => {
                push_str(&mut out, "double_encoded_redirect: param=");
                push_str(&mut out, param.as_str());
            },
            RedirectIssue::RelativePathBypass { param, location } => {
                push_str(&mut out, "relative_path_bypass: param=");
                push_str(&mut out, param.as_str());
                push_str(&mut out, " location=");
                push_str(&mut out, location.as_str());
            },
            RedirectIssue::FragmentRedirect { param, location } => {
                push_str(&mut out, "fragment_redirect: param=");
                push_str(&mut out, param.as_str());
                push_str(&mut out, " location=");
                push_str(&mut out, location.as_str());
            },
            RedirectIssue::HttpToHttpsDowngrade { param, location } => {
                push_str(&mut out, "http_to_https_downgrade: param=");
                push_str(&mut out, param.as_str());
                push_str(&mut out, " location=");
                push_str(&mut out, location.as_str());
            },
            RedirectIssue::RedirectChain { param, hops } => {
                push_str(&mut out, "redirect_chain: param=");
                push_str(&mut out, param.as_str());
                push_str(&mut out, " hops=");
                push_decimal(&mut out, *hops as u64);
            },
            RedirectIssue::HeaderInjection { param } => {
                push_str(&mut out, "header_injection: param=");
                push_str(&mut out, param.as_str());
            },
        }
        string_of(out.as_slice())
    }
}

/// The URL that probes `param`: the target, then `&` if it already has a
/// query and `?` otherwise, then `param=` and the canary URL.
pub open spec fn redirect_probe(target: Seq<char>, param: Seq<char>) -> Seq<char> {
    target + (if index_of_char(target, '?') is Some { seq!['&'] } else { seq!['?'] }) + param + "="@
        + "https://evil.example.com"@
}

/// Builds the URL that probes `param` on `target`.
pub fn redirect_probe_url(target: &str, param: &str) -> (url: String)
    ensures
        url@ == redirect_probe(target@, param@),
{
    let mut out = chars_of(target);
    if find_char(out.as_slice(), '?').is_some() {
        out.push('&');
    } else {
        out.push('?');
    }
    push_str(&mut out, param);
    push_str(&mut out, "=");
    push_str(&mut out, CANARY_URL);
    string_of(out.as_slice())
}

/// A 3xx status: only redirect responses are read.
pub fn is_redirect_status(status: u16) -> (r: bool)
    ensures
        r == (300 <= status < 400),
{
    300 <= status && status < 400
}

} // verus!
