//! What proxy and cache headers disclose about the infrastructure in front
//! of a site.
use vstd::prelude::*;
use crate::strings::{char_views, split_char, split_char_exec, trim, trim_exec};
use crate::text::{
    chars_eq, chars_of, emit_if, has_substr, has_text, is_prefix, parse_u64, parse_u64_spec, push_decimal,
    push_str, starts_with, string_of,
};

verus! {

#[derive(Debug, Clone, PartialEq)]
pub enum ProxyHeaderIssue {
    ViaProxyLeak { value: String },
    AgePresent { seconds: String },
    XCacheHit { status: String },
    XForwardedFor { ips: String },
    XForwardedHost { host: String },
    XRealIp { ip: String },
    CdnIdentified { cdn: String },
    InternalIpLeak { ip: String },
    ProxyChainLength { count: usize },
    ServerTimingLeak { value: String },
}

/// A `ProxyHeaderIssue` with its text fields as character sequences.
pub enum ProxyHeaderIssueModel {
    ViaProxyLeak { value: Seq<char> },
    AgePresent { seconds: Seq<char> },
    XCacheHit { status: Seq<char> },
    XForwardedFor { ips: Seq<char> },
    XForwardedHost { host: Seq<char> },
    XRealIp { ip: Seq<char> },
    CdnIdentified { cdn: Seq<char> },
    InternalIpLeak { ip: Seq<char> },
    ProxyChainLength { count: usize },
    ServerTimingLeak { value: Seq<char> },
}

impl View for ProxyHeaderIssue {
    type V = ProxyHeaderIssueModel;

    open spec fn view(&self) -> ProxyHeaderIssueModel {
        match self {
            ProxyHeaderIssue::ViaProxyLeak { value } => ProxyHeaderIssueModel::ViaProxyLeak { value: value@ },
            ProxyHeaderIssue::AgePresent { seconds } => ProxyHeaderIssueModel::AgePresent { seconds: seconds@ },
            ProxyHeaderIssue::XCacheHit { status } => ProxyHeaderIssueModel::XCacheHit { status: status@ },
            ProxyHeaderIssue::XForwardedFor { ips } => ProxyHeaderIssueModel::XForwardedFor { ips: ips@ },
            ProxyHeaderIssue::XForwardedHost { host } => ProxyHeaderIssueModel::XForwardedHost { host: host@ },
            ProxyHeaderIssue::XRealIp { ip } => ProxyHeaderIssueModel::XRealIp { ip: ip@ },
            ProxyHeaderIssue::CdnIdentified { cdn } => ProxyHeaderIssueModel::CdnIdentified { cdn: cdn@ },
            ProxyHeaderIssue::InternalIpLeak { ip } => ProxyHeaderIssueModel::InternalIpLeak { ip: ip@ },
            ProxyHeaderIssue::ProxyChainLength { count } => ProxyHeaderIssueModel::ProxyChainLength { count: *count },
            ProxyHeaderIssue::ServerTimingLeak { value } => ProxyHeaderIssueModel::ServerTimingLeak {
                value: value@,
            },
        }
    }
}

pub open spec fn proxy_views(v: Seq<ProxyHeaderIssue>) -> Seq<ProxyHeaderIssueModel> {
    v.map_values(|i: ProxyHeaderIssue| i@)
}

/// The values of the headers named `name` among the first `k`, in order.
pub open spec fn values_named(h: Seq<(&str, &str)>, name: Seq<char>, k: int) -> Seq<Seq<char>>
    decreases k,
{
    if k <= 0 {
        Seq::empty()
    } else {
        values_named(h, name, k - 1) + if h[k - 1].0@ == name {
            seq![h[k - 1].1@]
        } else {
            Seq::empty()
        }
    }
}

/// The values of every header named `name`, in order.
pub open spec fn header_values(h: Seq<(&str, &str)>, name: Seq<char>) -> Seq<Seq<char>> {
    values_named(h, name, h.len() as int)
}

/// An address in 10.0.0.0/8, 192.168.0.0/16 or 172.16.0.0/12, read from
/// its leading text.
#[verifier::opaque]
pub open spec fn internal_ip(ip: Seq<char>) -> bool {
    ||| is_prefix("10."@, ip)
    ||| is_prefix("192.168."@, ip)
    ||| is_prefix("172."@, ip) && split_char(ip, '.').len() >= 2 && match parse_u64_spec(split_char(ip, '.')[1]) {
        Some(v) => 16 <= v <= 31,
        None => false,
    }
}

/// The CDN tokens that `v` names, in the order cloudflare, akamai,
/// cloudfront, fastly.
pub open spec fn cdn_issues(v: Seq<char>) -> Seq<ProxyHeaderIssueModel> {
    emit_if(has_substr(v, "cloudflare"@), ProxyHeaderIssueModel::CdnIdentified { cdn: "cloudflare"@ }) + emit_if(
        has_substr(v, "akamai"@),
        ProxyHeaderIssueModel::CdnIdentified { cdn: "akamai"@ },
    ) + emit_if(has_substr(v, "cloudfront"@), ProxyHeaderIssueModel::CdnIdentified { cdn: "cloudfront"@ })
        + emit_if(has_substr(v, "fastly"@), ProxyHeaderIssueModel::CdnIdentified { cdn: "fastly"@ })
}

/// The internal addresses among the first `k` comma-separated, trimmed
/// entries of an `X-Forwarded-For` value.
pub open spec fn internal_ips_upto(entries: Seq<Seq<char>>, k: int) -> Seq<ProxyHeaderIssueModel>
    decreases k,
{
    if k <= 0 {
        Seq::empty()
    } else {
        internal_ips_upto(entries, k - 1) + emit_if(
            internal_ip(trim(entries[k - 1])),
            ProxyHeaderIssueModel::InternalIpLeak { ip: trim(entries[k - 1]) },
        )
    }
}

pub open spec fn internal_ips(v: Seq<char>) -> Seq<ProxyHeaderIssueModel> {
    internal_ips_upto(split_char(v, ','), split_char(v, ',').len() as int)
}

/// Which header a pass over the values looks at, and what each value gives.
#[derive(Clone, Copy, PartialEq, Eq, Structural)]
pub enum HeaderRule {
    Via,
    ViaCdn,
    Age,
    XCache,
    ForwardedFor,
    ForwardedHost,
    RealIp,
    ServerCdn,
    ServerTiming,
}

impl HeaderRule {
    /// The header name that the rule reads.
    pub open spec fn header(self) -> Seq<char> {
        match self {
            HeaderRule::Via | HeaderRule::ViaCdn => "via"@,
            HeaderRule::Age => "age"@,
            HeaderRule::XCache => "x-cache"@,
            HeaderRule::ForwardedFor => "x-forwarded-for"@,
            HeaderRule::ForwardedHost => "x-forwarded-host"@,
            HeaderRule::RealIp => "x-real-ip"@,
            HeaderRule::ServerCdn => "server"@,
            HeaderRule::ServerTiming => "server-timing"@,
        }
    }

    /// The issues of one value of that header.
    pub open spec fn issues(self, v: Seq<char>) -> Seq<ProxyHeaderIssueModel> {
        match self {
            HeaderRule::Via => seq![ProxyHeaderIssueModel::ViaProxyLeak { value: v }],
            HeaderRule::ViaCdn | HeaderRule::ServerCdn => cdn_issues(v),
            HeaderRule::Age => seq![ProxyHeaderIssueModel::AgePresent { seconds: v }],
            HeaderRule::XCache => seq![ProxyHeaderIssueModel::XCacheHit { status: v }],
            HeaderRule::ForwardedFor => seq![ProxyHeaderIssueModel::XForwardedFor { ips: v }] + internal_ips(v),
            HeaderRule::ForwardedHost => seq![ProxyHeaderIssueModel::XForwardedHost { host: v }],
            HeaderRule::RealIp => seq![ProxyHeaderIssueModel::XRealIp { ip: v }],
            HeaderRule::ServerTiming => seq![ProxyHeaderIssueModel::ServerTimingLeak { value: v }],
        }
    }
}

/// The issues of the first `k` values under `rule`.
pub open spec fn rule_issues_upto(rule: HeaderRule, vals: Seq<Seq<char>>, k: int) -> Seq<ProxyHeaderIssueModel>
    decreases k,
{
    if k <= 0 {
        Seq::empty()
    } else {
        rule_issues_upto(rule, vals, k - 1) + rule.issues(vals[k - 1])
    }
}

/// The issues of every header that `rule` reads.
pub open spec fn rule_issues(rule: HeaderRule, h: Seq<(&str, &str)>) -> Seq<ProxyHeaderIssueModel> {
    let vals = header_values(h, rule.header());
    rule_issues_upto(rule, vals, vals.len() as int)
}

/// What `analyze_proxy_headers` reports, in order: `Via` values, the
/// length of a proxy chain, CDNs named in `Via`, then `Age`, `X-Cache`,
/// `X-Forwarded-For` with its internal addresses, `X-Forwarded-Host`,
/// `X-Real-IP`, CDNs named in `Server`, and `Server-Timing`.
pub open spec fn proxy_issues(h: Seq<(&str, &str)>) -> Seq<ProxyHeaderIssueModel> {
    let via = header_values(h, "via"@);
    rule_issues(HeaderRule::Via, h) + emit_if(
        via.len() > 1,
        ProxyHeaderIssueModel::ProxyChainLength { count: via.len() as usize },
    ) + rule_issues(HeaderRule::ViaCdn, h) + rule_issues(HeaderRule::Age, h) + rule_issues(HeaderRule::XCache, h)
        + rule_issues(HeaderRule::ForwardedFor, h) + rule_issues(HeaderRule::ForwardedHost, h) + rule_issues(
        HeaderRule::RealIp,
        h,
    ) + rule_issues(HeaderRule::ServerCdn, h) + rule_issues(HeaderRule::ServerTiming, h)
}

fn push_issue(v: &mut Vec<ProxyHeaderIssue>, x: ProxyHeaderIssue)
    ensures
        proxy_views(final(v)@) == proxy_views(old(v)@).push(x@),
{
    v.push(x);
    assert(proxy_views(v@) =~= proxy_views(old(v)@).push(x@));
}

fn header_name(rule: HeaderRule) -> (r: &'static str)
    ensures
        r@ == rule.header(),
{
    match rule {
        HeaderRule::Via | HeaderRule::ViaCdn => "via",
        HeaderRule::Age => "age",
        HeaderRule::XCache => "x-cache",
        HeaderRule::ForwardedFor => "x-forwarded-for",
        HeaderRule::ForwardedHost => "x-forwarded-host",
        HeaderRule::RealIp => "x-real-ip",
        HeaderRule::ServerCdn => "server",
        HeaderRule::ServerTiming => "server-timing",
    }
}

/// The values of the headers named `name`, in order.
fn values_exec(headers: &[(&str, &str)], name: &str) -> (vals: Vec<Vec<char>>)
    ensures
        char_views(vals@) == header_values(headers@, name@),
{
    let n = chars_of(name);
    let mut vals: Vec<Vec<char>> = Vec::new();
    let mut i: usize = 0;
    while i < headers.len()
        invariant
            i <= headers@.len(),
            n@ == name@,
            char_views(vals@) == values_named(headers@, name@, i as int),
        decreases headers.len() - i,
    {
        let (hn, hv) = headers[i];
        let hc = chars_of(hn);
        if chars_eq(hc.as_slice(), n.as_slice()) {
            vals.push(chars_of(hv));
        }
        i += 1;
        assert(char_views(vals@) =~= values_named(headers@, name@, i as int));
    }
    vals
}

fn internal_ip_exec(ip: &[char]) -> (r: bool)
    ensures
        r == internal_ip(ip@),
{
    reveal(internal_ip);
    if starts_with(ip, "10.") || starts_with(ip, "192.168.") {
        return true;
    }
    if !starts_with(ip, "172.") {
        return false;
    }
    let parts = split_char_exec(ip, '.');
    if parts.len() < 2 {
        return false;
    }
    assert(char_views(parts@)[1] == parts@[1]@);
    match parse_u64(parts[1].as_slice()) {
        Some(v) => 16 <= v && v <= 31,
        None => false,
    }
}

fn push_cdn(issues: &mut Vec<ProxyHeaderIssue>, v: &[char])
    ensures
        proxy_views(final(issues)@) == proxy_views(old(issues)@) + cdn_issues(v@),
{
    if has_text(v, "cloudflare") {
        push_issue(issues, ProxyHeaderIssue::CdnIdentified { cdn: String::from_str("cloudflare") });
    }
    if has_text(v, "akamai") {
        push_issue(issues, ProxyHeaderIssue::CdnIdentified { cdn: String::from_str("akamai") });
    }
    if has_text(v, "cloudfront") {
        push_issue(issues, ProxyHeaderIssue::CdnIdentified { cdn: String::from_str("cloudfront") });
    }
    if has_text(v, "fastly") {
        push_issue(issues, ProxyHeaderIssue::CdnIdentified { cdn: String::from_str("fastly") });
    }
    assert(proxy_views(issues@) =~= proxy_views(old(issues)@) + cdn_issues(v@));
}

fn push_internal_ips(issues: &mut Vec<ProxyHeaderIssue>, v: &[char])
    ensures
        proxy_views(final(issues)@) == proxy_views(old(issues)@) + internal_ips(v@),
{
    let entries = split_char_exec(v, ',');
    let ghost es = split_char(v@, ',');
    let ghost start = proxy_views(issues@);
    let mut i: usize = 0;
    while i < entries.len()
        invariant
            i <= entries@.len(),
            char_views(entries@) == es,
            proxy_views(issues@) == start + internal_ips_upto(es, i as int),
        decreases entries.len() - i,
    {
        assert(entries@[i as int]@ == es[i as int]);
        let ip = trim_exec(entries[i].as_slice());
        if internal_ip_exec(ip.as_slice()) {
            push_issue(issues, ProxyHeaderIssue::InternalIpLeak { ip: string_of(ip.as_slice()) });
        }
        i += 1;
        assert(proxy_views(issues@) =~= start + internal_ips_upto(es, i as int));
    }
}

fn push_value_issues(issues: &mut Vec<ProxyHeaderIssue>, rule: HeaderRule, v: &[char])
    ensures
        proxy_views(final(issues)@) == proxy_views(old(issues)@) + rule.issues(v@),
{
    let s = string_of(v);
    match rule {
        HeaderRule::Via => push_issue(issues, ProxyHeaderIssue::ViaProxyLeak { value: s }),
        HeaderRule::ViaCdn | HeaderRule::ServerCdn => push_cdn(issues, v),
        HeaderRule::Age => push_issue(issues, ProxyHeaderIssue::AgePresent { seconds: s }),
        HeaderRule::XCache => push_issue(issues, ProxyHeaderIssue::XCacheHit { status: s }),
        HeaderRule::ForwardedFor => {
            push_issue(issues, ProxyHeaderIssue::XForwardedFor { ips: s });
            let ghost mid = proxy_views(issues@);
            push_internal_ips(issues, v);
            assert(proxy_views(issues@) =~= proxy_views(old(issues)@) + rule.issues(v@));
        },
        HeaderRule::ForwardedHost => push_issue(issues, ProxyHeaderIssue::XForwardedHost { host: s }),
        HeaderRule::RealIp => push_issue(issues, ProxyHeaderIssue::XRealIp { ip: s }),
        HeaderRule::ServerTiming => push_issue(issues, ProxyHeaderIssue::ServerTimingLeak { value: s }),
    }
    assert(proxy_views(issues@) =~= proxy_views(old(issues)@) + rule.issues(v@));
}

fn apply_rule(issues: &mut Vec<ProxyHeaderIssue>, rule: HeaderRule, vals: &Vec<Vec<char>>)
    ensures
        proxy_views(final(issues)@) == proxy_views(old(issues)@) + rule_issues_upto(
            rule,
            char_views(vals@),
            vals@.len() as int,
        ),
{
    let ghost start = proxy_views(issues@);
    let mut i: usize = 0;
    while i < vals.len()
        invariant
            i <= vals@.len(),
            proxy_views(issues@) == start + rule_issues_upto(rule, char_views(vals@), i as int),
        decreases vals.len() - i,
    {
        assert(char_views(vals@)[i as int] == vals@[i as int]@);
        push_value_issues(issues, rule, vals[i].as_slice());
        i += 1;
        assert(proxy_views(issues@) =~= start + rule_issues_upto(rule, char_views(vals@), i as int));
    }
}

fn apply_header_rule(issues: &mut Vec<ProxyHeaderIssue>, rule: HeaderRule, headers: &[(&str, &str)])
    ensures
        proxy_views(final(issues)@) == proxy_views(old(issues)@) + rule_issues(rule, headers@),
{
    let vals = values_exec(headers, header_name(rule));
    assert(vals@.len() == char_views(vals@).len());
    apply_rule(issues, rule, &vals);
}

/// Examines the response headers, each given as a lower-case name and its
/// value.
pub fn analyze_proxy_headers(headers: &[(&str, &str)]) -> (issues: Vec<ProxyHeaderIssue>)
    ensures
        proxy_views(issues@) == proxy_issues(headers@),
{
    let mut issues: Vec<ProxyHeaderIssue> = Vec::new();
    let via = values_exec(headers, "via");
    apply_header_rule(&mut issues, HeaderRule::Via, headers);
    let ghost a = proxy_views(issues@);
    if via.len() > 1 {
        push_issue(&mut issues, ProxyHeaderIssue::ProxyChainLength { count: via.len() });
    }
    let ghost b = proxy_views(issues@);
    apply_header_rule(&mut issues, HeaderRule::ViaCdn, headers);
    apply_header_rule(&mut issues, HeaderRule::Age, headers);
    apply_header_rule(&mut issues, HeaderRule::XCache, headers);
    apply_header_rule(&mut issues, HeaderRule::ForwardedFor, headers);
    apply_header_rule(&mut issues, HeaderRule::ForwardedHost, headers);
    apply_header_rule(&mut issues, HeaderRule::RealIp, headers);
    apply_header_rule(&mut issues, HeaderRule::ServerCdn, headers);
    apply_header_rule(&mut issues, HeaderRule::ServerTiming, headers);
    assert(via@.len() == header_values(headers@, "via"@).len());
    assert(proxy_views(issues@) =~= proxy_issues(headers@));
    issues
}

impl ProxyHeaderIssueModel {
    /// The issue's description.
    pub open spec fn message(self) -> Seq<char> {
        match self {
            ProxyHeaderIssueModel::ViaProxyLeak { value } => "via_proxy_leak:"@ + value,
            ProxyHeaderIssueModel::AgePresent { seconds } => "age_present:"@ + seconds,
            ProxyHeaderIssueModel::XCacheHit { status } => "x_cache_hit:"@ + status,
            ProxyHeaderIssueModel::XForwardedFor { ips } => "x_forwarded_for:"@ + ips,
            ProxyHeaderIssueModel::XForwardedHost { host } => "x_forwarded_host:"@ + host,
            ProxyHeaderIssueModel::XRealIp { ip } => "x_real_ip:"@ + ip,
            ProxyHeaderIssueModel::CdnIdentified { cdn } => "cdn_identified:"@ + cdn,
            ProxyHeaderIssueModel::InternalIpLeak { ip } => "internal_ip_leak:"@ + ip,
            ProxyHeaderIssueModel::ProxyChainLength { count } => "proxy_chain_length:"@ + crate::text::decimal(
                count as nat,
            ),
            ProxyHeaderIssueModel::ServerTimingLeak { value } => "server_timing_leak:"@ + value,
        }
    }
}

impl ProxyHeaderIssue {
    /// Renders the issue's description.
    pub fn to_string(&self) -> (s: String)
        ensures
            s@ == self@.message(),
    {
        let mut out: Vec<char> = Vec::new();
        match self {
            ProxyHeaderIssue::ViaProxyLeak { value } => {
                push_str(&mut out, "via_proxy_leak:");
                push_str(&mut out, value.as_str());
            },
            ProxyHeaderIssue::AgePresent { seconds } => {
                push_str(&mut out, "age_present:");
                push_str(&mut out, seconds.as_str());
            },
            ProxyHeaderIssue::XCacheHit { status } => {
                push_str(&mut out, "x_cache_hit:");
                push_str(&mut out, status.as_str());
            },
            ProxyHeaderIssue::XForwardedFor { ips } => {
                push_str(&mut out, "x_forwarded_for:");
                push_str(&mut out, ips.as_str());
            },
            ProxyHeaderIssue::XForwardedHost { host } => {
                push_str(&mut out, "x_forwarded_host:");
                push_str(&mut out, host.as_str());
            },
            ProxyHeaderIssue::XRealIp { ip } => {
                push_str(&mut out, "x_real_ip:");
                push_str(&mut out, ip.as_str());
            },
            ProxyHeaderIssue::CdnIdentified { cdn } => {
                push_str(&mut out, "cdn_identified:");
                push_str(&mut out, cdn.as_str());
            },
            ProxyHeaderIssue::InternalIpLeak { ip } => {
                push_str(&mut out, "internal_ip_leak:");
                push_str(&mut out, ip.as_str());
            },
            ProxyHeaderIssue::ProxyChainLength { count } => {
                push_str(&mut out, "proxy_chain_length:");
                push_decimal(&mut out, *count as u64);
            },
            ProxyHeaderIssue::ServerTimingLeak { value } => {
                push_str(&mut out, "server_timing_leak:");
                push_str(&mut out, value.as_str());
            },
        }
        string_of(out.as_slice())
    }
}

} // verus!
