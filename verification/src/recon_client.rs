//! Helpers shared by the passive recon scanners: cutting long values for
//! reports, and reading the host of a URL.
use vstd::prelude::*;
use crate::strings::{
    char_width_exec, find_char, index_of_char, lemma_utf8_len_le, lemma_utf8_len_mono,
    lemma_utf8_len_push, utf8_len,
};
use crate::text::{
    eq_text, chars_of, is_prefix, is_suffix, lower, lower_chars, occurs_at_exec, push_str, slice_chars,
    starts_with, string_of,
};

verus! {

/// A byte index `cut` falls between two characters of `s`.
pub open spec fn is_boundary(s: Seq<char>, cut: nat) -> bool {
    exists|k: int| 0 <= k <= s.len() && utf8_len(s.take(k)) == cut
}

/// The characters of `s` whose encoding ends at byte `cut`.
pub open spec fn prefix_to_byte(s: Seq<char>, cut: nat) -> Seq<char> {
    s.take(choose|k: int| 0 <= k <= s.len() && utf8_len(s.take(k)) == cut)
}

/// Slicing at `max - 3` bytes is possible where the cut is needed.
pub open spec fn truncatable(s: Seq<char>, max: nat) -> bool {
    utf8_len(s) > max ==> is_boundary(s, if max >= 3 { (max - 3) as nat } else { 0 })
}

/// `s` cut to `max - 3` bytes with `...` appended when it is longer than
/// `max` bytes; `s` itself otherwise.
pub open spec fn truncated(s: Seq<char>, max: nat) -> Seq<char> {
    if utf8_len(s) > max {
        prefix_to_byte(s, if max >= 3 { (max - 3) as nat } else { 0 }) + "..."@
    } else {
        s
    }
}

/// Cuts `s` to `max - 3` bytes and appends `...` when it is longer than
/// `max` bytes; the cut must fall between characters.
pub fn truncate(s: &str, max: usize) -> (r: String)
    requires
        truncatable(s@, max as nat),
    ensures
        r@ == truncated(s@, max as nat),
{
    let c = chars_of(s);
    let cut: usize = if max >= 3 { max - 3 } else { 0 };
    let mut total: usize = 0;
    let mut k: usize = 0;
    let mut cut_at: usize = 0;
    let mut found = cut == 0;
    let mut over = false;
    assert(utf8_len(c@.take(0)) == 0) by {
        assert(c@.take(0) =~= Seq::<char>::empty());
    }
    while k < c.len() && !over
        invariant
            c@ == s@,
            cut <= max,
            k <= c@.len(),
            total == utf8_len(c@.take(k as int)),
            total <= max,
            over ==> k < c@.len() && utf8_len(c@.take(k + 1)) > max,
            found ==> cut_at <= k && utf8_len(c@.take(cut_at as int)) == cut,
            !found ==> forall|j: int| 0 <= j <= k ==> utf8_len(c@.take(j)) != cut,
        decreases c.len() - k, (if over { 0int } else { 1int }),
    {
        proof {
            lemma_utf8_len_push(c@.take(k as int), c@[k as int]);
            assert(c@.take(k + 1) =~= c@.take(k as int).push(c@[k as int]));
        }
        let w = char_width_exec(c[k]);
        if w > max - total {
            over = true;
        } else {
            total = total + w;
            k += 1;
            if !found && total == cut {
                found = true;
                cut_at = k;
            }
        }
    }
    if over {
        proof {
            lemma_utf8_len_le(s@, k + 1, s@.len() as int);
            assert(s@.take(s@.len() as int) =~= s@);
            let kk = choose|j: int| 0 <= j <= s@.len() && utf8_len(s@.take(j)) == cut;
            if kk > k {
                lemma_utf8_len_le(s@, k + 1, kk);
            }
            assert(found);
            if kk <= cut_at {
                lemma_utf8_len_mono(s@, kk, cut_at as int);
            } else {
                lemma_utf8_len_mono(s@, cut_at as int, kk);
            }
        }
        let mut out = slice_chars(c.as_slice(), 0, cut_at);
        assert(out@ =~= prefix_to_byte(s@, cut as nat)) by {
            assert(c@.subrange(0, cut_at as int) =~= s@.take(cut_at as int));
        }
        push_str(&mut out, "...");
        string_of(out.as_slice())
    } else {
        assert(c@.take(k as int) =~= s@);
        string_of(c.as_slice())
    }
}

/// `s` up to the first `c`, or all of `s`.
pub open spec fn before_char(s: Seq<char>, c: char) -> Seq<char> {
    match index_of_char(s, c) {
        Some(i) => s.take(i),
        None => s,
    }
}

pub fn before_char_exec(s: &[char], c: char) -> (r: Vec<char>)
    ensures
        r@ == before_char(s@, c),
{
    match find_char(s, c) {
        Some(i) => slice_chars(s, 0, i),
        None => slice_chars(s, 0, s.len()),
    }
}

/// What follows `https://` or `http://` at the start of `url`.
pub open spec fn after_scheme(url: Seq<char>) -> Option<Seq<char>> {
    if is_prefix("https://"@, url) {
        Some(url.skip(8))
    } else if is_prefix("http://"@, url) {
        Some(url.skip(7))
    } else {
        None
    }
}

/// The host field of an `http(s)` URL: after the scheme, before the first
/// `/` and then before the first `:`. It may be empty.
pub open spec fn host_part(url: Seq<char>) -> Option<Seq<char>> {
    match after_scheme(url) {
        Some(rest) => Some(before_char(before_char(rest, '/'), ':')),
        None => None,
    }
}

/// A host lies outside `domain`: it is neither `domain` nor one of its
/// subdomains, compared without regard to ASCII case.
pub open spec fn outside_domain(host: Seq<char>, domain: Seq<char>) -> bool {
    &&& host.len() > 0
    &&& lower(host) != lower(domain)
    &&& !is_suffix(seq!['.'] + lower(domain), lower(host))
}

fn host_part_exec(url: &[char]) -> (r: Option<Vec<char>>)
    ensures
        match host_part(url@) {
            Some(h) => r is Some && r->0@ == h,
            None => r is None,
        },
{
    proof {
        reveal_strlit("https://");
        reveal_strlit("http://");
    }
    let rest = if starts_with(url, "https://") {
        slice_chars(url, 8, url.len())
    } else if starts_with(url, "http://") {
        slice_chars(url, 7, url.len())
    } else {
        return None;
    };
    let path_cut = before_char_exec(rest.as_slice(), '/');
    Some(before_char_exec(path_cut.as_slice(), ':'))
}

/// Whether `url` points outside `target_domain`: an `http(s)` URL whose
/// host is neither the domain nor a subdomain of it, ignoring ASCII case.
/// Anything without such a scheme is not external.
pub fn is_external(url: &str, target_domain: &str) -> (r: bool)
    ensures
        r == match host_part(url@) {
            Some(h) => outside_domain(h, target_domain@),
            None => false,
        },
{
    let u = chars_of(url);
    let host = match host_part_exec(u.as_slice()) {
        Some(h) => h,
        None => return false,
    };
    if host.len() == 0 {
        return false;
    }
    let h = lower_chars(host.as_slice());
    let d = lower_chars(chars_of(target_domain).as_slice());
    if h.len() == d.len() && occurs_at_exec(h.as_slice(), d.as_slice(), 0) {
        assert(h@ =~= d@) by {
            assert(h@.subrange(0, d@.len() as int) =~= h@);
        }
        return false;
    }
    assert(h@ != d@) by {
        if h@ == d@ {
            assert(h@.subrange(0, d@.len() as int) =~= h@);
        }
    }
    let mut dotted: Vec<char> = Vec::new();
    dotted.push('.');
    let mut i: usize = 0;
    while i < d.len()
        invariant
            i <= d@.len(),
            dotted@ == seq!['.'] + d@.take(i as int),
        decreases d.len() - i,
    {
        dotted.push(d[i]);
        i += 1;
        assert(dotted@ =~= seq!['.'] + d@.take(i as int));
    }
    assert(d@.take(d@.len() as int) =~= d@);
    if dotted.len() > h.len() {
        return true;
    }
    let suffix = occurs_at_exec(h.as_slice(), dotted.as_slice(), h.len() - dotted.len());
    !suffix
}

/// The host of an `http(s)` URL, without port or path; `None` for another
/// scheme or an empty host.
pub fn extract_host(url: &str) -> (r: Option<String>)
    ensures
        match host_part(url@) {
            Some(h) => if h.len() > 0 { r is Some && r->0@ == h } else { r is None },
            None => r is None,
        },
{
    let u = chars_of(url);
    match host_part_exec(u.as_slice()) {
        Some(h) => {
            if h.len() == 0 {
                None
            } else {
                Some(string_of(h.as_slice()))
            }
        },
        None => None,
    }
}

/// A loopback host, which scanners leave alone.
pub open spec fn is_loopback_host(h: Seq<char>) -> bool {
    h == "localhost"@ || h == "127.0.0.1"@ || h == "::1"@
}

/// The domain of a scan target: the host of its `http(s)` URL, `None` for
/// a target without one and for a loopback host.
pub fn validated_domain(target: &str) -> (r: Option<String>)
    ensures
        match host_part(target@) {
            Some(h) => if h.len() > 0 && !is_loopback_host(h) {
                r is Some && r->0@ == h
            } else {
                r is None
            },
            None => r is None,
        },
{
    let u = chars_of(target);
    match host_part_exec(u.as_slice()) {
        Some(h) => {
            if h.len() == 0 || eq_text(h.as_slice(), "localhost") || eq_text(h.as_slice(), "127.0.0.1") || eq_text(
                h.as_slice(),
                "::1",
            ) {
                None
            } else {
                Some(string_of(h.as_slice()))
            }
        },
        None => None,
    }
}

/// Whether `truncate(s, max)` can cut `s`: it is no longer than `max`
/// bytes, or `max - 3` bytes fall between two characters.
pub fn truncatable_exec(s: &str, max: usize) -> (r: bool)
    ensures
        r == truncatable(s@, max as nat),
{
    let c = chars_of(s);
    let cut: usize = if max >= 3 { max - 3 } else { 0 };
    let mut total: usize = 0;
    let mut k: usize = 0;
    let mut found = cut == 0;
    let mut over = false;
    assert(utf8_len(c@.take(0)) == 0) by {
        assert(c@.take(0) =~= Seq::<char>::empty());
    }
    while k < c.len() && !over
        invariant
            c@ == s@,
            cut <= max,
            cut == (if max >= 3 { (max - 3) as nat } else { 0 }),
            k <= c@.len(),
            total == utf8_len(c@.take(k as int)),
            total <= max,
            over ==> k < c@.len() && utf8_len(c@.take(k + 1)) > max,
            found ==> exists|j: int| 0 <= j <= k && utf8_len(c@.take(j)) == cut,
            !found ==> forall|j: int| 0 <= j <= k ==> utf8_len(c@.take(j)) != cut,
        decreases c.len() - k, (if over { 0int } else { 1int }),
    {
        proof {
            lemma_utf8_len_push(c@.take(k as int), c@[k as int]);
            assert(c@.take(k + 1) =~= c@.take(k as int).push(c@[k as int]));
        }
        let w = char_width_exec(c[k]);
        if w > max - total {
            over = true;
        } else {
            total = total + w;
            k += 1;
            if !found && total == cut {
                found = true;
            }
        }
    }
    if over {
        proof {
            lemma_utf8_len_le(s@, k + 1, s@.len() as int);
            assert(s@.take(s@.len() as int) =~= s@);
            if !found {
                assert forall|j: int| 0 <= j <= s@.len() implies utf8_len(s@.take(j)) != cut by {
                    if j > k {
                        lemma_utf8_len_le(s@, k + 1, j);
                    }
                }
            }
        }
        found
    } else {
        assert(c@.take(k as int) =~= s@);
        true
    }
}

/// A cut text fits: when `max` leaves room for the ellipsis, the result
/// of `truncate` is never longer than `max` bytes.
pub proof fn law_truncated_fits(s: Seq<char>, max: nat)
    requires
        truncatable(s, max),
        max >= 3,
    ensures
        utf8_len(truncated(s, max)) <= max,
{
    if utf8_len(s) > max {
        let cut = (max - 3) as nat;
        let k = choose|k: int| 0 <= k <= s.len() && utf8_len(s.take(k)) == cut;
        let p = s.take(k);
        reveal_strlit("...");
        lemma_utf8_len_push(p, '.');
        lemma_utf8_len_push(p.push('.'), '.');
        lemma_utf8_len_push(p.push('.').push('.'), '.');
        assert(p + "..."@ =~= p.push('.').push('.').push('.'));
    }
}

} // verus!
