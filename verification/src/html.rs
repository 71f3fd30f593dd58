//! A small HTML tag scanner: finds the tags of one element name in a page
//! and reads attribute values out of a tag.
//!
//! Tags are found in the ASCII-lowercased page, so positions in the
//! lowercased text and in the text as written coincide: an attribute value
//! located in the lowercased tag can be read back from the tag as written,
//! with its case intact.
use vstd::prelude::*;
use crate::text::{chars_of, lower, lower_chars, occurs_at, occurs_at_exec, slice_chars, string_of};

verus! {

/// HTML whitespace.
pub open spec fn is_ws(c: char) -> bool {
    c == ' ' || c == '\t' || c == '\n' || c == '\r' || c == '\x0c'
}

/// The text that opens a tag of element `name`: `<` followed by the name.
pub open spec fn tag_open(name: Seq<char>) -> Seq<char> {
    seq!['<'] + name
}

/// A tag of element `name` opens at `i` in `low`: `<name` followed by
/// whitespace, `>`, `/` or the end of the text.
pub open spec fn tag_starts_at(low: Seq<char>, name: Seq<char>, i: int) -> bool {
    let k = i + name.len() + 1;
    &&& occurs_at(low, tag_open(name), i)
    &&& (k == low.len() || (k < low.len() && (is_ws(low[k]) || low[k] == '>' || low[k] == '/')))
}

/// The first position `j >= from` with `s[j] == c`, or `s.len()` if there is none.
#[verifier::opaque]
pub open spec fn char_pos(s: Seq<char>, from: int, c: char) -> int {
    if exists|j: int| from <= j < s.len() && s[j] == c {
        choose|j: int| from <= j < s.len() && s[j] == c && forall|m: int| from <= m < j ==> s[m] != c
    } else {
        s.len() as int
    }
}

/// The end (exclusive) of the tag that opens at `s`: just past the first
/// `>` from `s` on, or the end of the text.
pub open spec fn tag_end(low: Seq<char>, s: int) -> int {
    let j = char_pos(low, s, '>');
    if j < low.len() { j + 1 } else { low.len() as int }
}

/// The first tag of element `name` opening at or after `i`.
pub open spec fn next_tag(low: Seq<char>, name: Seq<char>, i: int) -> int {
    choose|k: int| i <= k && tag_starts_at(low, name, k) && forall|m: int| i <= m < k ==> !tag_starts_at(low, name, m)
}

/// The spans `(start, end)` of the tags of element `name` in `low`, from
/// position `i` on, in page order; each search resumes after the previous tag.
#[verifier::opaque]
pub open spec fn spans_from(low: Seq<char>, name: Seq<char>, i: int) -> Seq<(int, int)>
    decreases low.len() + 1 - i,
{
    if i < 0 || i > low.len() {
        Seq::empty()
    } else if exists|k: int| i <= k && tag_starts_at(low, name, k) {
        let s = next_tag(low, name, i);
        let e = tag_end(low, s);
        if i <= s && s < e && e <= low.len() {
            seq![(s, e)] + spans_from(low, name, e)
        } else {
            Seq::empty()
        }
    } else {
        Seq::empty()
    }
}

/// The spans of the tags of element `name` in the lowercased page `low`.
pub open spec fn tag_spans(low: Seq<char>, name: Seq<char>) -> Seq<(int, int)> {
    spans_from(low, name, 0)
}

/// The texts of the tags of element `name` in `page`, with their case intact.
pub open spec fn tag_texts(page: Seq<char>, name: Seq<char>) -> Seq<Seq<char>> {
    tag_spans(lower(page), name).map_values(|sp: (int, int)| page.subrange(sp.0, sp.1))
}

/// An attribute `name=` starts at `i` in tag text `t`, after whitespace.
pub open spec fn attr_at(t: Seq<char>, name: Seq<char>, i: int) -> bool {
    &&& 1 <= i
    &&& is_ws(t[i - 1])
    &&& occurs_at(t, name + seq!['='], i)
}

/// The first position of attribute `name` in tag text `t`.
#[verifier::opaque]
pub open spec fn first_attr(t: Seq<char>, name: Seq<char>) -> int {
    choose|i: int| attr_at(t, name, i) && forall|m: int| 0 <= m < i ==> !attr_at(t, name, m)
}

/// The end of an unquoted value starting at `from`: the first whitespace or
/// `>`, or the end of the text.
#[verifier::opaque]
pub open spec fn bare_end(t: Seq<char>, from: int) -> int {
    if exists|j: int| from <= j < t.len() && (is_ws(t[j]) || t[j] == '>') {
        choose|j: int| from <= j < t.len() && (is_ws(t[j]) || t[j] == '>')
            && forall|m: int| from <= m < j ==> !(is_ws(t[m]) || t[m] == '>')
    } else {
        t.len() as int
    }
}

/// The span of an attribute value that starts at `v`: inside the quotes
/// when it is quoted (up to the closing quote or the end), else up to the
/// first whitespace or `>`.
#[verifier::opaque]
pub open spec fn value_span(t: Seq<char>, v: int) -> (int, int) {
    if v < t.len() && (t[v] == '"' || t[v] == '\'') {
        (v + 1, char_pos(t, v + 1, t[v]))
    } else {
        (v, bare_end(t, v))
    }
}

/// The span of the value of the first attribute `name` of the tag text `t`.
#[verifier::opaque]
pub open spec fn attr_span(t: Seq<char>, name: Seq<char>) -> Option<(int, int)> {
    if exists|i: int| attr_at(t, name, i) {
        Some(value_span(t, first_attr(t, name) + name.len() + 1))
    } else {
        None
    }
}

/// The value of attribute `name` in the tag text `tag` as written, case intact.
pub open spec fn attr_value(tag: Seq<char>, name: Seq<char>) -> Option<Seq<char>> {
    match attr_span(lower(tag), name) {
        Some(sp) => Some(tag.subrange(sp.0, sp.1)),
        None => None,
    }
}

/// The lowercased value of attribute `name` in the tag text `tag`.
pub open spec fn attr_value_lower(tag: Seq<char>, name: Seq<char>) -> Option<Seq<char>> {
    match attr_span(lower(tag), name) {
        Some(sp) => Some(lower(tag).subrange(sp.0, sp.1)),
        None => None,
    }
}

/// `char_pos` is the first position it describes.
proof fn lemma_char_pos(s: Seq<char>, from: int, c: char, j: int)
    requires
        from <= j <= s.len(),
        j < s.len() ==> s[j] == c,
        forall|m: int| from <= m < j ==> s[m] != c,
    ensures
        char_pos(s, from, c) == j,
{
    reveal(char_pos);
    if exists|k: int| from <= k < s.len() && s[k] == c {
        let k = choose|k: int| from <= k < s.len() && s[k] == c && forall|m: int| from <= m < k ==> s[m] != c;
        assert(from <= k < s.len() && s[k] == c && forall|m: int| from <= m < k ==> s[m] != c) by {
            let w = choose|k: int| from <= k < s.len() && s[k] == c;
            assert(from <= w < s.len() && s[w] == c);
            if j < s.len() {
                assert(from <= j < s.len() && s[j] == c && forall|m: int| from <= m < j ==> s[m] != c);
            } else {
                assert(false);
            }
        }
        if k < j {
            assert(s[k] != c);
        } else if k > j {
            assert(s[j] != c);
        }
    }
}

/// The first position `j >= from` with `s[j] == c`, or `s.len()`.
pub fn char_pos_exec(s: &[char], from: usize, c: char) -> (j: usize)
    requires
        from <= s@.len(),
    ensures
        j == char_pos(s@, from as int, c),
        from <= j <= s@.len(),
{
    let mut j = from;
    while j < s.len()
        invariant
            from <= j <= s@.len(),
            forall|m: int| from <= m < j ==> s@[m] != c,
        decreases s.len() - j,
    {
        if s[j] == c {
            proof { lemma_char_pos(s@, from as int, c, j as int); }
            return j;
        }
        j += 1;
    }
    proof { lemma_char_pos(s@, from as int, c, j as int); }
    j
}

/// The end of the tag that opens at `s`.
fn tag_end_exec(low: &[char], s: usize) -> (e: usize)
    requires
        s < low@.len(),
    ensures
        e == tag_end(low@, s as int),
        s < e <= low@.len(),
{
    let j = char_pos_exec(low, s, '>');
    if j < low.len() {
        j + 1
    } else {
        low.len()
    }
}

/// Whether a tag of element `name` opens at `i`; `open` holds `tag_open(name)`.
fn tag_starts_at_exec(low: &[char], open: &[char], Ghost(name): Ghost<Seq<char>>, i: usize) -> (r: bool)
    requires
        open@ == tag_open(name),
    ensures
        r == tag_starts_at(low@, name, i as int),
{
    if !occurs_at_exec(low, open, i) {
        return false;
    }
    assert(i + open@.len() <= low@.len());
    let n = low.len();
    let k = i + open.len();
    k == n || (k < low.len() && (low[k] == ' ' || low[k] == '\t' || low[k] == '\n'
        || low[k] == '\r' || low[k] == '\x0c' || low[k] == '>' || low[k] == '/'))
}

/// The first tag of element `name` opening at or after `i`, if any.
fn next_tag_exec(low: &[char], open: &[char], Ghost(name): Ghost<Seq<char>>, i: usize) -> (r: Option<usize>)
    requires
        open@ == tag_open(name),
    ensures
        match r {
            Some(k) => i <= k < low@.len() && tag_starts_at(low@, name, k as int)
                && forall|m: int| i <= m < k ==> !tag_starts_at(low@, name, m),
            None => forall|m: int| i <= m ==> !tag_starts_at(low@, name, m),
        },
{
    let mut k = i;
    while k < low.len()
        invariant
            open@ == tag_open(name),
            i <= k,
            forall|m: int| i <= m < k ==> !tag_starts_at(low@, name, m),
        decreases low.len() - k,
    {
        if tag_starts_at_exec(low, open, Ghost(name), k) {
            return Some(k);
        }
        k += 1;
    }
    proof {
        assert forall|m: int| i <= m implies !tag_starts_at(low@, name, m) by {
            if m >= k && tag_starts_at(low@, name, m) {
                assert(m + tag_open(name).len() <= low@.len());
            }
        }
    }
    None
}

/// Unfolds `spans_from` at a position where the next tag is known.
proof fn lemma_spans_step(low: Seq<char>, name: Seq<char>, i: int, k: int)
    requires
        0 <= i <= k < low.len(),
        tag_starts_at(low, name, k),
        forall|m: int| i <= m < k ==> !tag_starts_at(low, name, m),
        k < tag_end(low, k) <= low.len(),
    ensures
        spans_from(low, name, i) == seq![(k, tag_end(low, k))] + spans_from(low, name, tag_end(low, k)),
{
    reveal_with_fuel(spans_from, 1);
    assert(i <= k && tag_starts_at(low, name, k) && forall|m: int| i <= m < k ==> !tag_starts_at(low, name, m));
    let s = next_tag(low, name, i);
    assert(i <= s && tag_starts_at(low, name, s) && forall|m: int| i <= m < s ==> !tag_starts_at(low, name, m));
    if s < k {
        assert(!tag_starts_at(low, name, s));
    } else if s > k {
        assert(!tag_starts_at(low, name, k));
    }
    assert(s == k);
}

/// No tag opens at or after `i`: no spans remain.
proof fn lemma_spans_none(low: Seq<char>, name: Seq<char>, i: int)
    requires
        0 <= i,
        forall|m: int| i <= m ==> !tag_starts_at(low, name, m),
    ensures
        spans_from(low, name, i) == Seq::<(int, int)>::empty(),
{
    reveal_with_fuel(spans_from, 1);
    assert(!exists|k2: int| i <= k2 && tag_starts_at(low, name, k2));
}

/// Tag spans as integer pairs.
pub open spec fn spans_int(r: Seq<(usize, usize)>) -> Seq<(int, int)> {
    r.map_values(|sp: (usize, usize)| (sp.0 as int, sp.1 as int))
}

/// The spans of the tags of element `name` in the lowercased page `low`.
pub fn find_tags(low: &[char], name: &str) -> (r: Vec<(usize, usize)>)
    ensures
        spans_int(r@) == tag_spans(low@, name@),
        forall|j: int| 0 <= j < r@.len() ==> (#[trigger] r@[j]).0 <= r@[j].1 <= low@.len(),
{
    let nm = chars_of(name);
    let mut open: Vec<char> = Vec::new();
    open.push('<');
    let mut t: usize = 0;
    while t < nm.len()
        invariant
            open@ == seq!['<'] + nm@.take(t as int),
            t <= nm@.len(),
        decreases nm.len() - t,
    {
        open.push(nm[t]);
        assert(nm@.take(t + 1) =~= nm@.take(t as int).push(nm@[t as int]));
        t += 1;
    }
    assert(nm@.take(nm@.len() as int) =~= nm@);
    assert(open@ =~= tag_open(name@));
    let mut r: Vec<(usize, usize)> = Vec::new();
    let mut i: usize = 0;
    while i < low.len()
        invariant
            open@ == tag_open(name@),
            i <= low@.len(),
            spans_int(r@) + spans_from(low@, name@, i as int) == tag_spans(low@, name@),
            forall|j: int| 0 <= j < r@.len() ==> (#[trigger] r@[j]).0 <= r@[j].1 <= low@.len(),
        decreases low.len() - i,
    {
        match next_tag_exec(low, open.as_slice(), Ghost(name@), i) {
            Some(k) => {
                let e = tag_end_exec(low, k);
                proof {
                    lemma_spans_step(low@, name@, i as int, k as int);
                    assert(spans_int(r@.push((k, e))) =~= spans_int(r@).push((k as int, e as int)));
                    assert(spans_int(r@.push((k, e))) + spans_from(low@, name@, e as int)
                        =~= spans_int(r@) + spans_from(low@, name@, i as int));
                }
                r.push((k, e));
                i = e;
            },
            None => {
                proof { lemma_spans_none(low@, name@, i as int); }
                assert(spans_int(r@) + spans_from(low@, name@, i as int) =~= spans_int(r@));
                return r;
            },
        }
    }
    proof {
        assert forall|m: int| i <= m implies !tag_starts_at(low@, name@, m) by {
            if tag_starts_at(low@, name@, m) {
                assert(m + tag_open(name@).len() <= low@.len());
            }
        }
        lemma_spans_none(low@, name@, i as int);
        assert(spans_int(r@) + spans_from(low@, name@, i as int) =~= spans_int(r@));
    }
    r
}

/// `first_attr` is the first position it describes.
proof fn lemma_first_attr(t: Seq<char>, name: Seq<char>, a: int)
    requires
        attr_at(t, name, a),
        forall|m: int| 0 <= m < a ==> !attr_at(t, name, m),
    ensures
        first_attr(t, name) == a,
{
    reveal(first_attr);
    let f = first_attr(t, name);
    assert(attr_at(t, name, f) && forall|m: int| 0 <= m < f ==> !attr_at(t, name, m));
    if f < a {
        assert(!attr_at(t, name, f));
    } else if f > a {
        assert(!attr_at(t, name, a));
    }
}

/// `bare_end` is the first position it describes.
proof fn lemma_bare_end(t: Seq<char>, from: int, j: int)
    requires
        from <= j <= t.len(),
        j < t.len() ==> (is_ws(t[j]) || t[j] == '>'),
        forall|m: int| from <= m < j ==> !(is_ws(t[m]) || t[m] == '>'),
    ensures
        bare_end(t, from) == j,
{
    reveal(bare_end);
    if exists|k: int| from <= k < t.len() && (is_ws(t[k]) || t[k] == '>') {
        if j == t.len() {
            let w = choose|k: int| from <= k < t.len() && (is_ws(t[k]) || t[k] == '>');
            assert(!(is_ws(t[w]) || t[w] == '>'));
        }
        assert(from <= j < t.len() && (is_ws(t[j]) || t[j] == '>')
            && forall|m: int| from <= m < j ==> !(is_ws(t[m]) || t[m] == '>'));
        let k = bare_end(t, from);
        if k < j {
            assert(!(is_ws(t[k]) || t[k] == '>'));
        } else if k > j {
            assert(!(is_ws(t[j]) || t[j] == '>'));
        }
    }
}

/// The end of an unquoted attribute value starting at `from`.
fn bare_end_exec(t: &[char], from: usize) -> (j: usize)
    requires
        from <= t@.len(),
    ensures
        j == bare_end(t@, from as int),
        from <= j <= t@.len(),
{
    let mut j = from;
    while j < t.len()
        invariant
            from <= j <= t@.len(),
            forall|m: int| from <= m < j ==> !(is_ws(t@[m]) || t@[m] == '>'),
        decreases t.len() - j,
    {
        let c = t[j];
        if c == ' ' || c == '\t' || c == '\n' || c == '\r' || c == '\x0c' || c == '>' {
            proof { lemma_bare_end(t@, from as int, j as int); }
            return j;
        }
        j += 1;
    }
    proof { lemma_bare_end(t@, from as int, j as int); }
    j
}

/// The first position of attribute `name` in `t`; `pat` holds `name` followed by `=`.
fn first_attr_exec(t: &[char], pat: &[char], Ghost(name): Ghost<Seq<char>>) -> (r: Option<usize>)
    requires
        pat@ == name + seq!['='],
    ensures
        match r {
            Some(a) => attr_at(t@, name, a as int) && first_attr(t@, name) == a
                && a + pat@.len() <= t@.len(),
            None => forall|m: int| #![auto] !attr_at(t@, name, m),
        },
{
    let mut a: usize = 1;
    while a < t.len()
        invariant
            pat@ == name + seq!['='],
            1 <= a,
            forall|m: int| 0 <= m < a ==> !attr_at(t@, name, m),
        decreases t.len() - a,
    {
        let c = t[a - 1];
        let ws = c == ' ' || c == '\t' || c == '\n' || c == '\r' || c == '\x0c';
        if ws && occurs_at_exec(t, pat, a) {
            proof { lemma_first_attr(t@, name, a as int); }
            return Some(a);
        }
        a += 1;
    }
    proof {
        assert forall|m: int| #![auto] !attr_at(t@, name, m) by {
            if attr_at(t@, name, m) && m >= a {
                assert(m + pat@.len() <= t@.len());
            }
        }
    }
    None
}

proof fn lemma_attr_span_some(t: Seq<char>, name: Seq<char>, a: int)
    requires
        attr_at(t, name, a),
        first_attr(t, name) == a,
    ensures
        attr_span(t, name) == Some(value_span(t, a + name.len() + 1)),
{
    reveal(attr_span);
}

proof fn lemma_attr_span_none(t: Seq<char>, name: Seq<char>)
    requires
        forall|m: int| #![auto] !attr_at(t, name, m),
    ensures
        attr_span(t, name) is None,
{
    reveal(attr_span);
}

/// The characters of `name` followed by `=`.
fn attr_pattern(name: &str) -> (pat: Vec<char>)
    ensures
        pat@ == name@ + seq!['='],
{
    let mut pat = chars_of(name);
    let ghost before = pat@;
    pat.push('=');
    assert(pat@ =~= name@ + seq!['=']);
    pat
}

/// The span of the value that starts at `v` in the tag text `t`.
fn value_span_exec(t: &[char], v: usize) -> (sp: (usize, usize))
    requires
        v <= t@.len(),
    ensures
        (sp.0 as int, sp.1 as int) == value_span(t@, v as int),
        sp.0 <= sp.1 <= t@.len(),
{
    reveal(value_span);
    if v < t.len() && (t[v] == '"' || t[v] == '\'') {
        let e = char_pos_exec(t, v + 1, t[v]);
        (v + 1, e)
    } else {
        let e = bare_end_exec(t, v);
        (v, e)
    }
}

/// The span of the value of the first attribute `name` in the tag text `t`.
pub fn find_attr(t: &[char], name: &str) -> (r: Option<(usize, usize)>)
    ensures
        match r {
            Some(sp) => attr_span(t@, name@) == Some((sp.0 as int, sp.1 as int)) && sp.0 <= sp.1 <= t@.len(),
            None => attr_span(t@, name@) is None,
        },
{
    let pat = attr_pattern(name);
    match first_attr_exec(t, pat.as_slice(), Ghost(name@)) {
        Some(a) => {
            proof { lemma_attr_span_some(t@, name@, a as int); }
            assert(a + pat.len() <= t.len());
            Some(value_span_exec(t, a + pat.len()))
        },
        None => {
            proof { lemma_attr_span_none(t@, name@); }
            None
        },
    }
}

/// The value of attribute `name` read from the lowercased tag `lower`.
pub fn extract_attr_lower(lower: &str, name: &str) -> (r: Option<String>)
    ensures
        match attr_span(lower@, name@) {
            Some(sp) => r is Some && r->0@ == lower@.subrange(sp.0, sp.1),
            None => r is None,
        },
{
    let t = chars_of(lower);
    match find_attr(t.as_slice(), name) {
        Some(sp) => {
            let v = slice_chars(t.as_slice(), sp.0, sp.1);
            Some(string_of(v.as_slice()))
        },
        None => None,
    }
}

/// The value of attribute `name` located in the lowercased tag `lower` and
/// read from the tag text `raw` as written, case intact.
pub fn extract_attr(raw: &str, lower: &str, name: &str) -> (r: Option<String>)
    requires
        raw@.len() == lower@.len(),
    ensures
        match attr_span(lower@, name@) {
            Some(sp) => r is Some && r->0@ == raw@.subrange(sp.0, sp.1),
            None => r is None,
        },
{
    let t = chars_of(lower);
    let o = chars_of(raw);
    match find_attr(t.as_slice(), name) {
        Some(sp) => {
            let v = slice_chars(o.as_slice(), sp.0, sp.1);
            Some(string_of(v.as_slice()))
        },
        None => None,
    }
}

/// The tags of element `name` in `page`: for each, its text as written and
/// its lowercased text, in page order.
pub fn page_tags(page: &str, name: &str) -> (tags: Vec<(Vec<char>, Vec<char>)>)
    ensures
        tags@.len() == tag_texts(page@, name@).len(),
        forall|i: int| 0 <= i < tags@.len() ==> {
            &&& (#[trigger] tags@[i]).0@ == tag_texts(page@, name@)[i]
            &&& tags@[i].1@ == lower(tag_texts(page@, name@)[i])
        },
{
    let orig = chars_of(page);
    let low = lower_chars(orig.as_slice());
    let spans = find_tags(low.as_slice(), name);
    let ghost texts = tag_texts(page@, name@);
    let mut tags: Vec<(Vec<char>, Vec<char>)> = Vec::new();
    let mut k: usize = 0;
    while k < spans.len()
        invariant
            orig@ == page@,
            low@ == lower(page@),
            spans_int(spans@) == tag_spans(low@, name@),
            texts == tag_texts(page@, name@),
            forall|j: int| 0 <= j < spans@.len() ==> (#[trigger] spans@[j]).0 <= spans@[j].1 <= low@.len(),
            k <= spans@.len(),
            tags@.len() == k,
            forall|i: int| 0 <= i < k ==> {
                &&& (#[trigger] tags@[i]).0@ == texts[i]
                &&& tags@[i].1@ == lower(texts[i])
            },
        decreases spans.len() - k,
    {
        let (a, b) = spans[k];
        assert(spans_int(spans@)[k as int] == (a as int, b as int));
        let o = slice_chars(orig.as_slice(), a, b);
        let l = slice_chars(low.as_slice(), a, b);
        proof {
            assert(texts[k as int] == page@.subrange(a as int, b as int));
            assert(l@ =~= lower(page@.subrange(a as int, b as int)));
        }
        tags.push((o, l));
        k += 1;
    }
    tags
}

/// The lowercased value of attribute `name` of a tag, from its lowercased text.
pub fn tag_attr_lower(tl: &[char], name: &str) -> (r: Option<Vec<char>>)
    ensures
        match attr_span(tl@, name@) {
            Some(sp) => r is Some && r->0@ == tl@.subrange(sp.0, sp.1),
            None => r is None,
        },
{
    match find_attr(tl, name) {
        Some(sp) => Some(slice_chars(tl, sp.0, sp.1)),
        None => None,
    }
}

/// The value of attribute `name` of a tag, located in its lowercased text
/// `tl` and read from its text `to` as written.
pub fn tag_attr(to: &[char], tl: &[char], name: &str) -> (r: Option<Vec<char>>)
    requires
        to@.len() == tl@.len(),
    ensures
        match attr_span(tl@, name@) {
            Some(sp) => r is Some && r->0@ == to@.subrange(sp.0, sp.1),
            None => r is None,
        },
{
    match find_attr(tl, name) {
        Some(sp) => Some(slice_chars(to, sp.0, sp.1)),
        None => None,
    }
}

} // verus!
