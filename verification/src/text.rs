//! Character-level text primitives shared by the analysers: substring
//! search, prefixes and suffixes, ASCII case folding and splitting.
//!
//! Text is modelled as `Seq<char>`, the view that vstd gives `&str` and
//! `String`.
use vstd::prelude::*;

verus! {

/// `needle` occurs in `hay` starting at position `i`.
pub open spec fn occurs_at(hay: Seq<char>, needle: Seq<char>, i: int) -> bool {
    &&& 0 <= i
    &&& i + needle.len() <= hay.len()
    &&& hay.subrange(i, i + needle.len()) == needle
}

/// `needle` occurs somewhere in `hay` (the empty needle occurs everywhere).
#[verifier::opaque]
pub open spec fn has_substr(hay: Seq<char>, needle: Seq<char>) -> bool {
    exists|i: int| occurs_at(hay, needle, i)
}

pub open spec fn is_prefix(pre: Seq<char>, s: Seq<char>) -> bool {
    pre.len() <= s.len() && s.subrange(0, pre.len() as int) == pre
}

pub open spec fn is_suffix(suf: Seq<char>, s: Seq<char>) -> bool {
    suf.len() <= s.len() && s.subrange(s.len() - suf.len(), s.len() as int) == suf
}

/// ASCII lower-casing of one character; every other character is unchanged.
pub open spec fn lower_char(c: char) -> char {
    if 'A' <= c && c <= 'Z' {
        ((c as u32) + 32) as char
    } else {
        c
    }
}

pub open spec fn lower(s: Seq<char>) -> Seq<char> {
    s.map_values(|c: char| lower_char(c))
}

/// The index of the first occurrence of `needle` in `hay`, if any.
pub open spec fn first_index(hay: Seq<char>, needle: Seq<char>) -> Option<int> {
    if has_substr(hay, needle) {
        Some(choose|i: int| occurs_at(hay, needle, i) && forall|j: int| 0 <= j < i ==> !occurs_at(hay, needle, j))
    } else {
        None
    }
}

/// One `Option` made into a zero- or one-element sequence: the building
/// block of every analyser's output.
pub open spec fn emit_if<T>(cond: bool, x: T) -> Seq<T> {
    if cond { seq![x] } else { Seq::empty() }
}

/// The characters of `s`, in order.
pub fn chars_of(s: &str) -> (v: Vec<char>)
    ensures v@ == s@,
{
    let mut v: Vec<char> = Vec::new();
    for c in it: s.chars()
        invariant
            v@ == it.seq().take(it.index() as int),
    {
        v.push(c);
    }
    v
}

/// Whether `needle` occurs in `hay` at position `i`.
pub fn occurs_at_exec(hay: &[char], needle: &[char], i: usize) -> (r: bool)
    ensures r == occurs_at(hay@, needle@, i as int),
{
    if i > hay.len() || needle.len() > hay.len() - i {
        return false;
    }
    let mut k: usize = 0;
    while k < needle.len()
        invariant
            i + needle.len() <= hay.len(),
            k <= needle.len(),
            forall|j: int| 0 <= j < k ==> hay@[i + j] == needle@[j],
        decreases needle.len() - k,
    {
        if hay[i + k] != needle[k] {
            assert(hay@.subrange(i as int, i + needle.len())[k as int] != needle@[k as int]);
            return false;
        }
        k += 1;
    }
    assert(hay@.subrange(i as int, i + needle.len()) =~= needle@);
    true
}

/// The first position at or after `from` where `needle` occurs in `hay`.
pub fn find_from(hay: &[char], needle: &[char], from: usize) -> (r: Option<usize>)
    ensures
        match r {
            Some(i) => from <= i && occurs_at(hay@, needle@, i as int)
                && forall|j: int| from <= j < i ==> !occurs_at(hay@, needle@, j),
            None => forall|j: int| from <= j ==> !occurs_at(hay@, needle@, j),
        },
{
    let mut i = from;
    while i < hay.len()
        invariant
            from <= i,
            forall|j: int| from <= j < i ==> !occurs_at(hay@, needle@, j),
        decreases hay.len() - i,
    {
        if occurs_at_exec(hay, needle, i) {
            return Some(i);
        }
        i += 1;
    }
    if occurs_at_exec(hay, needle, i) {
        return Some(i);
    }
    None
}

/// Whether `needle` occurs anywhere in `hay`.
pub fn contains_chars(hay: &[char], needle: &[char]) -> (r: bool)
    ensures r == has_substr(hay@, needle@),
{
    reveal(has_substr);
    match find_from(hay, needle, 0) {
        Some(i) => true,
        None => false,
    }
}

/// Whether the string `needle` occurs in the character sequence `hay`.
pub fn has_text(hay: &[char], needle: &str) -> (r: bool)
    ensures r == has_substr(hay@, needle@),
{
    let n = chars_of(needle);
    contains_chars(hay, n.as_slice())
}

/// The character sequences of a sequence of strings.
pub open spec fn views(v: Seq<String>) -> Seq<Seq<char>> {
    v.map_values(|s: String| s@)
}

/// `parts` joined with `sep` between consecutive parts.
pub open spec fn join(parts: Seq<Seq<char>>, sep: Seq<char>) -> Seq<char>
    decreases parts.len(),
{
    if parts.len() == 0 {
        Seq::empty()
    } else if parts.len() == 1 {
        parts[0]
    } else {
        join(parts.drop_last(), sep) + sep + parts.last()
    }
}

/// Joins the strings of `parts` with `sep` between consecutive ones.
pub fn join_strings(parts: &Vec<String>, sep: &str) -> (r: String)
    ensures r@ == join(parts@.map_values(|p: String| p@), sep@),
{
    let ghost views = parts@.map_values(|p: String| p@);
    let mut r = String::new();
    for i in 0..parts.len()
        invariant
            views == parts@.map_values(|p: String| p@),
            r@ == join(views.take(i as int), sep@),
    {
        assert(views.take(i + 1).drop_last() =~= views.take(i as int));
        if i != 0 {
            r.append(sep);
        } else {
            assert(views.take(1) =~= seq![views[0]]);
        }
        r.append(parts[i].as_str());
    }
    assert(views.take(parts.len() as int) =~= views);
    r
}

/// The first occurrence of `needle` in `hay` at or after `i`.
pub open spec fn first_from(hay: Seq<char>, needle: Seq<char>, i: int) -> int {
    choose|j: int| i <= j && occurs_at(hay, needle, j) && forall|m: int| i <= m < j ==> !occurs_at(hay, needle, m)
}

/// Number of non-overlapping occurrences of a nonempty `needle` in `hay`
/// at or after `i`, taken leftmost first.
pub open spec fn matches_from(hay: Seq<char>, needle: Seq<char>, i: int) -> nat
    decreases hay.len() + 1 - i,
{
    if needle.len() == 0 || i < 0 || i > hay.len() {
        0
    } else if exists|j: int| i <= j && occurs_at(hay, needle, j) {
        let j = first_from(hay, needle, i);
        if j >= i && occurs_at(hay, needle, j) {
            1 + matches_from(hay, needle, j + needle.len())
        } else {
            0
        }
    } else {
        0
    }
}

/// Number of non-overlapping occurrences of `needle` in `hay`, leftmost first.
#[verifier::opaque]
pub open spec fn match_count(hay: Seq<char>, needle: Seq<char>) -> nat {
    matches_from(hay, needle, 0)
}

/// Counts the non-overlapping occurrences of a nonempty `needle`, leftmost first.
pub fn count_matches(hay: &[char], needle: &str) -> (c: usize)
    requires
        needle@.len() > 0,
    ensures
        c == match_count(hay@, needle@),
{
    reveal(match_count);
    let n = chars_of(needle);
    let nl = n.len();
    let mut i: usize = 0;
    let mut c: usize = 0;
    while i <= hay.len()
        invariant
            n@ == needle@,
            nl == n@.len(),
            nl > 0,
            i <= hay.len() + nl,
            c + matches_from(hay@, needle@, i as int) == match_count(hay@, needle@),
            c <= i,
        decreases hay.len() + 1 - i,
    {
        match find_from(hay, n.as_slice(), i) {
            Some(j) => {
                assert(exists|j2: int| i <= j2 && occurs_at(hay@, needle@, j2));
                assert(i <= j && occurs_at(hay@, needle@, j as int) && forall|m: int| i <= m < j ==> !occurs_at(hay@, needle@, m));
                let ghost f = first_from(hay@, needle@, i as int);
                assert(f == j) by {
                    if f < j {
                        assert(!occurs_at(hay@, needle@, f));
                    } else if f > j {
                        assert(!occurs_at(hay@, needle@, j as int));
                    }
                }
                c += 1;
                i = j + nl;
            },
            None => {
                assert(!exists|j2: int| i <= j2 && occurs_at(hay@, needle@, j2));
                return c;
            },
        }
    }
    c
}

/// Whether `s` begins with `pre`.
pub fn starts_with(s: &[char], pre: &str) -> (r: bool)
    ensures r == is_prefix(pre@, s@),
{
    let p = chars_of(pre);
    let r = occurs_at_exec(s, p.as_slice(), 0);
    assert(r == is_prefix(pre@, s@));
    r
}

/// Whether `s` ends with `suf`.
pub fn ends_with(s: &[char], suf: &str) -> (r: bool)
    ensures r == is_suffix(suf@, s@),
{
    let p = chars_of(suf);
    if p.len() > s.len() {
        return false;
    }
    occurs_at_exec(s, p.as_slice(), s.len() - p.len())
}

/// ASCII lower-casing of one character.
pub fn lower_char_exec(c: char) -> (r: char)
    ensures r == lower_char(c),
{
    if 'A' <= c && c <= 'Z' {
        let v = (c as u32) + 32;
        assert(97 <= v <= 122);
        (v as u8) as char
    } else {
        c
    }
}

/// The ASCII lower-casing of `s`.
pub fn lower_chars(s: &[char]) -> (v: Vec<char>)
    ensures v@ == lower(s@),
{
    let mut v: Vec<char> = Vec::new();
    for i in 0..s.len()
        invariant
            v@ =~= lower(s@.take(i as int)),
    {
        v.push(lower_char_exec(s[i]));
        assert(lower(s@.take(i + 1)) =~= lower(s@.take(i as int)).push(lower_char(s@[i as int])));
    }
    assert(s@.take(s@.len() as int) =~= s@);
    v
}

/// Appends `x` when `cond` holds.
pub fn push_if<T>(v: &mut Vec<T>, cond: bool, x: T)
    ensures
        final(v)@ == old(v)@ + emit_if(cond, x),
{
    if cond {
        v.push(x);
        assert(final(v)@ =~= old(v)@ + emit_if(cond, x));
    } else {
        assert(old(v)@ + emit_if(cond, x) =~= old(v)@);
    }
}

/// `String::push` from std: appends one character to the string.
#[verifier::external_body]
fn push_char(s: &mut String, c: char)
    ensures
        final(s)@ == old(s)@.push(c),
{
    s.push(c);
}

/// A string holding exactly the characters of `chars`.
pub fn string_of(chars: &[char]) -> (s: String)
    ensures s@ == chars@,
{
    let mut s = String::new();
    for i in 0..chars.len()
        invariant
            s@ == chars@.take(i as int),
    {
        push_char(&mut s, chars[i]);
        assert(chars@.take(i + 1) =~= chars@.take(i as int).push(chars@[i as int]));
    }
    assert(chars@.take(chars@.len() as int) =~= chars@);
    s
}

/// Whether two character sequences are equal.
pub fn chars_eq(a: &[char], b: &[char]) -> (r: bool)
    ensures r == (a@ == b@),
{
    if a.len() != b.len() {
        return false;
    }
    for i in 0..a.len()
        invariant
            a@.len() == b@.len(),
            forall|j: int| 0 <= j < i ==> a@[j] == b@[j],
    {
        if a[i] != b[i] {
            return false;
        }
    }
    assert(a@ =~= b@);
    true
}

/// Whether the characters `a` spell the string `lit`.
pub fn eq_text(a: &[char], lit: &str) -> (r: bool)
    ensures r == (a@ == lit@),
{
    let l = chars_of(lit);
    chars_eq(a, l.as_slice())
}

/// The characters of `s` from `from` up to `to`.
pub fn slice_chars(s: &[char], from: usize, to: usize) -> (v: Vec<char>)
    requires
        from <= to <= s@.len(),
    ensures
        v@ == s@.subrange(from as int, to as int),
{
    let mut v: Vec<char> = Vec::new();
    for i in from..to
        invariant
            to <= s@.len(),
            v@ == s@.subrange(from as int, i as int),
    {
        v.push(s[i]);
        assert(s@.subrange(from as int, i + 1) =~= s@.subrange(from as int, i as int).push(s@[i as int]));
    }
    v
}

/// The decimal digit `d` (taken modulo ten) as a character.
pub open spec fn digit_char(d: nat) -> char {
    let d = d % 10;
    if d == 0 { '0' } else if d == 1 { '1' } else if d == 2 { '2' } else if d == 3 { '3' }
    else if d == 4 { '4' } else if d == 5 { '5' } else if d == 6 { '6' } else if d == 7 { '7' }
    else if d == 8 { '8' } else { '9' }
}

/// The decimal representation of `n`, without leading zeros.
pub open spec fn decimal(n: nat) -> Seq<char>
    decreases n,
{
    if n < 10 {
        seq![digit_char(n)]
    } else {
        decimal(n / 10).push(digit_char(n % 10))
    }
}

fn digit_char_exec(d: u64) -> (c: char)
    ensures
        c == digit_char(d as nat),
{
    let d = d % 10;
    if d == 0 { '0' } else if d == 1 { '1' } else if d == 2 { '2' } else if d == 3 { '3' }
    else if d == 4 { '4' } else if d == 5 { '5' } else if d == 6 { '6' } else if d == 7 { '7' }
    else if d == 8 { '8' } else { '9' }
}

/// Appends the decimal representation of `n` to `out`.
pub fn push_decimal(out: &mut Vec<char>, n: u64)
    ensures
        final(out)@ == old(out)@ + decimal(n as nat),
    decreases n,
{
    if n >= 10 {
        push_decimal(out, n / 10);
    }
    out.push(digit_char_exec(n % 10));
    proof {
        if n >= 10 {
            assert(final(out)@ =~= old(out)@ + decimal(n as nat));
        } else {
            assert(digit_char((n % 10) as nat) == digit_char(n as nat));
            assert(final(out)@ =~= old(out)@ + decimal(n as nat));
        }
    }
}

/// Appends the characters of `s` to `out`.
pub fn push_str(out: &mut Vec<char>, s: &str)
    ensures
        final(out)@ == old(out)@ + s@,
{
    let c = chars_of(s);
    let mut i: usize = 0;
    while i < c.len()
        invariant
            c@ == s@,
            i <= c@.len(),
            out@ == old(out)@ + s@.take(i as int),
        decreases c.len() - i,
    {
        out.push(c[i]);
        assert(s@.take(i + 1) =~= s@.take(i as int).push(s@[i as int]));
        i += 1;
    }
    assert(s@.take(s@.len() as int) =~= s@);
}

/// Full Unicode lowercasing of a text, as `str::to_lowercase` computes it.
pub uninterp spec fn unicode_lowercase(s: Seq<char>) -> Seq<char>;

/// Whether every character of `s` is ASCII.
pub open spec fn all_ascii(s: Seq<char>) -> bool {
    forall|i: int| 0 <= i < s.len() ==> (s[i] as u32) < 128
}

/// `str::to_lowercase` from std: the Unicode lowercase equivalent of `s`.
/// Its result is named `unicode_lowercase`; on ASCII text it lowercases
/// `A`..`Z` and leaves every other character as it is.
#[verifier::external_body]
pub(crate) fn lowercase_unicode(s: &str) -> (r: String)
    ensures
        r@ == unicode_lowercase(s@),
        all_ascii(s@) ==> r@ == lower(s@),
{
    s.to_lowercase()
}

/// The position of the first occurrence of the string `needle` in `hay`.
pub fn find_first(hay: &[char], needle: &str) -> (r: Option<usize>)
    ensures
        match r {
            Some(i) => first_index(hay@, needle@) == Some(i as int) && i + needle@.len() <= hay@.len(),
            None => first_index(hay@, needle@) is None,
        },
{
    reveal(has_substr);
    let n = chars_of(needle);
    match find_from(hay, n.as_slice(), 0) {
        Some(i) => {
            proof {
                assert(occurs_at(hay@, needle@, i as int) && forall|j: int| 0 <= j < i ==> !occurs_at(hay@, needle@, j));
                let f = choose|k: int| occurs_at(hay@, needle@, k) && forall|j: int| 0 <= j < k ==> !occurs_at(hay@, needle@, j);
                if f < i {
                    assert(!occurs_at(hay@, needle@, f));
                } else if f > i {
                    assert(!occurs_at(hay@, needle@, i as int));
                }
            }
            Some(i)
        },
        None => None,
    }
}

/// A decimal digit.
pub open spec fn is_digit(c: char) -> bool {
    '0' <= c && c <= '9'
}

/// The value of a string of decimal digits.
pub open spec fn digits_value(s: Seq<char>) -> nat
    decreases s.len(),
{
    if s.len() == 0 {
        0
    } else {
        digits_value(s.drop_last()) * 10 + ((s.last() as int) - ('0' as int)) as nat
    }
}

/// The text after an optional leading `+`.
pub open spec fn unsigned_part(s: Seq<char>) -> Seq<char> {
    if s.len() > 0 && s[0] == '+' { s.drop_first() } else { s }
}

/// Every character is a decimal digit.
pub open spec fn all_digits(d: Seq<char>) -> bool {
    forall|i: int| 0 <= i < d.len() ==> is_digit(#[trigger] d[i])
}

/// What `str::parse::<u64>` gives: an optional `+` followed by one or more
/// decimal digits whose value fits in 64 bits.
pub open spec fn parse_u64_spec(s: Seq<char>) -> Option<u64> {
    let d = unsigned_part(s);
    if d.len() > 0 && all_digits(d) && digits_value(d) <= u64::MAX {
        Some(digits_value(d) as u64)
    } else {
        None
    }
}

/// Parses an unsigned 64-bit decimal number as `str::parse::<u64>` does.
pub fn parse_u64(s: &[char]) -> (r: Option<u64>)
    ensures
        r == parse_u64_spec(s@),
{
    let start: usize = if s.len() > 0 && s[0] == '+' { 1 } else { 0 };
    let ghost d = unsigned_part(s@);
    assert(d =~= s@.subrange(start as int, s@.len() as int));
    if start >= s.len() {
        return None;
    }
    let mut value: u64 = 0;
    let mut i: usize = start;
    while i < s.len()
        invariant
            start <= i <= s@.len(),
            d == s@.subrange(start as int, s@.len() as int),
            d == unsigned_part(s@),
            forall|k: int| start <= k < i ==> is_digit(s@[k]),
            value == digits_value(s@.subrange(start as int, i as int)),
        decreases s.len() - i,
    {
        let c = s[i];
        assert(s@.subrange(start as int, i + 1).drop_last() =~= s@.subrange(start as int, i as int));
        if !('0' <= c && c <= '9') {
            proof {
                assert(!is_digit(d[i - start]));
            }
            return None;
        }
        let digit = ((c as u32) - 48) as u64;
        proof {
            let pre = s@.subrange(start as int, i + 1);
            assert(pre.last() == c);
            assert(digits_value(pre) == value * 10 + digit);
            assert(d.take(i - start + 1) =~= pre);
        }
        match value.checked_mul(10) {
            Some(m) => match m.checked_add(digit) {
                Some(v) => {
                    value = v;
                },
                None => {
                    proof {
                        assert forall|k: int| 0 <= k < i - start + 1 implies is_digit(d[k]) by {
                            assert(d[k] == s@[start + k]);
                        }
                        lemma_digits_grow(d, (i - start + 1) as int);
                    }
                    return None;
                },
            },
            None => {
                proof {
                    assert forall|k: int| 0 <= k < i - start + 1 implies is_digit(d[k]) by {
                        assert(d[k] == s@[start + k]);
                    }
                    lemma_digits_grow(d, (i - start + 1) as int);
                }
                return None;
            },
        }
        i += 1;
    }
    assert(s@.subrange(start as int, i as int) =~= d);
    Some(value)
}

/// A longer prefix of digits has at least the value of a shorter one.
proof fn lemma_digits_grow(d: Seq<char>, n: int)
    requires
        0 <= n <= d.len(),
        forall|i: int| 0 <= i < n ==> is_digit(d[i]),
    ensures
        all_digits(d) ==> digits_value(d.take(n)) <= digits_value(d),
    decreases d.len() - n,
{
    if n < d.len() && all_digits(d) {
        lemma_digits_grow(d, n + 1);
        assert(d.take(n + 1).drop_last() =~= d.take(n));
    } else if n == d.len() {
        assert(d.take(n) =~= d);
    }
}

/// Whether two texts are equal.
pub fn same_text(a: &str, b: &str) -> (r: bool)
    ensures
        r == (a@ == b@),
{
    let x = chars_of(a);
    let y = chars_of(b);
    chars_eq(x.as_slice(), y.as_slice())
}

/// A copy of a text.
pub fn copy_text(s: &str) -> (r: String)
    ensures
        r@ == s@,
{
    string_of(chars_of(s).as_slice())
}

/// Whether `v` holds the text `s`.
pub fn holds_text(v: &Vec<String>, s: &str) -> (r: bool)
    ensures
        r == views(v@).contains(s@),
{
    let mut i: usize = 0;
    while i < v.len()
        invariant
            i <= v@.len(),
            forall|j: int| 0 <= j < i ==> v@[j]@ != s@,
        decreases v.len() - i,
    {
        if same_text(v[i].as_str(), s) {
            assert(views(v@)[i as int] == s@);
            return true;
        }
        i += 1;
    }
    proof {
        if views(v@).contains(s@) {
            let j = choose|j: int| 0 <= j < views(v@).len() && views(v@)[j] == s@;
            assert(v@[j]@ == s@);
        }
    }
    false
}

/// An item of a concatenation is an item of one of its parts.
pub proof fn lemma_contains_add<T>(a: Seq<T>, b: Seq<T>, x: T)
    ensures
        (a + b).contains(x) == (a.contains(x) || b.contains(x)),
{
    if (a + b).contains(x) {
        let k = choose|k: int| 0 <= k < (a + b).len() && (a + b)[k] == x;
        if k < a.len() {
            assert(a[k] == x);
        } else {
            assert(b[k - a.len()] == x);
        }
    }
    if a.contains(x) {
        let k = choose|k: int| 0 <= k < a.len() && a[k] == x;
        assert((a + b)[k] == x);
    }
    if b.contains(x) {
        let k = choose|k: int| 0 <= k < b.len() && b[k] == x;
        assert((a + b)[a.len() + k] == x);
    }
}

/// `emit_if(c, y)` holds `x` exactly when `c` holds and `x` is `y`.
pub proof fn lemma_contains_emit_if<T>(c: bool, y: T, x: T)
    ensures
        emit_if(c, y).contains(x) == (c && x == y),
{
    if c {
        assert(emit_if(c, y)[0] == y);
    }
}

} // verus!
