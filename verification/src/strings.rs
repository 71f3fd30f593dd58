//! `str` operations beyond search: splitting on a character, trimming
//! whitespace or a character, and the length of a text in UTF-8 bytes.
use vstd::prelude::*;
use vstd::utf8::encode_utf8;
use crate::text::slice_chars;

verus! {

/// Unicode `White_Space`, what `char::is_whitespace` tests.
pub open spec fn is_whitespace(c: char) -> bool {
    ||| '\t' <= c && c <= '\r'
    ||| c == ' '
    ||| c == '\u{85}'
    ||| c == '\u{a0}'
    ||| c == '\u{1680}'
    ||| '\u{2000}' <= c && c <= '\u{200a}'
    ||| c == '\u{2028}'
    ||| c == '\u{2029}'
    ||| c == '\u{202f}'
    ||| c == '\u{205f}'
    ||| c == '\u{3000}'
}

fn is_whitespace_exec(c: char) -> (r: bool)
    ensures
        r == is_whitespace(c),
{
    ('\t' <= c && c <= '\r') || c == ' ' || c == '\u{85}' || c == '\u{a0}' || c == '\u{1680}' || ('\u{2000}' <= c
        && c <= '\u{200a}') || c == '\u{2028}' || c == '\u{2029}' || c == '\u{202f}' || c == '\u{205f}'
        || c == '\u{3000}'
}

/// The characters of `s` that `drop(c)` holds for, taken off both ends.
#[verifier::opaque]
pub open spec fn trim_by(s: Seq<char>, ws: bool, q: char) -> Seq<char> {
    let keep = |c: char| if ws { !is_whitespace(c) } else { c != q };
    if exists|i: int| 0 <= i < s.len() && keep(s[i]) {
        let a = choose|i: int| 0 <= i < s.len() && keep(s[i]) && forall|j: int| 0 <= j < i ==> !keep(s[j]);
        let b = choose|i: int| 0 <= i < s.len() && keep(s[i]) && forall|j: int| i < j < s.len() ==> !keep(s[j]);
        s.subrange(a, b + 1)
    } else {
        Seq::empty()
    }
}

/// `str::trim`: `s` without leading and trailing whitespace.
pub open spec fn trim(s: Seq<char>) -> Seq<char> {
    trim_by(s, true, ' ')
}

/// `str::trim_matches` with one character: `s` without leading and
/// trailing `q`.
pub open spec fn trim_char(s: Seq<char>, q: char) -> Seq<char> {
    trim_by(s, false, q)
}

fn keeps(c: char, ws: bool, q: char) -> (r: bool)
    ensures
        r == (if ws { !is_whitespace(c) } else { c != q }),
{
    if ws {
        !is_whitespace_exec(c)
    } else {
        c != q
    }
}

/// Takes whitespace (when `ws`) or else the character `q` off both ends.
fn trim_by_exec(s: &[char], ws: bool, q: char) -> (r: Vec<char>)
    ensures
        r@ == trim_by(s@, ws, q),
{
    reveal(trim_by);
    let ghost keep = |c: char| if ws { !is_whitespace(c) } else { c != q };
    let mut a: usize = 0;
    while a < s.len() && !keeps(s[a], ws, q)
        invariant
            a <= s@.len(),
            keep == (|c: char| if ws { !is_whitespace(c) } else { c != q }),
            forall|j: int| 0 <= j < a ==> !keep(s@[j]),
        decreases s.len() - a,
    {
        a += 1;
    }
    if a == s.len() {
        assert(!exists|i: int| 0 <= i < s@.len() && keep(s@[i]));
        return Vec::new();
    }
    let mut b: usize = s.len() - 1;
    while b > a && !keeps(s[b], ws, q)
        invariant
            a <= b < s@.len(),
            keep(s@[a as int]),
            keep == (|c: char| if ws { !is_whitespace(c) } else { c != q }),
            forall|j: int| b < j < s@.len() ==> !keep(s@[j]),
        decreases b - a,
    {
        b -= 1;
    }
    proof {
        let ghost fa = choose|i: int| 0 <= i < s@.len() && keep(s@[i]) && forall|j: int| 0 <= j < i ==> !keep(s@[j]);
        assert(0 <= a < s@.len() && keep(s@[a as int]) && forall|j: int| 0 <= j < a ==> !keep(s@[j]));
        if fa < a {
            assert(!keep(s@[fa]));
        } else if fa > a {
            assert(!keep(s@[a as int]));
        }
        assert(keep(s@[b as int]));
        let ghost fb = choose|i: int| 0 <= i < s@.len() && keep(s@[i]) && forall|j: int| i < j < s@.len() ==> !keep(s@[j]);
        assert(0 <= b < s@.len() && keep(s@[b as int]) && forall|j: int| b < j < s@.len() ==> !keep(s@[j]));
        if fb < b {
            assert(!keep(s@[b as int]));
        } else if fb > b {
            assert(!keep(s@[fb]));
        }
    }
    slice_chars(s, a, b + 1)
}

/// `str::trim`.
pub fn trim_exec(s: &[char]) -> (r: Vec<char>)
    ensures
        r@ == trim(s@),
{
    trim_by_exec(s, true, ' ')
}

/// `str::trim_matches` with one character.
pub fn trim_char_exec(s: &[char], q: char) -> (r: Vec<char>)
    ensures
        r@ == trim_char(s@, q),
{
    trim_by_exec(s, false, q)
}

/// The first position of `c` in `s`.
pub open spec fn index_of_char(s: Seq<char>, c: char) -> Option<int> {
    if exists|i: int| 0 <= i < s.len() && s[i] == c {
        Some(choose|i: int| 0 <= i < s.len() && s[i] == c && forall|j: int| 0 <= j < i ==> s[j] != c)
    } else {
        None
    }
}

/// The first position of `c` in `s`.
pub fn find_char(s: &[char], c: char) -> (r: Option<usize>)
    ensures
        match r {
            Some(i) => i < s@.len() && index_of_char(s@, c) == Some(i as int),
            None => index_of_char(s@, c) is None,
        },
{
    let mut i: usize = 0;
    while i < s.len()
        invariant
            i <= s@.len(),
            forall|j: int| 0 <= j < i ==> s@[j] != c,
        decreases s.len() - i,
    {
        if s[i] == c {
            proof {
                let f = choose|f: int| 0 <= f < s@.len() && s@[f] == c && forall|j: int| 0 <= j < f ==> s@[j] != c;
                assert(0 <= i < s@.len() && s@[i as int] == c && forall|j: int| 0 <= j < i ==> s@[j] != c);
                if f < i {
                    assert(s@[f] != c);
                } else if f > i {
                    assert(s@[i as int] != c);
                }
            }
            return Some(i);
        }
        i += 1;
    }
    None
}

/// `str::split` on a character: the pieces between the separators, empty
/// ones included.
pub open spec fn split_char(s: Seq<char>, c: char) -> Seq<Seq<char>>
    decreases s.len(),
{
    match index_of_char(s, c) {
        Some(i) => if 0 <= i < s.len() {
            seq![s.take(i)] + split_char(s.skip(i + 1), c)
        } else {
            seq![s]
        },
        None => seq![s],
    }
}

proof fn lemma_split_step(s: Seq<char>, c: char, i: int)
    requires
        index_of_char(s, c) == Some(i),
        0 <= i < s.len(),
    ensures
        split_char(s, c) == seq![s.take(i)] + split_char(s.skip(i + 1), c),
{
}

pub open spec fn char_views(v: Seq<Vec<char>>) -> Seq<Seq<char>> {
    v.map_values(|x: Vec<char>| x@)
}

/// `str::split` on a character.
pub fn split_char_exec(s: &[char], c: char) -> (parts: Vec<Vec<char>>)
    ensures
        char_views(parts@) == split_char(s@, c),
{
    let mut parts: Vec<Vec<char>> = Vec::new();
    let mut rest = slice_chars(s, 0, s.len());
    assert(rest@ =~= s@);
    loop
        invariant
            char_views(parts@) + split_char(rest@, c) == split_char(s@, c),
        decreases rest@.len(),
    {
        match find_char(rest.as_slice(), c) {
            Some(i) => {
                assert(i < rest.len());
                let head = slice_chars(rest.as_slice(), 0, i);
                let tail = slice_chars(rest.as_slice(), i + 1, rest.len());
                proof {
                    assert(head@ =~= rest@.take(i as int));
                    assert(tail@ =~= rest@.skip(i + 1));
                    lemma_split_step(rest@, c, i as int);
                    let a = char_views(parts@);
                    let t = split_char(tail@, c);
                    assert(char_views(parts@.push(head)) =~= a.push(head@));
                    assert(a.push(head@) + t =~= a + (seq![head@] + t));
                }
                parts.push(head);
                rest = tail;
            },
            None => {
                proof {
                    assert(char_views(parts@.push(rest)) =~= char_views(parts@).push(rest@));
                }
                parts.push(rest);
                return parts;
            },
        }
    }
}

/// The length in bytes of the UTF-8 encoding of `s`.
pub open spec fn utf8_len(s: Seq<char>) -> nat {
    encode_utf8(s).len()
}

/// The UTF-8 width of one character.
pub open spec fn char_width(c: char) -> nat {
    if (c as u32) < 0x80 {
        1
    } else if (c as u32) < 0x800 {
        2
    } else if (c as u32) < 0x10000 {
        3
    } else {
        4
    }
}

proof fn lemma_encode_scalar_len(c: char)
    ensures
        vstd::utf8::encode_scalar(c as u32).len() == char_width(c),
{
    vstd::utf8::char_is_scalar(c);
}

pub proof fn lemma_utf8_len_push(s: Seq<char>, c: char)
    ensures
        utf8_len(s.push(c)) == utf8_len(s) + char_width(c),
    decreases s.len(),
{
    if s.len() == 0 {
        lemma_encode_scalar_len(c);
        assert(s.push(c).drop_first() =~= Seq::<char>::empty());
        reveal_with_fuel(encode_utf8, 2);
    } else {
        lemma_utf8_len_push(s.drop_first(), c);
        assert(s.push(c).drop_first() =~= s.drop_first().push(c));
        lemma_encode_scalar_len(s[0]);
    }
}

pub fn char_width_exec(c: char) -> (w: usize)
    ensures
        w == char_width(c),
{
    let v = c as u32;
    if v < 0x80 {
        1
    } else if v < 0x800 {
        2
    } else if v < 0x10000 {
        3
    } else {
        4
    }
}

/// A longer prefix has a longer encoding; equal encodings mean equal prefixes.
pub proof fn lemma_utf8_len_mono(s: Seq<char>, a: int, b: int)
    requires
        0 <= a <= b <= s.len(),
        utf8_len(s.take(a)) == utf8_len(s.take(b)),
    ensures
        a == b,
    decreases b - a,
{
    if a < b {
        lemma_utf8_len_push(s.take(b - 1), s[b - 1]);
        assert(s.take(b) =~= s.take(b - 1).push(s[b - 1]));
        lemma_utf8_len_le(s, a, b - 1);
    }
}

pub proof fn lemma_utf8_len_le(s: Seq<char>, a: int, b: int)
    requires
        0 <= a <= b <= s.len(),
    ensures
        utf8_len(s.take(a)) <= utf8_len(s.take(b)),
    decreases b - a,
{
    if a < b {
        lemma_utf8_len_push(s.take(b - 1), s[b - 1]);
        assert(s.take(b) =~= s.take(b - 1).push(s[b - 1]));
        lemma_utf8_len_le(s, a, b - 1);
    }
}

} // verus!
