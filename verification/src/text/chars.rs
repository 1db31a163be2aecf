//! Character classes, and the passage between strings and character lists.

use vstd::prelude::*;
use vstd::slice::slice_subrange;
use vstd::utf8::encode_utf8;

verus! {

/// `String::push` appends one character and leaves what was there unchanged.
pub assume_specification[ String::push ](s: &mut String, c: char)
    ensures
        final(s)@ == old(s)@.push(c),
;

/// Unicode's `White_Space` property.
pub open spec fn space(c: char) -> bool {
    let u = c as u32;
    ||| 0x9 <= u <= 0xd
    ||| u == 0x20
    ||| u == 0x85
    ||| u == 0xa0
    ||| u == 0x1680
    ||| 0x2000 <= u <= 0x200a
    ||| u == 0x2028
    ||| u == 0x2029
    ||| u == 0x202f
    ||| u == 0x205f
    ||| u == 0x3000
}

/// Whether `c` is white space, in Unicode's sense.
pub fn is_space(c: char) -> (r: bool)
    ensures
        r == space(c),
{
    let u: u32 = c as u32;
    (0x9 <= u && u <= 0xd) || u == 0x20 || u == 0x85 || u == 0xa0 || u == 0x1680 || (0x2000 <= u
        && u <= 0x200a) || u == 0x2028 || u == 0x2029 || u == 0x202f || u == 0x205f || u == 0x3000
}

/// An ASCII decimal digit.
pub open spec fn digit(c: char) -> bool {
    '0' <= c && c <= '9'
}

/// Whether `c` is an ASCII decimal digit.
pub fn is_digit(c: char) -> (r: bool)
    ensures
        r == digit(c),
{
    '0' <= c && c <= '9'
}

/// An ASCII letter.
pub open spec fn letter(c: char) -> bool {
    ('a' <= c && c <= 'z') || ('A' <= c && c <= 'Z')
}

/// Whether `c` is an ASCII letter.
pub fn is_letter(c: char) -> (r: bool)
    ensures
        r == letter(c),
{
    ('a' <= c && c <= 'z') || ('A' <= c && c <= 'Z')
}

/// A sign rather than a letter: an arrow, symbol or dingbat, or one of the
/// pictographs, the letters of flags among them.
pub open spec fn sign(c: char) -> bool {
    let u = c as u32;
    ||| 0x2190 <= u <= 0x2bff
    ||| u == 0x203c
    ||| u == 0x2049
    ||| u == 0x20e3
    ||| u == 0x2122
    ||| u == 0x2139
    ||| u == 0x3030
    ||| u == 0x303d
    ||| u == 0x3297
    ||| u == 0x3299
    ||| 0x1f000 <= u <= 0x1fbff
}

/// Whether `c` is a sign.
pub fn is_sign(c: char) -> (r: bool)
    ensures
        r == sign(c),
{
    let u: u32 = c as u32;
    (0x2190 <= u && u <= 0x2bff) || u == 0x203c || u == 0x2049 || u == 0x20e3 || u == 0x2122 || u
        == 0x2139 || u == 0x3030 || u == 0x303d || u == 0x3297 || u == 0x3299 || (0x1f000 <= u && u
        <= 0x1fbff)
}

/// A character that may stand in a site's slug: an ASCII letter or digit, `-` or `_`.
pub open spec fn slug_char(c: char) -> bool {
    letter(c) || digit(c) || c == '-' || c == '_'
}

/// Whether `c` may stand in a slug.
pub fn is_slug_char(c: char) -> (r: bool)
    ensures
        r == slug_char(c),
{
    is_letter(c) || is_digit(c) || c == '-' || c == '_'
}

/// `c` with an ASCII capital made small; any other character as it is.
pub open spec fn lower_ascii(c: char) -> char {
    if 'A' <= c && c <= 'Z' {
        ((c as u8 + 32) as u8) as char
    } else {
        c
    }
}

/// `c` with an ASCII capital made small.
pub fn to_lower_ascii(c: char) -> (r: char)
    ensures
        r == lower_ascii(c),
{
    if 'A' <= c && c <= 'Z' {
        let b: u8 = c as u8;
        (b + 32) as char
    } else {
        c
    }
}

/// `c` with a small ASCII letter made capital; any other character as it is.
pub open spec fn upper_ascii(c: char) -> char {
    if 'a' <= c && c <= 'z' {
        ((c as u8 - 32) as u8) as char
    } else {
        c
    }
}

/// The characters of `s`, in order.
pub fn to_chars(s: &str) -> (r: Vec<char>)
    ensures
        r@ == s@,
{
    let mut out: Vec<char> = Vec::new();
    for c in it: s.chars()
        invariant
            out@ == it.seq().take(it.index() as int),
            it.seq() == s@,
    {
        out.push(c);
    }
    out
}

/// The string made of the characters `cs`.
pub fn to_text(cs: &[char]) -> (r: String)
    ensures
        r@ == cs@,
{
    let mut out = String::new();
    for i in 0..cs.len()
        invariant
            out@ == cs@.take(i as int),
    {
        out.push(cs[i]);
    }
    out
}

/// The first `n` characters of `s`.
pub fn take_to<'a>(s: &'a [char], n: usize) -> (r: &'a [char])
    requires
        n <= s@.len(),
    ensures
        r@ == s@.take(n as int),
{
    slice_subrange(s, 0, n)
}

/// What is left of `s` behind its first `n` characters.
pub fn skip_to<'a>(s: &'a [char], n: usize) -> (r: &'a [char])
    requires
        n <= s@.len(),
    ensures
        r@ == s@.skip(n as int),
{
    let end: usize = s.len();
    slice_subrange(s, n, end)
}

/// The number of bytes that the characters `cs` take in UTF-8.
pub fn byte_len(cs: &[char]) -> (r: usize)
    ensures
        r == encode_utf8(cs@).len(),
{
    to_text(cs).as_str().as_bytes().len()
}

/// Whether two character lists are the same.
pub fn same(a: &[char], b: &[char]) -> (r: bool)
    ensures
        r == (a@ == b@),
{
    if a.len() != b.len() {
        return false;
    }
    for i in 0..a.len()
        invariant
            a@.len() == b@.len(),
            forall|j: int| 0 <= j < i ==> a@[j] == b@[j],
    {
        if a[i] != b[i] {
            assert(a@[i as int] != b@[i as int]);
            return false;
        }
    }
    assert(a@ =~= b@);
    true
}

/// Whether two strings are the same.
pub fn same_text(a: &str, b: &str) -> (r: bool)
    ensures
        r == (a@ == b@),
{
    same(to_chars(a).as_slice(), to_chars(b).as_slice())
}

/// Whether the characters `a` are those of `b`.
pub fn is_text(a: &[char], b: &str) -> (r: bool)
    ensures
        r == (a@ == b@),
{
    same(a, to_chars(b).as_slice())
}

/// The views of the strings in a list.
pub open spec fn texts(v: Seq<String>) -> Seq<Seq<char>> {
    Seq::new(v.len(), |i: int| v[i]@)
}

/// The views of the character lists in a list.
pub open spec fn rows(v: Seq<Vec<char>>) -> Seq<Seq<char>> {
    Seq::new(v.len(), |i: int| v[i]@)
}

/// The view of an optional string.
pub open spec fn opt(o: Option<String>) -> Option<Seq<char>> {
    match o {
        Some(s) => Some(s@),
        None => None,
    }
}

/// The view of an optional character list.
pub open spec fn opt_row(o: Option<Vec<char>>) -> Option<Seq<char>> {
    match o {
        Some(s) => Some(s@),
        None => None,
    }
}

/// The white space of the first 128 characters is the space, the tab, and the
/// four that end a line or a page; of the others it is the spaces of all widths
/// and the separators.
pub proof fn white_space_is_known(c: char)
    ensures
        (c as u32) < 128 ==> (space(c) <==> c == ' ' || c == '\t' || c == '\n' || c == '\u{b}' || c
            == '\u{c}' || c == '\r'),
        c as u32 >= 128 ==> (space(c) <==> c == '\u{85}' || c == '\u{a0}' || c == '\u{1680}' || (
        '\u{2000}' <= c && c <= '\u{200a}') || c == '\u{2028}' || c == '\u{2029}' || c
            == '\u{202f}' || c == '\u{205f}' || c == '\u{3000}'),
        letter(c) || digit(c) || c == '-' || c == '_' <==> slug_char(c),
        letter(c) || digit(c) ==> !space(c) && !sign(c),
        digit(c) ==> !letter(c),
{
}

/// The signs that titles are marked with are signs, and no letter, digit,
/// punctuation or space of the first blocks is; letters and digits are those of
/// ASCII.
pub proof fn signs_are_known(c: char)
    ensures
        sign('👤') && sign('💾') && sign('⚙') && sign('⭐') && sign('🇬'),
        (c as u32) < 0x203c ==> !sign(c),
        '\u{1f000}' <= c && c <= '\u{1fbff}' ==> sign(c),
        '\u{2190}' <= c && c <= '\u{2bff}' ==> sign(c),
        c == '\u{203c}' || c == '\u{2049}' || c == '\u{20e3}' || c == '\u{2122}' || c == '\u{2139}'
            || c == '\u{3030}' || c == '\u{303d}' || c == '\u{3297}' || c == '\u{3299}' ==> sign(c),
        letter(c) <==> ('a' <= c && c <= 'z') || ('A' <= c && c <= 'Z'),
        digit(c) <==> c == '0' || c == '1' || c == '2' || c == '3' || c == '4' || c == '5' || c
            == '6' || c == '7' || c == '8' || c == '9',
{
}

/// Of the ASCII letters, the small and the capital one of a pair become each
/// other, and every other character stays.
pub proof fn cases_are_changed(c: char)
    ensures
        'A' <= c && c <= 'Z' ==> 'a' <= lower_ascii(c) && lower_ascii(c) <= 'z' && upper_ascii(
            lower_ascii(c),
        ) == c,
        'a' <= c && c <= 'z' ==> 'A' <= upper_ascii(c) && upper_ascii(c) <= 'Z' && lower_ascii(
            upper_ascii(c),
        ) == c,
        !('A' <= c && c <= 'Z') ==> lower_ascii(c) == c,
        !('a' <= c && c <= 'z') ==> upper_ascii(c) == c,
        lower_ascii('A') == 'a' && lower_ascii('Z') == 'z',
{
}

} // verus!
