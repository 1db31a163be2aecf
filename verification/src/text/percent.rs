//! Percent-encoding of text in URLs.

use vstd::prelude::*;
use vstd::utf8::{encode_utf8, encode_utf8_decode_utf8};

use crate::text::chars::{digit, is_digit, is_letter, letter, to_chars, to_text};

verus! {

/// A character that stands for itself in a URL.
pub open spec fn unreserved(c: char) -> bool {
    letter(c) || digit(c) || c == '-' || c == '_' || c == '.' || c == '~'
}

/// The hexadecimal digit with the value `d`, as a capital.
pub open spec fn hex_digit(d: int) -> char {
    if d < 10 {
        (('0' as u8) + d) as u8 as char
    } else {
        (('A' as u8) + (d - 10)) as u8 as char
    }
}

/// The byte `b` as `%` and two hexadecimal digits.
pub open spec fn escaped(b: u8) -> Seq<char> {
    seq!['%', hex_digit(b as int / 16), hex_digit(b as int % 16)]
}

/// The bytes `bs`, each as `%` and two hexadecimal digits.
pub open spec fn escaped_all(bs: Seq<u8>) -> Seq<char>
    decreases bs.len(),
{
    if bs.len() == 0 {
        seq![]
    } else {
        escaped(bs[0]) + escaped_all(bs.skip(1))
    }
}

/// What stands for the character `c` in a URL: itself, or the bytes of its
/// UTF-8 form, escaped.
pub open spec fn encoded_char(c: char) -> Seq<char> {
    if unreserved(c) {
        seq![c]
    } else {
        escaped_all(encode_utf8(seq![c]))
    }
}

/// The percent-encoded form of `s`.
pub open spec fn encoded(s: Seq<char>) -> Seq<char>
    decreases s.len(),
{
    if s.len() == 0 {
        seq![]
    } else {
        encoded_char(s[0]) + encoded(s.skip(1))
    }
}

/// The value of a hexadecimal digit written as a capital.
pub open spec fn hex_value(c: char) -> int {
    if digit(c) {
        c as int - '0' as int
    } else {
        c as int - 'A' as int + 10
    }
}

/// The bytes that a percent-encoded text stands for.
pub open spec fn decoded(t: Seq<char>) -> Seq<u8>
    decreases t.len(),
{
    if t.len() == 0 {
        seq![]
    } else if t[0] == '%' && t.len() >= 3 {
        seq![(hex_value(t[1]) * 16 + hex_value(t[2])) as u8] + decoded(t.skip(3))
    } else {
        seq![t[0] as u8] + decoded(t.skip(1))
    }
}

/// A character of a percent-encoded text: one that stands for itself, or `%`.
pub open spec fn url_safe(s: Seq<char>) -> bool {
    forall|i: int| 0 <= i < s.len() ==> unreserved(#[trigger] s[i]) || s[i] == '%'
}

proof fn lemma_escaped_all_decodes(bs: Seq<u8>, rest: Seq<char>)
    ensures
        decoded(escaped_all(bs) + rest) == bs + decoded(rest),
        url_safe(escaped_all(bs)),
    decreases bs.len(),
{
    if bs.len() == 0 {
        assert(escaped_all(bs) + rest =~= rest);
        assert(bs + decoded(rest) =~= decoded(rest));
    } else {
        let tail = escaped_all(bs.skip(1)) + rest;
        let t = escaped_all(bs) + rest;
        lemma_escaped_all_decodes(bs.skip(1), rest);
        assert(t.skip(3) =~= tail);
        assert(t[0] == '%');
        assert(t[1] == hex_digit(bs[0] as int / 16));
        assert(t[2] == hex_digit(bs[0] as int % 16));
        assert(hex_value(t[1]) * 16 + hex_value(t[2]) == bs[0]);
        assert(decoded(t) == seq![bs[0]] + decoded(tail));
        assert(seq![bs[0]] + (bs.skip(1) + decoded(rest)) =~= bs + decoded(rest));
        let e = escaped_all(bs);
        assert forall|i: int| 0 <= i < e.len() implies unreserved(#[trigger] e[i]) || e[i]
            == '%' by {
            if i >= 3 {
                assert(e[i] == escaped_all(bs.skip(1))[i - 3]);
            }
        }
    }
}

/// Decoding the percent-encoded form of a text gives back its UTF-8 bytes, and
/// that form holds nothing but unreserved characters and `%`.
pub proof fn percent_encoding_decodes(s: Seq<char>)
    ensures
        decoded(encoded(s)) == encode_utf8(s),
        url_safe(encoded(s)),
    decreases s.len(),
{
    reveal_with_fuel(encode_utf8, 2);
    if s.len() > 0 {
        let c = s[0];
        let rest = encoded(s.skip(1));
        percent_encoding_decodes(s.skip(1));
        assert(s.skip(1) =~= s.drop_first());
        assert(seq![c].drop_first() =~= seq![]);
        let one = encode_utf8(seq![c]);
        assert(one =~= vstd::utf8::encode_scalar(c as u32));
        let t = encoded(s);
        if unreserved(c) {
            assert(t.skip(1) =~= rest);
            assert(t[0] == c);
            vstd::utf8::is_ascii_chars_encode_utf8(seq![c]);
            assert(one =~= seq![c as u8]);
        } else {
            lemma_escaped_all_decodes(one, rest);
        }
        assert(decoded(t) =~= one + decoded(rest));
        assert forall|i: int| 0 <= i < t.len() implies unreserved(#[trigger] t[i]) || t[i]
            == '%' by {
            let h = encoded_char(c);
            if i < h.len() {
                assert(t[i] == h[i]);
            } else {
                assert(t[i] == rest[i - h.len()]);
            }
        }
    }
}

/// Two texts with the same percent-encoded form are the same.
pub proof fn percent_encoding_is_injective(a: Seq<char>, b: Seq<char>)
    requires
        encoded(a) == encoded(b),
    ensures
        a == b,
{
    percent_encoding_decodes(a);
    percent_encoding_decodes(b);
    vstd::utf8::encode_utf8_decode_utf8(a);
    vstd::utf8::encode_utf8_decode_utf8(b);
}

/// Whether `c` stands for itself in a URL.
pub fn is_unreserved(c: char) -> (r: bool)
    ensures
        r == unreserved(c),
{
    is_letter(c) || is_digit(c) || c == '-' || c == '_' || c == '.' || c == '~'
}

/// The hexadecimal digit with the value `d`, as a capital.
pub fn hex_digit_of(d: u8) -> (r: char)
    requires
        d < 16,
    ensures
        r == hex_digit(d as int),
{
    if d < 10 {
        (48 + d) as char
    } else {
        (55 + d) as char
    }
}

/// Appends the byte `b` as `%` and two hexadecimal digits.
pub fn push_escaped(out: &mut Vec<char>, b: u8)
    ensures
        final(out)@ == old(out)@ + escaped(b),
{
    let ghost start = out@;
    out.push('%');
    out.push(hex_digit_of(b / 16));
    out.push(hex_digit_of(b % 16));
    assert(out@ =~= start + escaped(b));
}

/// Appends what stands for `c` in a URL.
fn push_encoded(out: &mut Vec<char>, c: char)
    ensures
        final(out)@ == old(out)@ + encoded_char(c),
{
    let ghost start = out@;
    if is_unreserved(c) {
        out.push(c);
        assert(out@ =~= start + encoded_char(c));
        return;
    }
    let mut one = String::new();
    one.push(c);
    let bytes = one.as_str().as_bytes();
    assert(one@ =~= seq![c]);
    let ghost bs = bytes@;
    assert(bs.skip(0) =~= bs);
    assert(start + escaped_all(bs) =~= out@ + escaped_all(bs.skip(0)));
    for i in 0..bytes.len()
        invariant
            bs == bytes@,
            start + escaped_all(bs) == out@ + escaped_all(bs.skip(i as int)),
    {
        let ghost before = out@;
        push_escaped(out, bytes[i]);
        assert(bs.skip(i as int).skip(1) =~= bs.skip(i + 1));
        assert(out@ + escaped_all(bs.skip(i + 1)) =~= before + escaped_all(bs.skip(i as int)));
    }
    assert(bs.skip(bs.len() as int) =~= seq![]);
    assert(out@ =~= start + escaped_all(bs));
}

/// Percent-encodes `s` for use in a URL (RFC 3986): a space becomes `%20`.
pub fn url_encode(s: &str) -> (r: String)
    ensures
        r@ == encoded(s@),
{
    let cs = to_chars(s);
    let mut out: Vec<char> = Vec::new();
    assert(s@.skip(0) =~= s@);
    assert(encoded(s@) =~= out@ + encoded(s@.skip(0)));
    for i in 0..cs.len()
        invariant
            cs@ == s@,
            encoded(s@) == out@ + encoded(s@.skip(i as int)),
    {
        let ghost before = out@;
        push_encoded(&mut out, cs[i]);
        assert(s@.skip(i as int).skip(1) =~= s@.skip(i + 1));
        assert(out@ + encoded(s@.skip(i + 1)) =~= before + encoded(s@.skip(i as int)));
    }
    assert(s@.skip(s@.len() as int) =~= seq![]);
    assert(out@ =~= encoded(s@));
    to_text(out.as_slice())
}

/// The letters and digits of ASCII and the four marks `-`, `_`, `.` and `~`
/// stand for themselves in a URL, and every other character begins with `%`.
pub proof fn only_unreserved_characters_stay(c: char)
    ensures
        if ('a' <= c && c <= 'z') || ('A' <= c && c <= 'Z') || ('0' <= c && c <= '9') || c == '-'
            || c == '_' || c == '.' || c == '~' {
            encoded(seq![c]) == seq![c]
        } else {
            encoded(seq![c]).len() >= 3 && encoded(seq![c])[0] == '%'
        },
{
    let s = seq![c];
    assert(s.skip(1) =~= seq![]);
    assert(encoded(s.skip(1)) =~= seq![]);
    assert(encoded(s) =~= encoded_char(c));
    percent_encoding_decodes(s);
    if !unreserved(c) {
        let bs = encode_utf8(s);
        encode_utf8_decode_utf8(s);
        if bs.len() == 0 {
            encode_utf8_decode_utf8(seq![]);
            assert(encode_utf8(Seq::<char>::empty()) =~= bs);
        }
        assert(escaped_all(bs) == escaped(bs[0]) + escaped_all(bs.skip(1)));
    }
}

/// A byte is escaped as two hexadecimal digits in capitals.
pub proof fn bytes_are_escaped_in_capitals(b: u8)
    ensures
        escaped(b).len() == 3 && escaped(b)[0] == '%',
        b < 160 ==> escaped(b)[1] as int == '0' as int + b as int / 16,
        b >= 160 ==> escaped(b)[1] as int == 'A' as int + b as int / 16 - 10,
        b % 16 < 10 ==> escaped(b)[2] as int == '0' as int + b as int % 16,
        b % 16 >= 10 ==> escaped(b)[2] as int == 'A' as int + b as int % 16 - 10,
{
}

} // verus!
