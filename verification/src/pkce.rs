//! The proof with which a sign-in shows that its two halves belong together.

use vstd::prelude::*;
use vstd::utf8::encode_utf8;

use crate::crypto::{random_bytes, sha256, sha256_digest};
use crate::text::cat::cat;

verus! {

/// The symbol for six bits in the base64 alphabet for URLs.
pub open spec fn symbol(v: int) -> char {
    if v < 26 {
        (v + 65) as u8 as char
    } else if v < 52 {
        (v + 71) as u8 as char
    } else if v < 62 {
        (v - 4) as u8 as char
    } else if v == 62 {
        '-'
    } else {
        '_'
    }
}

/// The six bits that a symbol stands for.
pub open spec fn bits(c: char) -> int {
    if 'A' <= c && c <= 'Z' {
        c as int - 65
    } else if 'a' <= c && c <= 'z' {
        c as int - 71
    } else if '0' <= c && c <= '9' {
        c as int + 4
    } else if c == '-' {
        62
    } else {
        63
    }
}

/// Bytes in base64 for URLs, without padding: four symbols for three bytes,
/// three for two that are left over, and two for one.
pub open spec fn base64_url(d: Seq<u8>) -> Seq<char>
    decreases d.len(),
{
    if d.len() == 0 {
        seq![]
    } else if d.len() == 1 {
        seq![symbol(d[0] as int / 4), symbol((d[0] as int % 4) * 16)]
    } else if d.len() == 2 {
        seq![
            symbol(d[0] as int / 4),
            symbol((d[0] as int % 4) * 16 + d[1] as int / 16),
            symbol((d[1] as int % 16) * 4),
        ]
    } else {
        seq![
            symbol(d[0] as int / 4),
            symbol((d[0] as int % 4) * 16 + d[1] as int / 16),
            symbol((d[1] as int % 16) * 4 + d[2] as int / 64),
            symbol(d[2] as int % 64),
        ] + base64_url(d.skip(3))
    }
}

/// The bytes that a text in base64 for URLs stands for.
pub open spec fn base64_url_bytes(t: Seq<char>) -> Seq<u8>
    decreases t.len(),
{
    if t.len() < 2 {
        seq![]
    } else {
        let b0 = (bits(t[0]) * 4 + bits(t[1]) / 16) as u8;
        if t.len() == 2 {
            seq![b0]
        } else {
            let b1 = ((bits(t[1]) % 16) * 16 + bits(t[2]) / 4) as u8;
            if t.len() == 3 {
                seq![b0, b1]
            } else {
                let b2 = ((bits(t[2]) % 4) * 64 + bits(t[3])) as u8;
                seq![b0, b1, b2] + base64_url_bytes(t.skip(4))
            }
        }
    }
}

/// A character that a URL takes as it is.
pub open spec fn url_symbol(c: char) -> bool {
    ('A' <= c && c <= 'Z') || ('a' <= c && c <= 'z') || ('0' <= c && c <= '9') || c == '-' || c
        == '_'
}

/// A symbol gives back its bits and can stand in a URL.
proof fn lemma_symbol(v: int)
    requires
        0 <= v < 64,
    ensures
        bits(symbol(v)) == v,
        url_symbol(symbol(v)),
{
}

/// What was written in base64 for URLs can be read again, in symbols that a
/// URL takes as they are; it is a third longer, rounded up.
pub proof fn base64_url_reads_back(d: Seq<u8>)
    ensures
        base64_url_bytes(base64_url(d)) == d,
        base64_url(d).len() == (4 * d.len() + 2) / 3,
        forall|i: int| 0 <= i < base64_url(d).len() ==> url_symbol(#[trigger] base64_url(d)[i]),
    decreases d.len(),
{
    let t = base64_url(d);
    if d.len() > 0 {
        let a = d[0] as int;
        lemma_symbol(a / 4);
        if d.len() == 1 {
            lemma_symbol((a % 4) * 16);
            assert(base64_url_bytes(t) =~= d);
        } else {
            let b = d[1] as int;
            lemma_symbol((a % 4) * 16 + b / 16);
            if d.len() == 2 {
                lemma_symbol((b % 16) * 4);
                assert(base64_url_bytes(t) =~= d);
            } else {
                let c = d[2] as int;
                lemma_symbol((b % 16) * 4 + c / 64);
                lemma_symbol(c % 64);
                base64_url_reads_back(d.skip(3));
                let rest = base64_url(d.skip(3));
                assert(t.skip(4) =~= rest);
                assert(base64_url_bytes(t) =~= seq![d[0], d[1], d[2]] + base64_url_bytes(rest));
                assert(seq![d[0], d[1], d[2]] + d.skip(3) =~= d);
                assert forall|i: int| 0 <= i < t.len() implies url_symbol(#[trigger] t[i]) by {
                    if i >= 4 {
                        assert(t[i] == rest[i - 4]);
                    }
                }
            }
        }
    } else {
        assert(base64_url_bytes(t) =~= d);
    }
}

/// The symbol for six bits.
fn symbol_of(v: u8) -> (r: char)
    requires
        v < 64,
    ensures
        r == symbol(v as int),
{
    if v < 26 {
        (v + 65) as char
    } else if v < 52 {
        (v + 71) as char
    } else if v < 62 {
        (v - 4) as char
    } else if v == 62 {
        '-'
    } else {
        '_'
    }
}

/// Writes bytes in base64 for URLs, without padding.
pub fn base64_url_encode(data: Vec<u8>) -> (r: String)
    ensures
        r@ == base64_url(data@),
{
    let mut out = String::new();
    let mut i: usize = 0;
    let n: usize = data.len();
    assert(data@.skip(0) =~= data@);
    assert(out@ + base64_url(data@) =~= base64_url(data@));
    while n - i >= 3
        invariant
            n == data@.len(),
            i <= n,
            out@ + base64_url(data@.skip(i as int)) == base64_url(data@),
        decreases n - i,
    {
        let (a, b, c) = (data[i], data[i + 1], data[i + 2]);
        let ghost before = out@;
        let ghost rest = data@.skip(i as int);
        out.push(symbol_of(a / 4));
        out.push(symbol_of((a % 4) * 16 + b / 16));
        out.push(symbol_of((b % 16) * 4 + c / 64));
        out.push(symbol_of(c % 64));
        proof {
            assert(rest.skip(3) =~= data@.skip(i + 3));
            let four = seq![
                symbol(a as int / 4),
                symbol((a as int % 4) * 16 + b as int / 16),
                symbol((b as int % 16) * 4 + c as int / 64),
                symbol(c as int % 64),
            ];
            assert(out@ =~= before + four);
            assert(before + four + base64_url(data@.skip(i + 3)) =~= before + (four + base64_url(
                data@.skip(i + 3),
            )));
        }
        i += 3;
    }
    let ghost before = out@;
    let ghost rest = data@.skip(i as int);
    if n - i == 1 {
        let a = data[i];
        out.push(symbol_of(a / 4));
        out.push(symbol_of((a % 4) * 16));
    } else if n - i == 2 {
        let (a, b) = (data[i], data[i + 1]);
        out.push(symbol_of(a / 4));
        out.push(symbol_of((a % 4) * 16 + b / 16));
        out.push(symbol_of((b % 16) * 4));
    }
    assert(out@ =~= before + base64_url(rest));
    out
}

/// The verifier and the challenge made of some bytes: the bytes in base64,
/// and the digest of that text in base64.
pub open spec fn pkce(bytes: Seq<u8>) -> (Seq<char>, Seq<char>) {
    (base64_url(bytes), base64_url(sha256(encode_utf8(base64_url(bytes)))))
}

/// The verifier and the challenge made of some bytes.
pub fn pkce_from(bytes: Vec<u8>) -> (r: (String, String))
    ensures
        (r.0@, r.1@) == pkce(bytes@),
{
    let verifier = base64_url_encode(bytes);
    let challenge = base64_url_encode(sha256_digest(verifier.as_str().as_bytes()));
    (verifier, challenge)
}

/// A verifier and its challenge, made of 32 bytes left to chance. It fails
/// where the system has no such bytes.
pub fn generate_pkce() -> (r: Result<(String, String), String>)
    ensures
        match r {
            Ok((v, c)) => exists|bytes: Seq<u8>|
                bytes.len() == 32 && (v@, c@) == #[trigger] pkce(bytes),
            Err(m) => exists|e: Seq<char>| m@ == #[trigger] ("PKCE generation failed: "@ + e),
        },
{
    match random_bytes() {
        Ok(b) => Ok(pkce_from(b)),
        Err(e) => Err(cat("PKCE generation failed: ", e.as_str())),
    }
}

/// A verifier made of 32 bytes has 43 characters, all of which a URL takes as
/// they are.
pub proof fn verifier_is_fit_for_urls(bytes: Seq<u8>)
    requires
        bytes.len() == 32,
    ensures
        pkce(bytes).0.len() == 43,
        forall|i: int| 0 <= i < 43 ==> url_symbol(#[trigger] pkce(bytes).0[i]),
{
    base64_url_reads_back(bytes);
}

/// The challenge is the encoded hash of the verifier, which is the encoding of
/// the random bytes.
pub proof fn challenge_is_the_hash_of_the_verifier(bytes: Seq<u8>)
    ensures
        pkce(bytes).0 == base64_url(bytes),
        pkce(bytes).1 == base64_url(sha256(encode_utf8(pkce(bytes).0))),
{
}

/// The digits of the encoding are the capital letters, the small letters, the
/// decimal digits, the dash and the underscore, in this order.
pub proof fn digits_of_the_encoding(i: int)
    ensures
        0 <= i < 26 ==> symbol(i) as int == 'A' as int + i,
        26 <= i < 52 ==> symbol(i) as int == 'a' as int + i - 26,
        52 <= i < 62 ==> symbol(i) as int == '0' as int + i - 52,
        symbol(62) == '-',
        symbol(63) == '_',
{
}

/// Three bytes become four digits of six bits each, the highest bits first; one
/// or two bytes at the end become two or three digits, filled up with zeros.
pub proof fn bytes_become_digits(a: u8, b: u8, c: u8, rest: Seq<u8>)
    ensures
        ({
            let n = a as int * 65536 + b as int * 256 + c as int;
            &&& base64_url(seq![a, b, c] + rest) == seq![
                symbol(n / 262144),
                symbol(n / 4096 % 64),
                symbol(n / 64 % 64),
                symbol(n % 64),
            ] + base64_url(rest)
            &&& base64_url(seq![a, b]) == seq![
                symbol(a as int / 4),
                symbol((a as int * 256 + b as int) / 16 % 64),
                symbol((a as int * 256 + b as int) * 4 % 64),
            ]
            &&& base64_url(seq![a]) == seq![symbol(a as int / 4), symbol(a as int * 16 % 64)]
            &&& base64_url(Seq::empty()).len() == 0
        }),
{
    let d = seq![a, b, c] + rest;
    let n = a as int * 65536 + b as int * 256 + c as int;
    assert(d.skip(3) =~= rest);
    assert(d[0] == a && d[1] == b && d[2] == c);
    lemma_digits(a as int, b as int, c as int);
}

/// Three bytes taken as one number, cut into groups of six bits.
proof fn lemma_digits(a: int, b: int, c: int)
    requires
        0 <= a < 256,
        0 <= b < 256,
        0 <= c < 256,
    ensures
        ({
            let n = a * 65536 + b * 256 + c;
            &&& n / 262144 == a / 4
            &&& n / 4096 % 64 == (a % 4) * 16 + b / 16
            &&& n / 64 % 64 == (b % 16) * 4 + c / 64
            &&& n % 64 == c % 64
            &&& (a * 256 + b) / 16 % 64 == (a % 4) * 16 + b / 16
            &&& (a * 256 + b) * 4 % 64 == (b % 16) * 4
            &&& a * 16 % 64 == (a % 4) * 16
        }),
{
    let (a1, a0) = (a / 4, a % 4);
    let (b1, b0) = (b / 16, b % 16);
    let (c1, c0) = (c / 64, c % 64);
    assert(a == 4 * a1 + a0 && b == 16 * b1 + b0 && c == 64 * c1 + c0);
    let n = a * 65536 + b * 256 + c;
    assert(n == 262144 * a1 + 65536 * a0 + 4096 * b1 + 256 * b0 + 64 * c1 + c0);
    lemma_group(a1, 262144, 65536 * a0 + 4096 * b1 + 256 * b0 + 64 * c1 + c0);
    lemma_group(64 * a1 + 16 * a0 + b1, 4096, 256 * b0 + 64 * c1 + c0);
    lemma_group(a1, 64, 16 * a0 + b1);
    lemma_group(4096 * a1 + 1024 * a0 + 64 * b1 + 4 * b0 + c1, 64, c0);
    lemma_group(64 * a1 + 16 * a0 + b1, 64, 4 * b0 + c1);
    lemma_group(64 * a1 + 16 * a0 + b1, 16, b0);
    lemma_group(64 * a1 + 16 * a0 + b1, 64, 4 * b0);
    lemma_group(a1, 64, 16 * a0);
}

/// A number made of a multiple and a rest.
proof fn lemma_group(q: int, m: int, r: int)
    requires
        0 <= r < m,
        0 <= q,
    ensures
        (m * q + r) / m == q,
        (m * q + r) % m == r,
{
    assert((m * q + r) / m == q && (m * q + r) % m == r) by (nonlinear_arith)
        requires
            0 <= r < m,
            0 <= q,
    ;
}

} // verus!
