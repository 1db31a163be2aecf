//! Whole numbers in decimal notation, read and written.

use vstd::prelude::*;
use vstd::slice::slice_subrange;

use crate::text::chars::{digit, is_digit, to_chars, to_text};
use crate::text::replace::push_all;

verus! {

/// The digit with the value `d`.
pub open spec fn digit_char(d: nat) -> char {
    (('0' as u8) + d) as u8 as char
}

/// The value of the digit `c`.
pub open spec fn digit_value(c: char) -> nat {
    (c as u32 - '0' as u32) as nat
}

/// The decimal notation of `n`, without leading zeros.
pub open spec fn decimal(n: nat) -> Seq<char>
    decreases n,
{
    if n < 10 {
        seq![digit_char(n)]
    } else {
        decimal(n / 10).push(digit_char(n % 10))
    }
}

/// The decimal notation of `n`, with zeros at its head up to `width` characters.
pub open spec fn padded(n: nat, width: nat) -> Seq<char> {
    let d = decimal(n);
    if d.len() < width {
        Seq::new((width - d.len()) as nat, |i: int| '0') + d
    } else {
        d
    }
}

/// The decimal notation of `n`, with a minus sign where it is negative.
pub open spec fn signed(n: int) -> Seq<char> {
    if n < 0 {
        seq!['-'] + decimal((-n) as nat)
    } else {
        decimal(n as nat)
    }
}

/// Every character of `s` is a digit, and there is one at least.
pub open spec fn digits(s: Seq<char>) -> bool {
    s.len() > 0 && forall|i: int| 0 <= i < s.len() ==> digit(#[trigger] s[i])
}

/// The number that the digits `s` stand for.
pub open spec fn value(s: Seq<char>) -> nat
    decreases s.len(),
{
    if s.len() == 0 {
        0
    } else {
        value(s.drop_last()) * 10 + digit_value(s.last())
    }
}

/// `s` without a plus sign at its head.
pub open spec fn unsigned_part(s: Seq<char>) -> Seq<char> {
    if s.len() > 0 && s[0] == '+' {
        s.skip(1)
    } else {
        s
    }
}

/// The number up to `max` that `s` stands for: digits, with or without a plus sign before them.
pub open spec fn natural(s: Seq<char>, max: nat) -> Option<nat> {
    let d = unsigned_part(s);
    if digits(d) && value(d) <= max {
        Some(value(d))
    } else {
        None
    }
}

/// The number that `s` stands for: digits, with or without a sign before them,
/// from `-max - 1` to `max`.
pub open spec fn integer(s: Seq<char>, max: nat) -> Option<int> {
    if s.len() > 0 && s[0] == '-' {
        let d = s.skip(1);
        if digits(d) && value(d) <= max + 1 {
            Some(-(value(d) as int))
        } else {
            None
        }
    } else {
        match natural(s, max) {
            Some(n) => Some(n as int),
            None => None,
        }
    }
}

/// More digits make no smaller number.
pub proof fn lemma_value_grows(s: Seq<char>, i: int)
    requires
        0 <= i <= s.len(),
    ensures
        value(s.take(i)) <= value(s),
    decreases s.len() - i,
{
    if i < s.len() {
        lemma_value_grows(s, i + 1);
        assert(s.take(i + 1).drop_last() =~= s.take(i));
    } else {
        assert(s.take(i) =~= s);
    }
}

/// The decimal notation is made of digits and stands for its number.
pub proof fn lemma_decimal(n: nat)
    ensures
        digits(decimal(n)),
        value(decimal(n)) == n,
    decreases n,
{
    if n < 10 {
        assert(decimal(n).drop_last() =~= seq![]);
        assert(digit(decimal(n)[0]));
        reveal_with_fuel(value, 2);
    } else {
        lemma_decimal(n / 10);
        let d = decimal(n);
        assert(d.drop_last() =~= decimal(n / 10));
        assert forall|i: int| 0 <= i < d.len() implies digit(#[trigger] d[i]) by {
            if i < d.len() - 1 {
                assert(d[i] == decimal(n / 10)[i]);
            }
        }
    }
}

/// Reading back what was written gives the number.
pub proof fn lemma_natural_decimal(n: nat, max: nat)
    requires
        n <= max,
    ensures
        natural(decimal(n), max) == Some(n),
{
    lemma_decimal(n);
    assert(digit(decimal(n)[0]));
}

/// Appends the decimal notation of `n` to `out`.
fn push_decimal(out: &mut Vec<char>, n: u64)
    ensures
        final(out)@ == old(out)@ + decimal(n as nat),
    decreases n,
{
    let ghost start = out@;
    if n >= 10 {
        push_decimal(out, n / 10);
    }
    let d: u8 = (n % 10) as u8;
    out.push((48 + d) as char);
    assert(out@ =~= start + decimal(n as nat));
}

/// The decimal notation of `n`.
pub fn decimal_text(n: u64) -> (r: String)
    ensures
        r@ == decimal(n as nat),
{
    let mut out: Vec<char> = Vec::new();
    push_decimal(&mut out, n);
    assert(out@ =~= decimal(n as nat));
    to_text(out.as_slice())
}

/// The decimal notation of `n`, with zeros at its head up to `width` characters.
pub fn padded_text(n: u64, width: usize) -> (r: String)
    ensures
        r@ == padded(n as nat, width as nat),
{
    let mut d: Vec<char> = Vec::new();
    push_decimal(&mut d, n);
    assert(d@ =~= decimal(n as nat));
    let mut out: Vec<char> = Vec::new();
    if d.len() < width {
        let fill: usize = width - d.len();
        for i in 0..fill
            invariant
                out@ == Seq::new(i as nat, |j: int| '0'),
        {
            out.push('0');
            assert(out@ =~= Seq::new((i + 1) as nat, |j: int| '0'));
        }
    }
    push_all(&mut out, d.as_slice());
    assert(out@ =~= padded(n as nat, width as nat));
    to_text(out.as_slice())
}

/// The decimal notation of `n`, with a minus sign where it is negative.
pub fn signed_text(n: i64) -> (r: String)
    ensures
        r@ == signed(n as int),
{
    let mut out: Vec<char> = Vec::new();
    if n < 0 {
        out.push('-');
        let m: u64 = (-(n + 1)) as u64 + 1;
        push_decimal(&mut out, m);
        assert(out@ =~= signed(n as int));
    } else {
        push_decimal(&mut out, n as u64);
        assert(out@ =~= signed(n as int));
    }
    to_text(out.as_slice())
}

/// The number that the digits `s` stand for, where it is at most `max`.
fn digits_value(s: &[char], max: u64) -> (r: Option<u64>)
    ensures
        match r {
            Some(n) => digits(s@) && value(s@) == n && n <= max,
            None => !(digits(s@) && value(s@) <= max),
        },
{
    if s.len() == 0 {
        return None;
    }
    let mut n: u64 = 0;
    for i in 0..s.len()
        invariant
            s@.len() > 0,
            n == value(s@.take(i as int)),
            n <= max,
            forall|j: int| 0 <= j < i ==> digit(#[trigger] s@[j]),
    {
        let c = s[i];
        if !is_digit(c) {
            assert(!digit(s@[i as int]));
            return None;
        }
        let d: u64 = (c as u32 - 48) as u64;
        proof {
            assert(s@.take(i + 1).drop_last() =~= s@.take(i as int));
            assert(value(s@.take(i + 1)) == n * 10 + d);
            lemma_value_grows(s@, i + 1);
        }
        if d > max || n > max / 10 || n * 10 > max - d {
            return None;
        }
        n = n * 10 + d;
    }
    assert(s@.take(s@.len() as int) =~= s@);
    Some(n)
}

/// The number up to `max` that `s` stands for.
pub fn parse_natural(s: &[char], max: u64) -> (r: Option<u64>)
    ensures
        match r {
            Some(n) => natural(s@, max as nat) == Some(n as nat) && n <= max,
            None => natural(s@, max as nat) is None,
        },
{
    if s.len() > 0 && s[0] == '+' {
        let rest = slice_subrange(s, 1, s.len());
        assert(rest@ =~= s@.skip(1));
        digits_value(rest, max)
    } else {
        digits_value(s, max)
    }
}

/// The number that `s` stands for as a `u64`.
pub fn parse_u64(s: &str) -> (r: Option<u64>)
    ensures
        match r {
            Some(n) => natural(s@, u64::MAX as nat) == Some(n as nat),
            None => natural(s@, u64::MAX as nat) is None,
        },
{
    parse_natural(to_chars(s).as_slice(), u64::MAX)
}

/// The number that `s` stands for as an `i32`.
pub fn parse_i32(s: &str) -> (r: Option<i32>)
    ensures
        match r {
            Some(n) => integer(s@, i32::MAX as nat) == Some(n as int),
            None => integer(s@, i32::MAX as nat) is None,
        },
{
    let cs = to_chars(s);
    if cs.len() > 0 && cs[0] == '-' {
        let rest = slice_subrange(cs.as_slice(), 1, cs.len());
        assert(rest@ =~= s@.skip(1));
        match digits_value(rest, 0x8000_0000) {
            Some(n) => Some((-(n as i64)) as i32),
            None => None,
        }
    } else {
        match parse_natural(cs.as_slice(), 0x7fff_ffff) {
            Some(n) => Some(n as i32),
            None => None,
        }
    }
}

/// Zeros at the head of a number leave its value, and fill it up to the width.
pub proof fn padding_keeps_the_value(n: nat, width: nat)
    ensures
        digits(padded(n, width)),
        value(padded(n, width)) == n,
        padded(n, width).len() >= width,
        decimal(n).len() >= width ==> padded(n, width) == decimal(n),
{
    lemma_decimal(n);
    let d = decimal(n);
    if d.len() < width {
        lemma_zeros((width - d.len()) as nat, d);
    }
}

/// Zeros before digits add nothing to what they stand for.
proof fn lemma_zeros(k: nat, d: Seq<char>)
    requires
        digits(d),
    ensures
        digits(Seq::new(k, |i: int| '0') + d),
        value(Seq::new(k, |i: int| '0') + d) == value(d),
    decreases k + d.len(),
{
    let z = Seq::new(k, |i: int| '0');
    let s = z + d;
    assert forall|i: int| 0 <= i < s.len() implies digit(#[trigger] s[i]) by {
        if i >= k {
            assert(s[i] == d[i - k]);
        }
    }
    assert(s.last() == d.last());
    if d.len() > 1 {
        let e = d.drop_last();
        assert(s.drop_last() =~= z + e);
        assert forall|i: int| 0 <= i < e.len() implies digit(#[trigger] e[i]) by {
            assert(e[i] == d[i]);
        }
        lemma_zeros(k, e);
    } else {
        assert(s.drop_last() =~= z);
        lemma_value_of_zeros(k);
        assert(value(d.drop_last()) == 0);
        assert(value(s) == value(s.drop_last()) * 10 + digit_value(s.last()));
        assert(value(d) == value(d.drop_last()) * 10 + digit_value(d.last()));
    }
}

/// Zeros stand for zero.
proof fn lemma_value_of_zeros(k: nat)
    ensures
        value(Seq::new(k, |i: int| '0')) == 0,
    decreases k,
{
    let z = Seq::new(k, |i: int| '0');
    if k > 0 {
        assert(z.drop_last() =~= Seq::new((k - 1) as nat, |i: int| '0'));
        lemma_value_of_zeros((k - 1) as nat);
    }
}

/// A number that is written with its sign is read as what it was.
pub proof fn signed_reads_back(n: int, max: nat)
    requires
        -max - 1 <= n <= max,
    ensures
        integer(signed(n), max) == Some(n),
{
    if n < 0 {
        lemma_decimal((-n) as nat);
        assert(signed(n).skip(1) =~= decimal((-n) as nat));
    } else {
        lemma_natural_decimal(n as nat, max);
        lemma_decimal(n as nat);
        assert(digit(decimal(n as nat)[0]));
    }
}

/// A number may have a plus sign before it; a number that is too large, one
/// with a minus sign, and what is not made of digits are none.
pub proof fn only_digits_are_numbers(s: Seq<char>, n: nat, max: nat)
    ensures
        n <= max ==> natural(seq!['+'] + decimal(n), max) == Some(n),
        n > max ==> natural(decimal(n), max) is None,
        natural(seq!['-'] + s, max) is None,
        natural(Seq::empty(), max) is None,
        s.len() > 0 && !digit(s[0]) && s[0] != '+' ==> natural(s, max) is None,
        s.len() > 0 && !digit(s.last()) ==> natural(s, max) is None,
{
    lemma_decimal(n);
    let d = decimal(n);
    let p = seq!['+'] + d;
    assert(p.skip(1) =~= d);
    assert(digit(d[0]));
    let m = seq!['-'] + s;
    assert(m[0] == '-');
    assert(!digit(m[0]));
    if s.len() > 0 && !digit(s.last()) {
        let u = unsigned_part(s);
        if digits(u) {
            assert(digit(u[u.len() - 1]));
        }
    }
}

/// Each digit stands for its own value.
pub proof fn digits_stand_for_their_value(d: nat)
    requires
        d < 10,
    ensures
        decimal(d) == seq![digit_char(d)],
        digit_char(d) as int == '0' as int + d,
        digit_value(digit_char(d)) == d,
{
}

} // verus!
