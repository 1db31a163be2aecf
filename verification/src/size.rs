//! Sizes, as they are written for people.

use vstd::arithmetic::div_mod::{lemma_fundamental_div_mod, lemma_mod_bound};
use vstd::arithmetic::mul::{lemma_mul_is_commutative, lemma_mul_is_distributive_add_other_way};
use vstd::prelude::*;

use crate::text::case::{ascii, to_uppercase, upper, uppercase};
use crate::text::cat::{cat, cat4};
use crate::text::chars::{digit, is_digit, letter, same_text, skip_to, space, to_text};
use crate::text::class::{all, head, head_of, lemma_run, lemma_run_is, member, past, past_of, Class};
use crate::text::find::{ends, find_char, find_one, lemma_ends_of, lemma_find_char};
use crate::text::number::{decimal, decimal_text};

verus! {

/// The whole number nearest to `n / d`; of two as near as each other, the even one.
pub open spec fn nearest(n: nat, d: nat) -> nat {
    let q = n / d;
    let r = n % d;
    if 2 * r > d || (2 * r == d && q % 2 == 1) {
        q + 1
    } else {
        q
    }
}

/// The distance between the numbers of 53 binary digits around `n`.
pub open spec fn spacing(n: nat) -> nat
    decreases n,
{
    if n < 0x20_0000_0000_0000 {
        1
    } else {
        2 * spacing(n / 2)
    }
}

/// The number of 53 binary digits nearest to `n`.
pub open spec fn in_53_digits(n: nat) -> nat {
    nearest(n, spacing(n)) * spacing(n)
}

/// A number of bytes in the largest unit that it reaches: gibibytes with one
/// decimal, mebibytes and kibibytes without, bytes as they are.
pub open spec fn humanized(bytes: nat) -> Seq<char> {
    if bytes >= 0x4000_0000 {
        let tenths = nearest(in_53_digits(bytes) * 10, 0x4000_0000);
        decimal(tenths / 10) + "."@ + decimal(tenths % 10) + " GiB"@
    } else if bytes >= 0x10_0000 {
        decimal(nearest(bytes, 0x10_0000)) + " MiB"@
    } else if bytes >= 0x400 {
        decimal(nearest(bytes, 0x400)) + " KiB"@
    } else {
        decimal(bytes) + " B"@
    }
}

/// The whole number nearest to `n / d`.
fn nearest_to(n: u128, d: u128) -> (r: u128)
    requires
        0 < d < 0x1_0000_0000_0000_0000,
        n < 0x1_0000_0000_0000_0000_0000,
    ensures
        r == nearest(n as nat, d as nat),
        r <= n / d + 1,
{
    let q: u128 = n / d;
    let rest: u128 = n % d;
    proof {
        assert(q <= n) by (nonlinear_arith)
            requires
                q == n / d,
                d > 0,
        ;
    }
    if 2 * rest > d || (2 * rest == d && q % 2 == 1) {
        q + 1
    } else {
        q
    }
}

/// The distance between the numbers of 53 binary digits around `n`.
fn spacing_of(n: u64) -> (r: u64)
    ensures
        r == spacing(n as nat),
        1 <= r < 0x1000,
{
    let mut m: u64 = n;
    let mut s: u64 = 1;
    while m >= 0x20_0000_0000_0000
        invariant
            s * spacing(m as nat) == spacing(n as nat),
            1 <= s < 0x1000,
            s * m <= n,
        decreases m,
    {
        let ghost (m0, s0) = (m, s);
        proof {
            assert(spacing(m as nat) == 2 * spacing((m / 2) as nat));
            assert(s * m >= s * 0x20_0000_0000_0000) by (nonlinear_arith)
                requires
                    m >= 0x20_0000_0000_0000,
                    s >= 1,
            ;
        }
        m = m / 2;
        s = s * 2;
        proof {
            let p = spacing(m as nat);
            assert(s0 * (2 * p) == (2 * s0) * p) by (nonlinear_arith);
            assert(s * m <= s0 * m0) by (nonlinear_arith)
                requires
                    s == 2 * s0,
                    2 * m <= m0,
            ;
        }
    }
    assert(s * 1 == s);
    s
}

/// The number of 53 binary digits nearest to `n`.
fn round_to_53_digits(n: u64) -> (r: u128)
    ensures
        r == in_53_digits(n as nat),
        r <= n + 0x1000,
{
    let s: u128 = spacing_of(n) as u128;
    let q: u128 = nearest_to(n as u128, s);
    proof {
        let d = n as int / s as int;
        assert(d * s <= n) by (nonlinear_arith)
            requires
                d == n as int / s as int,
                s > 0,
        ;
        assert(q * s <= (d + 1) * s) by (nonlinear_arith)
            requires
                q <= d + 1,
                s > 0,
        ;
        assert((d + 1) * s == d * s + s) by (nonlinear_arith);
    }
    q * s
}

/// A number of bytes as it is written for people.
pub fn humanize_bytes(bytes: u64) -> (r: String)
    ensures
        r@ == humanized(bytes as nat),
{
    if bytes >= 0x4000_0000 {
        let tenths: u128 = nearest_to(round_to_53_digits(bytes) * 10, 0x4000_0000);
        let whole = decimal_text((tenths / 10) as u64);
        let part = decimal_text((tenths % 10) as u64);
        cat4(whole.as_str(), ".", part.as_str(), " GiB")
    } else if bytes >= 0x10_0000 {
        let n: u128 = nearest_to(bytes as u128, 0x10_0000);
        cat(decimal_text(n as u64).as_str(), " MiB")
    } else if bytes >= 0x400 {
        let n: u128 = nearest_to(bytes as u128, 0x400);
        cat(decimal_text(n as u64).as_str(), " KiB")
    } else {
        cat(decimal_text(bytes).as_str(), " B")
    }
}

/// The bytes in a unit, by its name in capitals.
pub open spec fn unit(u: Seq<char>) -> Option<u64> {
    if u == "GB"@ || u == "GIB"@ {
        Some(0x4000_0000u64)
    } else if u == "MB"@ || u == "MIB"@ {
        Some(0x10_0000u64)
    } else if u == "KB"@ || u == "KIB"@ {
        Some(0x400u64)
    } else {
        None
    }
}

/// As `unit`, with the byte itself and, where `tera` is set, the tebibyte.
pub open spec fn unit_or_byte(u: Seq<char>, tera: bool) -> Option<u64> {
    if tera && (u == "TB"@ || u == "TIB"@) {
        Some(0x100_0000_0000u64)
    } else if u == "B"@ {
        Some(1u64)
    } else {
        unit(u)
    }
}

/// The bytes in a unit, by its name in capitals.
fn unit_bytes(u: &str) -> (r: Option<u64>)
    ensures
        r == unit(u@),
{
    if same_text(u, "GB") || same_text(u, "GIB") {
        Some(0x4000_0000)
    } else if same_text(u, "MB") || same_text(u, "MIB") {
        Some(0x10_0000)
    } else if same_text(u, "KB") || same_text(u, "KIB") {
        Some(0x400)
    } else {
        None
    }
}

/// The bytes in a unit, or in the byte itself, by its name in capitals.
pub fn unit_or_byte_bytes(u: &str, tera: bool) -> (r: Option<u64>)
    ensures
        r == unit_or_byte(u@, tera),
{
    if tera && (same_text(u, "TB") || same_text(u, "TIB")) {
        Some(0x100_0000_0000)
    } else if same_text(u, "B") {
        Some(1)
    } else {
        unit_bytes(u)
    }
}

/// A size as it was found written: a number, and the bytes in its unit.
#[derive(Debug, Clone)]
pub struct WrittenSize {
    pub number: String,
    pub unit: u64,
}

impl View for WrittenSize {
    type V = (Seq<char>, u64);

    open spec fn view(&self) -> (Seq<char>, u64) {
        (self.number@, self.unit)
    }
}

/// The view of an optional size.
pub open spec fn opt_size(o: Option<WrittenSize>) -> Option<(Seq<char>, u64)> {
    match o {
        Some(w) => Some(w@),
        None => None,
    }
}

/// The first word of `s`.
pub open spec fn first_word(s: Seq<char>) -> Seq<char> {
    head(past(s, Class::Space), Class::NotSpace)
}

/// What stands behind the first word of `s`.
pub open spec fn behind_first_word(s: Seq<char>) -> Seq<char> {
    past(past(s, Class::Space), Class::NotSpace)
}

/// The size in `s`, given the name of its unit in capitals: its first word is
/// the number, its second the unit.
pub open spec fn sized(s: Seq<char>, upper_unit: Seq<char>, tera: bool) -> Option<
    (Seq<char>, u64),
> {
    match unit_or_byte(upper_unit, tera) {
        Some(u) => if first_word(behind_first_word(s)).len() > 0 {
            Some((first_word(s), u))
        } else {
            None
        },
        None => None,
    }
}

/// The size written in `s` as a number and a unit, in whatever case.
pub fn parse_human_size(s: &[char], tera: bool) -> (r: Option<WrittenSize>)
    ensures
        opt_size(r) == sized(s@, uppercase(first_word(behind_first_word(s@))), tera),
{
    let rest = past_of(s, Class::Space);
    let number = head_of(rest, Class::NotSpace);
    let unit = head_of(past_of(past_of(rest, Class::NotSpace), Class::Space), Class::NotSpace);
    let name = to_uppercase(to_text(unit).as_str());
    match unit_or_byte_bytes(name.as_str(), tera) {
        Some(u) => if unit.len() > 0 {
            Some(WrittenSize { number: to_text(number), unit: u })
        } else {
            None
        },
        None => None,
    }
}

/// A number holds at most one decimal point.
pub open spec fn one_point(number: Seq<char>) -> bool {
    match find_char(number, '.') {
        Some(i) => find_char(number.skip(i + 1), '.') is None,
        None => true,
    }
}

/// The first number in `s` that a unit follows.
pub open spec fn size_in(s: Seq<char>) -> Option<(Seq<char>, u64)>
    decreases s.len(),
{
    if s.len() == 0 {
        None
    } else if digit(s[0]) {
        let number = head(s, Class::DigitOrPoint);
        let rest = past(s, Class::DigitOrPoint);
        let name = head(past(rest, Class::Space), Class::Letter);
        match unit(upper(name)) {
            Some(u) => if one_point(number) {
                Some((number, u))
            } else if rest.len() < s.len() {
                size_in(rest)
            } else {
                None
            },
            None => if rest.len() < s.len() {
                size_in(rest)
            } else {
                None
            },
        }
    } else {
        size_in(s.skip(1))
    }
}

/// Finds the first number in `s` that a unit follows.
pub fn parse_size_token(s: &[char]) -> (r: Option<WrittenSize>)
    ensures
        opt_size(r) == size_in(s@),
{
    let mut at: &[char] = s;
    while at.len() > 0
        invariant
            size_in(at@) == size_in(s@),
        decreases at@.len(),
    {
        if is_digit(at[0]) {
            let number = head_of(at, Class::DigitOrPoint);
            let rest = past_of(at, Class::DigitOrPoint);
            let name = head_of(past_of(rest, Class::Space), Class::Letter);
            let single = match find_one(number, '.') {
                Some(i) => {
                    let end: usize = number.len();
                    find_one(skip_to(number, i + 1), '.').is_none()
                },
                None => true,
            };
            let capitals = to_uppercase(to_text(name).as_str());
            proof {
                lemma_run(past(rest@, Class::Space), Class::Letter);
                lemma_run(at@, Class::DigitOrPoint);
                assert(ascii(name@));
            }
            if let Some(u) = unit_bytes(capitals.as_str()) {
                if single {
                    return Some(WrittenSize { number: to_text(number), unit: u });
                }
            }
            at = rest;
        } else {
            at = skip_to(at, 1);
        }
    }
    None
}

/// A rounded quotient is off by half at most.
pub proof fn nearest_is_within_a_half(n: nat, d: nat)
    requires
        d > 0,
    ensures
        2 * (nearest(n, d) * d) <= 2 * n + d,
        2 * n <= 2 * (nearest(n, d) * d) + d,
        n % d == 0 ==> nearest(n, d) * d == n,
{
    let q = (n / d) as int;
    lemma_fundamental_div_mod(n as int, d as int);
    lemma_mod_bound(n as int, d as int);
    lemma_mul_is_distributive_add_other_way(d as int, q, 1);
    lemma_mul_is_commutative(d as int, q);
}

/// A size is told in the largest unit that it reaches.
pub proof fn sizes_name_their_unit(bytes: nat)
    ensures
        bytes >= 1024 * 1024 * 1024 ==> ends(humanized(bytes), " GiB"@),
        1024 * 1024 <= bytes < 1024 * 1024 * 1024 ==> humanized(bytes) == decimal(
            nearest(bytes, 1024 * 1024),
        ) + " MiB"@,
        1024 <= bytes < 1024 * 1024 ==> humanized(bytes) == decimal(nearest(bytes, 1024)) + " KiB"@,
        bytes < 1024 ==> humanized(bytes) == decimal(bytes) + " B"@,
{
    if bytes >= 1024 * 1024 * 1024 {
        let tenths = nearest(in_53_digits(bytes) * 10, 0x4000_0000);
        lemma_ends_of(decimal(tenths / 10) + "."@ + decimal(tenths % 10), " GiB"@);
    }
}

/// Each unit is 1024 times the next smaller one, whether it is written with
/// two letters or three, and there is no other.
pub proof fn units_are_powers_of_1024(u: Seq<char>)
    ensures
        u == "KB"@ || u == "KIB"@ ==> unit(u) == Some(1024u64) && unit_or_byte(u, false) == Some(
            1024u64,
        ),
        u == "MB"@ || u == "MIB"@ ==> unit(u) == Some(0x10_0000u64) && unit_or_byte(u, false)
            == Some(0x10_0000u64),
        u == "GB"@ || u == "GIB"@ ==> unit(u) == Some(0x4000_0000u64) && unit_or_byte(u, false)
            == Some(0x4000_0000u64),
        u == "TB"@ || u == "TIB"@ ==> unit_or_byte(u, true) == Some(0x100_0000_0000u64)
            && unit_or_byte(u, false) is None && unit(u) is None,
        u == "B"@ ==> unit_or_byte(u, true) == Some(1u64) && unit_or_byte(u, false) == Some(1u64)
            && unit(u) is None,
        unit(u) is Some ==> unit_or_byte(u, true) == unit(u) && unit_or_byte(u, false) == unit(u),
        unit(u) is Some ==> u == "KB"@ || u == "KIB"@ || u == "MB"@ || u == "MIB"@ || u == "GB"@
            || u == "GIB"@,
{
    reveal_strlit("KB");
    reveal_strlit("KIB");
    reveal_strlit("MB");
    reveal_strlit("MIB");
    reveal_strlit("GB");
    reveal_strlit("GIB");
    reveal_strlit("TB");
    reveal_strlit("TIB");
    reveal_strlit("B");
    assert("KB"@[0] == 'K' && "MB"@[0] == 'M' && "GB"@[0] == 'G' && "TB"@[0] == 'T');
    assert("KIB"@[0] == 'K' && "MIB"@[0] == 'M' && "GIB"@[0] == 'G' && "TIB"@[0] == 'T');
}

/// A size is read where its unit is known and follows the number.
pub proof fn sizes_need_a_unit(s: Seq<char>, upper_unit: Seq<char>, tera: bool)
    ensures
        sized(s, upper_unit, tera) matches Some((number, u)) ==> unit_or_byte(upper_unit, tera)
            == Some(u) && number == first_word(s),
        sized(s, upper_unit, tera) is None <==> unit_or_byte(upper_unit, tera) is None
            || first_word(behind_first_word(s)).len() == 0,
{
}

/// A size in a text is the first number that a unit follows: its digits with at
/// most one point, the white space behind them, and the letters of the unit in
/// any case.
pub proof fn sizes_stand_before_their_unit(
    front: Seq<char>,
    number: Seq<char>,
    blank: Seq<char>,
    name: Seq<char>,
    rest: Seq<char>,
)
    requires
        all(front, Class::NotDigit),
        number.len() > 0 && digit(number[0]),
        all(number, Class::DigitOrPoint),
        one_point(number),
        all(blank, Class::Space),
        name.len() > 0,
        all(name, Class::Letter),
        rest.len() > 0 ==> !letter(rest[0]),
        unit(upper(name)) is Some,
    ensures
        size_in(front + (number + blank + name + rest)) == Some((number, unit(upper(name))->0)),
    decreases front.len(),
{
    let t = number + blank + name + rest;
    let s = front + t;
    if front.len() > 0 {
        let f = front.skip(1);
        assert(s.skip(1) =~= f + t);
        assert(member(Class::NotDigit, front[0]));
        assert(s[0] == front[0]);
        assert forall|i: int| 0 <= i < f.len() implies member(Class::NotDigit, #[trigger] f[i]) by {
            assert(member(Class::NotDigit, front[i + 1]));
        }
        sizes_stand_before_their_unit(f, number, blank, name, rest);
    } else {
        assert(s =~= t);
        assert(member(Class::Letter, name[0]));
        let after = blank + name + rest;
        assert(t =~= number + after);
        assert forall|i: int| 0 <= i < number.len() implies member(
            Class::DigitOrPoint,
            t[i],
        ) by {
            assert(t[i] == number[i]);
            assert(member(Class::DigitOrPoint, number[i]));
        }
        if blank.len() > 0 {
            assert(after[0] == blank[0]);
            assert(member(Class::Space, blank[0]));
        } else {
            assert(after[0] == name[0]);
        }
        assert(t[number.len() as int] == after[0]);
        lemma_run_is(t, Class::DigitOrPoint, number.len());
        assert(t.take(number.len() as int) =~= number);
        assert(t.skip(number.len() as int) =~= after);
        let last = name + rest;
        assert(after =~= blank + last);
        assert forall|i: int| 0 <= i < blank.len() implies member(Class::Space, after[i]) by {
            assert(after[i] == blank[i]);
            assert(member(Class::Space, blank[i]));
        }
        assert(after[blank.len() as int] == name[0]);
        lemma_run_is(after, Class::Space, blank.len());
        assert(after.skip(blank.len() as int) =~= last);
        assert forall|i: int| 0 <= i < name.len() implies member(Class::Letter, last[i]) by {
            assert(last[i] == name[i]);
            assert(member(Class::Letter, name[i]));
        }
        if rest.len() > 0 {
            assert(last[name.len() as int] == rest[0]);
        }
        lemma_run_is(last, Class::Letter, name.len());
        assert(last.take(name.len() as int) =~= name);
    }
}

/// A text without digits holds no size.
pub proof fn sizes_need_digits(s: Seq<char>)
    requires
        all(s, Class::NotDigit),
    ensures
        size_in(s) is None,
    decreases s.len(),
{
    if s.len() > 0 {
        let t = s.skip(1);
        assert(member(Class::NotDigit, s[0]));
        assert forall|i: int| 0 <= i < t.len() implies member(Class::NotDigit, #[trigger] t[i]) by {
            assert(member(Class::NotDigit, s[i + 1]));
        }
        sizes_need_digits(t);
    }
}

/// Halfway between two numbers the even one is the nearest.
pub proof fn halves_go_to_the_even_number(n: nat, d: nat)
    requires
        d > 0,
        2 * (n % d) == d,
    ensures
        nearest(n, d) % 2 == 0,
{
}

/// A size of up to 53 binary digits is kept as it is, and a larger one is
/// rounded to the nearest number of 53 digits: a multiple of the distance that
/// such numbers have there.
pub proof fn large_sizes_are_rounded(n: nat)
    ensures
        n < 0x20_0000_0000_0000 ==> spacing(n) == 1 && in_53_digits(n) == n,
        spacing(n) >= 1,
        n < 0x20_0000_0000_0000 * spacing(n),
        n >= 0x20_0000_0000_0000 ==> 0x10_0000_0000_0000 * spacing(n) <= n,
        in_53_digits(n) == nearest(n, spacing(n)) * spacing(n),
    decreases n,
{
    if n >= 0x20_0000_0000_0000 {
        large_sizes_are_rounded(n / 2);
    } else {
        nearest_is_within_a_half(n, 1);
    }
}

/// From a GiB on a size is told in tenths of it.
pub proof fn large_sizes_are_told_in_tenths(bytes: nat, whole: nat, tenth: nat)
    requires
        0x4000_0000 <= bytes < 0x20_0000_0000_0000,
        nearest(bytes * 10, 0x4000_0000) == whole * 10 + tenth,
        tenth < 10,
    ensures
        humanized(bytes) == decimal(whole) + "."@ + decimal(tenth) + " GiB"@,
{
    large_sizes_are_rounded(bytes);
}

/// A word is what stands between white space.
pub proof fn words_stand_between_white_space(blank: Seq<char>, word: Seq<char>, rest: Seq<char>)
    requires
        all(blank, Class::Space),
        word.len() > 0,
        all(word, Class::NotSpace),
        rest.len() > 0 ==> space(rest[0]),
    ensures
        first_word(blank + word + rest) == word,
        behind_first_word(blank + word + rest) == rest,
{
    let s = blank + word + rest;
    assert forall|i: int| 0 <= i < blank.len() implies member(Class::Space, s[i]) by {
        assert(s[i] == blank[i]);
        assert(member(Class::Space, blank[i]));
    }
    assert(member(Class::NotSpace, word[0]));
    assert(s[blank.len() as int] == word[0]);
    lemma_run_is(s, Class::Space, blank.len());
    let t = s.skip(blank.len() as int);
    assert(t =~= word + rest);
    assert forall|i: int| 0 <= i < word.len() implies member(Class::NotSpace, t[i]) by {
        assert(t[i] == word[i]);
        assert(member(Class::NotSpace, word[i]));
    }
    if rest.len() > 0 {
        assert(t[word.len() as int] == rest[0]);
    }
    lemma_run_is(t, Class::NotSpace, word.len());
    assert(t.take(word.len() as int) =~= word);
    assert(t.skip(word.len() as int) =~= rest);
}

/// What is seen of a written size is its number and its unit.
pub proof fn written_sizes_are_seen_in_full(w: WrittenSize)
    ensures
        w@ == (w.number@, w.unit),
        opt_size(Some(w)) == Some((w.number@, w.unit)),
{
}

/// A number has one point at most.
pub proof fn numbers_have_one_point(a: Seq<char>, b: Seq<char>, c: Seq<char>)
    requires
        find_char(a, '.') is None,
        find_char(b, '.') is None,
    ensures
        one_point(a),
        one_point(a + seq!['.'] + b),
        !one_point(a + seq!['.'] + (b + seq!['.'] + c)),
{
    lemma_point(a, b);
    let t = b + seq!['.'] + c;
    lemma_point(a, t);
    lemma_find_char(t, '.');
    assert(t[b.len() as int] == '.');
}

/// The first point stands behind what has none.
proof fn lemma_point(a: Seq<char>, b: Seq<char>)
    requires
        find_char(a, '.') is None,
    ensures
        find_char(a + seq!['.'] + b, '.') == Some(a.len() as int),
        (a + seq!['.'] + b).skip(a.len() as int + 1) == b,
{
    let s = a + seq!['.'] + b;
    lemma_find_char(a, '.');
    lemma_find_char(s, '.');
    assert(s[a.len() as int] == '.');
    let p = find_char(s, '.').unwrap();
    if p < a.len() {
        assert(a[p] == '.');
    }
    assert(s.skip(a.len() as int + 1) =~= b);
}

} // verus!
