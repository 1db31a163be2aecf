//! Classes of characters, and the runs of them at the head of a text.

use vstd::prelude::*;
use vstd::slice::slice_subrange;

use crate::text::chars::{
    digit, is_digit, is_letter, is_sign, is_slug_char, is_space, letter, sign, slug_char, space,
};

verus! {

/// A class of characters that a scanner runs over.
#[derive(Clone, Copy, Debug, PartialEq, Eq)]
pub enum Class {
    /// Unicode white space.
    Space,
    /// Anything but Unicode white space.
    NotSpace,
    /// ASCII digits.
    Digit,
    /// Anything but an ASCII digit.
    NotDigit,
    /// ASCII digits and the thousands separator `,`.
    DigitOrComma,
    /// ASCII digits and the decimal point.
    DigitOrPoint,
    /// ASCII letters.
    Letter,
    /// Unicode white space and the variation selector that makes a sign an emoji.
    SpaceOrSelector,
    /// Anything that does not end a label: a line feed or a sign.
    Label,
    /// ASCII letters and digits, `-` and `_`.
    Slug,
    /// Anything that does not end a parameter in markup: `&`, `"`, a space or `>`.
    Parameter,
}

/// `c` belongs to the class `k`.
pub open spec fn member(k: Class, c: char) -> bool {
    match k {
        Class::Space => space(c),
        Class::NotSpace => !space(c),
        Class::Digit => digit(c),
        Class::NotDigit => !digit(c),
        Class::DigitOrComma => digit(c) || c == ',',
        Class::DigitOrPoint => digit(c) || c == '.',
        Class::Letter => letter(c),
        Class::SpaceOrSelector => space(c) || c == '\u{fe0f}',
        Class::Label => c != '\n' && !sign(c),
        Class::Slug => slug_char(c),
        Class::Parameter => c != '&' && c != '"' && c != ' ' && c != '>',
    }
}

/// Whether `c` belongs to the class `k`.
pub fn is_member(k: Class, c: char) -> (r: bool)
    ensures
        r == member(k, c),
{
    match k {
        Class::Space => is_space(c),
        Class::NotSpace => !is_space(c),
        Class::Digit => is_digit(c),
        Class::NotDigit => !is_digit(c),
        Class::DigitOrComma => is_digit(c) || c == ',',
        Class::DigitOrPoint => is_digit(c) || c == '.',
        Class::Letter => is_letter(c),
        Class::SpaceOrSelector => is_space(c) || c == '\u{fe0f}',
        Class::Label => c != '\n' && !is_sign(c),
        Class::Slug => is_slug_char(c),
        Class::Parameter => c != '&' && c != '"' && c != ' ' && c != '>',
    }
}

/// The length of the longest head of `s` whose characters all belong to `k`.
pub open spec fn run(s: Seq<char>, k: Class) -> nat
    decreases s.len(),
{
    if s.len() > 0 && member(k, s[0]) {
        1 + run(s.skip(1), k)
    } else {
        0
    }
}

/// Every character of `s` belongs to `k`.
pub open spec fn all(s: Seq<char>, k: Class) -> bool {
    forall|i: int| 0 <= i < s.len() ==> member(k, #[trigger] s[i])
}

/// The longest head of `s` whose characters all belong to `k`.
pub open spec fn head(s: Seq<char>, k: Class) -> Seq<char> {
    s.take(run(s, k) as int)
}

/// What stands behind that head.
pub open spec fn past(s: Seq<char>, k: Class) -> Seq<char> {
    s.skip(run(s, k) as int)
}

/// The run is made of members, and ends at the end of the text or at a non-member.
pub proof fn lemma_run(s: Seq<char>, k: Class)
    ensures
        run(s, k) <= s.len(),
        forall|i: int| 0 <= i < run(s, k) ==> member(k, s[i]),
        run(s, k) < s.len() ==> !member(k, s[run(s, k) as int]),
    decreases s.len(),
{
    if s.len() > 0 && member(k, s[0]) {
        let t = s.skip(1);
        lemma_run(t, k);
        assert forall|i: int| 0 <= i < run(s, k) implies member(k, s[i]) by {
            if i > 0 {
                assert(s[i] == t[i - 1]);
            }
        }
    }
}

/// A number with the properties of the run is the run.
pub proof fn lemma_run_is(s: Seq<char>, k: Class, n: nat)
    requires
        n <= s.len(),
        forall|i: int| 0 <= i < n ==> member(k, s[i]),
        n < s.len() ==> !member(k, s[n as int]),
    ensures
        run(s, k) == n,
{
    lemma_run(s, k);
    if run(s, k) < n {
        assert(member(k, s[run(s, k) as int]));
    } else if n < run(s, k) {
        assert(member(k, s[n as int]));
    }
}

/// The length of the longest head of `s` in the class `k`.
pub fn run_len(s: &[char], k: Class) -> (r: usize)
    ensures
        r == run(s@, k),
        r <= s@.len(),
{
    let mut i: usize = 0;
    while i < s.len() && is_member(k, s[i])
        invariant
            i <= s@.len(),
            forall|j: int| 0 <= j < i ==> member(k, s@[j]),
        decreases s.len() - i,
    {
        i += 1;
    }
    proof {
        lemma_run_is(s@, k, i as nat);
    }
    i
}

/// The longest head of `s` in the class `k`.
pub fn head_of<'a>(s: &'a [char], k: Class) -> (r: &'a [char])
    ensures
        r@ == head(s@, k),
{
    let n: usize = run_len(s, k);
    slice_subrange(s, 0, n)
}

/// What stands behind the longest head of `s` in the class `k`.
pub fn past_of<'a>(s: &'a [char], k: Class) -> (r: &'a [char])
    ensures
        r@ == past(s@, k),
{
    let n: usize = run_len(s, k);
    slice_subrange(s, n, s.len())
}

/// Whether every character of `s` belongs to `k`.
pub fn all_in(s: &[char], k: Class) -> (r: bool)
    ensures
        r == all(s@, k),
{
    let n: usize = run_len(s, k);
    proof {
        lemma_run(s@, k);
    }
    n == s.len()
}

/// The classes hold what their names say.
pub proof fn classes_hold_what_they_say(c: char)
    ensures
        member(Class::Digit, c) <==> '0' <= c && c <= '9',
        member(Class::NotDigit, c) <==> !member(Class::Digit, c),
        member(Class::DigitOrComma, c) <==> member(Class::Digit, c) || c == ',',
        member(Class::DigitOrPoint, c) <==> member(Class::Digit, c) || c == '.',
        member(Class::Letter, c) <==> ('a' <= c && c <= 'z') || ('A' <= c && c <= 'Z'),
        member(Class::Slug, c) <==> member(Class::Letter, c) || member(Class::Digit, c) || c == '-'
            || c == '_',
        member(Class::Space, c) <==> space(c),
        member(Class::NotSpace, c) <==> !space(c),
        member(Class::SpaceOrSelector, c) <==> space(c) || c == '\u{fe0f}',
        member(Class::Label, c) <==> !sign(c) && c != '\n',
        member(Class::Parameter, c) <==> !(c == '&' || c == '"' || c == ' ' || c == '>'),
{
}

/// A text belongs to a class where each of its parts does, and one character
/// that does not belong to it is enough for it not to.
pub proof fn texts_belong_by_their_characters(a: Seq<char>, c: char, b: Seq<char>, k: Class)
    ensures
        all(Seq::empty(), k),
        all(a + seq![c] + b, k) <==> all(a, k) && member(k, c) && all(b, k),
{
    let s = a + seq![c] + b;
    if all(s, k) {
        assert(s[a.len() as int] == c);
        assert forall|i: int| 0 <= i < a.len() implies member(k, #[trigger] a[i]) by {
            assert(s[i] == a[i]);
        }
        assert forall|i: int| 0 <= i < b.len() implies member(k, #[trigger] b[i]) by {
            assert(s[a.len() + 1 + i] == b[i]);
        }
    }
    if all(a, k) && member(k, c) && all(b, k) {
        assert forall|i: int| 0 <= i < s.len() implies member(k, #[trigger] s[i]) by {
            if i < a.len() {
                assert(s[i] == a[i]);
            } else if i > a.len() {
                assert(s[i] == b[i - a.len() - 1]);
            }
        }
    }
}

} // verus!
