//! Cutting white space, and other repeated ends, off a text.

use vstd::prelude::*;
use vstd::slice::slice_subrange;

use crate::text::chars::{is_space, space, to_chars, to_text};
use crate::text::find::{begins, begins_with};

verus! {

/// `s` without the white space at its head.
pub open spec fn trim_start(s: Seq<char>) -> Seq<char>
    decreases s.len(),
{
    if s.len() > 0 && space(s[0]) {
        trim_start(s.skip(1))
    } else {
        s
    }
}

/// `s` without the white space at its tail.
pub open spec fn trim_end(s: Seq<char>) -> Seq<char>
    decreases s.len(),
{
    if s.len() > 0 && space(s.last()) {
        trim_end(s.drop_last())
    } else {
        s
    }
}

/// `s` without the white space at both ends.
pub open spec fn trim(s: Seq<char>) -> Seq<char> {
    trim_end(trim_start(s))
}

/// `s` without the characters `c` at its tail.
pub open spec fn trim_end_char(s: Seq<char>, c: char) -> Seq<char>
    decreases s.len(),
{
    if s.len() > 0 && s.last() == c {
        trim_end_char(s.drop_last(), c)
    } else {
        s
    }
}

/// `s` without the repetitions of `p` at its head.
pub open spec fn trim_start_text(s: Seq<char>, p: Seq<char>) -> Seq<char>
    decreases s.len(),
{
    if p.len() > 0 && begins(s, p) {
        trim_start_text(s.skip(p.len() as int), p)
    } else {
        s
    }
}

/// The text begins and ends with something else than white space, or is empty.
pub open spec fn trimmed(s: Seq<char>) -> bool {
    s.len() > 0 ==> !space(s[0]) && !space(s.last())
}

/// Cutting the head keeps a tail of the text and leaves no white space at its head.
pub proof fn lemma_trim_start(s: Seq<char>)
    ensures
        trim_start(s).len() <= s.len(),
        trim_start(s) == s.skip(s.len() - trim_start(s).len()),
        trim_start(s).len() > 0 ==> !space(trim_start(s)[0]),
    decreases s.len(),
{
    if s.len() > 0 && space(s[0]) {
        lemma_trim_start(s.skip(1));
        let k = s.len() - trim_start(s).len();
        assert(s.skip(1).skip(k - 1) =~= s.skip(k));
    } else {
        assert(s.skip(0) =~= s);
    }
}

/// Cutting the tail keeps a head of the text and leaves no white space at its tail.
pub proof fn lemma_trim_end(s: Seq<char>)
    ensures
        trim_end(s).len() <= s.len(),
        trim_end(s) == s.take(trim_end(s).len() as int),
        trim_end(s).len() > 0 ==> !space(trim_end(s).last()),
    decreases s.len(),
{
    if s.len() > 0 && space(s.last()) {
        lemma_trim_end(s.drop_last());
        assert(s.drop_last().take(trim_end(s).len() as int) =~= s.take(trim_end(s).len() as int));
    } else {
        assert(s.take(s.len() as int) =~= s);
    }
}

/// What `trim` gives has no white space at either end.
pub proof fn lemma_trim(s: Seq<char>)
    ensures
        trimmed(trim(s)),
        trim(s).len() <= s.len(),
{
    lemma_trim_start(s);
    lemma_trim_end(trim_start(s));
}

/// `s` without the white space at its head.
pub fn trim_head<'a>(s: &'a [char]) -> (r: &'a [char])
    ensures
        r@ == trim_start(s@),
{
    let mut i: usize = 0;
    assert(s@.skip(0) =~= s@);
    while i < s.len() && is_space(s[i])
        invariant
            i <= s@.len(),
            trim_start(s@) == trim_start(s@.skip(i as int)),
        decreases s.len() - i,
    {
        assert(s@.skip(i as int).skip(1) =~= s@.skip(i + 1));
        i += 1;
    }
    slice_subrange(s, i, s.len())
}

/// `s` without the white space at its tail.
pub fn trim_tail<'a>(s: &'a [char]) -> (r: &'a [char])
    ensures
        r@ == trim_end(s@),
{
    let mut n: usize = s.len();
    assert(s@.take(n as int) =~= s@);
    while n > 0 && is_space(s[n - 1])
        invariant
            n <= s@.len(),
            trim_end(s@) == trim_end(s@.take(n as int)),
        decreases n,
    {
        assert(s@.take(n as int).drop_last() =~= s@.take(n - 1));
        n -= 1;
    }
    assert(s@.take(n as int) =~= s@.subrange(0, n as int));
    slice_subrange(s, 0, n)
}

/// `s` without the white space at both ends.
pub fn trim_both<'a>(s: &'a [char]) -> (r: &'a [char])
    ensures
        r@ == trim(s@),
{
    trim_tail(trim_head(s))
}

/// `s` without the white space at both ends, as a string of its own.
pub fn trim_text(s: &str) -> (r: String)
    ensures
        r@ == trim(s@),
{
    to_text(trim_both(to_chars(s).as_slice()))
}

/// `s` without the characters `c` at its tail.
pub fn trim_tail_char<'a>(s: &'a [char], c: char) -> (r: &'a [char])
    ensures
        r@ == trim_end_char(s@, c),
{
    let mut n: usize = s.len();
    assert(s@.take(n as int) =~= s@);
    while n > 0 && s[n - 1] == c
        invariant
            n <= s@.len(),
            trim_end_char(s@, c) == trim_end_char(s@.take(n as int), c),
        decreases n,
    {
        assert(s@.take(n as int).drop_last() =~= s@.take(n - 1));
        n -= 1;
    }
    assert(s@.take(n as int) =~= s@.subrange(0, n as int));
    slice_subrange(s, 0, n)
}

/// `s` without the repetitions of `p` at its head.
pub fn trim_head_text<'a>(s: &'a [char], p: &str) -> (r: &'a [char])
    requires
        p@.len() > 0,
    ensures
        r@ == trim_start_text(s@, p@),
{
    let n: usize = to_chars(p).len();
    let mut i: usize = 0;
    assert(s@.skip(0) =~= s@);
    while begins_with(slice_subrange(s, i, s.len()), p)
        invariant
            i <= s@.len(),
            n == p@.len(),
            n > 0,
            trim_start_text(s@, p@) == trim_start_text(s@.skip(i as int), p@),
        decreases s.len() - i,
    {
        assert(s@.subrange(i as int, s@.len() as int) =~= s@.skip(i as int));
        assert(s@.skip(i as int).skip(n as int) =~= s@.skip(i + n));
        i += n;
    }
    assert(s@.subrange(i as int, s@.len() as int) =~= s@.skip(i as int));
    slice_subrange(s, i, s.len())
}

/// What `trim` cuts off is white space and nothing else.
pub proof fn only_space_is_cut(s: Seq<char>)
    ensures
        exists|i: int, j: int|
            0 <= i <= j <= s.len() && trim(s) == #[trigger] s.subrange(i, j) && (forall|k: int|
                0 <= k < i ==> space(#[trigger] s[k])) && (forall|k: int|
                j <= k < s.len() ==> space(#[trigger] s[k])),
{
    let t = trim_start(s);
    lemma_trim_start(s);
    lemma_head_is_space(s);
    lemma_trim_end(t);
    lemma_tail_is_space(t);
    let i = s.len() - t.len();
    let j = i + trim(s).len();
    assert(trim(s) =~= s.subrange(i, j));
    assert forall|k: int| j <= k < s.len() implies space(#[trigger] s[k]) by {
        assert(t[k - i] == s[k]);
    }
}

/// What is cut off the head is white space.
proof fn lemma_head_is_space(s: Seq<char>)
    ensures
        forall|k: int| 0 <= k < s.len() - trim_start(s).len() ==> space(#[trigger] s[k]),
    decreases s.len(),
{
    if s.len() > 0 && space(s[0]) {
        let t = s.skip(1);
        lemma_head_is_space(t);
        assert forall|k: int| 0 <= k < s.len() - trim_start(s).len() implies space(
            #[trigger] s[k],
        ) by {
            if k > 0 {
                assert(s[k] == t[k - 1]);
            }
        }
    }
}

/// What is cut off the tail is white space.
proof fn lemma_tail_is_space(s: Seq<char>)
    ensures
        forall|k: int| trim_end(s).len() <= k < s.len() ==> space(#[trigger] s[k]),
    decreases s.len(),
{
    if s.len() > 0 && space(s.last()) {
        let t = s.drop_last();
        lemma_tail_is_space(t);
        assert forall|k: int| trim_end(s).len() <= k < s.len() implies space(#[trigger] s[k]) by {
            if k < s.len() - 1 {
                assert(s[k] == t[k]);
            }
        }
    }
}

/// A character that is cut off the tail leaves a head of the text that does
/// not end with it, and is all that was cut off.
pub proof fn only_the_character_is_cut(s: Seq<char>, c: char)
    ensures
        trim_end_char(s, c).len() <= s.len(),
        trim_end_char(s, c) == s.take(trim_end_char(s, c).len() as int),
        trim_end_char(s, c).len() > 0 ==> trim_end_char(s, c).last() != c,
        forall|k: int| trim_end_char(s, c).len() <= k < s.len() ==> #[trigger] s[k] == c,
    decreases s.len(),
{
    if s.len() > 0 && s.last() == c {
        let t = s.drop_last();
        only_the_character_is_cut(t, c);
        let n = trim_end_char(s, c).len() as int;
        assert(t.take(n) =~= s.take(n));
        assert forall|k: int| n <= k < s.len() implies #[trigger] s[k] == c by {
            if k < s.len() - 1 {
                assert(s[k] == t[k]);
            }
        }
    } else {
        assert(s.take(s.len() as int) =~= s);
    }
}

} // verus!
