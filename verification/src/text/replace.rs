//! Putting one text in the place of another.

use vstd::prelude::*;
use vstd::slice::slice_subrange;

use crate::text::chars::{lower_ascii, to_chars, to_lower_ascii};
use crate::text::find::{at, find, find_char, find_chars, lemma_find_char, lemma_has};

verus! {

/// `s` with every occurrence of `from`, taken from the left without overlap, replaced by `to`.
pub open spec fn replace(s: Seq<char>, from: Seq<char>, to: Seq<char>) -> Seq<char>
    decreases s.len(),
    via replace_shrinks
{
    match find(s, from) {
        Some(i) => if from.len() > 0 {
            s.take(i) + to + replace(s.skip(i + from.len()), from, to)
        } else {
            s
        },
        None => s,
    }
}

#[via_fn]
proof fn replace_shrinks(s: Seq<char>, from: Seq<char>, to: Seq<char>) {
    lemma_has(s, from);
}

/// `s` with its ASCII capitals made small.
pub open spec fn lower(s: Seq<char>) -> Seq<char> {
    Seq::new(s.len(), |i: int| lower_ascii(s[i]))
}

/// As `replace`, but the ASCII letters of `s` match in either case; `from` is written small.
pub open spec fn replace_any_case(s: Seq<char>, from: Seq<char>, to: Seq<char>) -> Seq<char>
    decreases s.len(),
    via replace_any_case_shrinks
{
    match find(lower(s), from) {
        Some(i) => if from.len() > 0 {
            s.take(i) + to + replace_any_case(s.skip(i + from.len()), from, to)
        } else {
            s
        },
        None => s,
    }
}

#[via_fn]
proof fn replace_any_case_shrinks(s: Seq<char>, from: Seq<char>, to: Seq<char>) {
    lemma_has(lower(s), from);
}

/// A text in which the pattern does not occur stays as it is.
pub proof fn lemma_replace_absent(s: Seq<char>, from: Seq<char>, to: Seq<char>)
    requires
        find(s, from) is None,
    ensures
        replace(s, from, to) == s,
{
}

/// Appends the characters `cs` to `out`.
pub fn push_all(out: &mut Vec<char>, cs: &[char])
    ensures
        final(out)@ == old(out)@ + cs@,
{
    let ghost start = out@;
    for i in 0..cs.len()
        invariant
            out@ == start + cs@.take(i as int),
    {
        out.push(cs[i]);
        assert(cs@.take(i + 1) =~= cs@.take(i as int).push(cs@[i as int]));
    }
    assert(cs@.take(cs@.len() as int) =~= cs@);
}

/// `s` with every occurrence of `from` replaced by `to`.
pub fn replace_all(s: &[char], from: &str, to: &str) -> (r: Vec<char>)
    requires
        from@.len() > 0,
    ensures
        r@ == replace(s@, from@, to@),
{
    let f = to_chars(from);
    let t = to_chars(to);
    let mut out: Vec<char> = Vec::new();
    let mut rest: &[char] = s;
    assert(out@ + replace(rest@, f@, t@) =~= replace(s@, f@, t@));
    loop
        invariant
            f@ == from@,
            t@ == to@,
            f@.len() > 0,
            out@ + replace(rest@, f@, t@) == replace(s@, f@, t@),
        decreases rest@.len(),
    {
        match find_chars(rest, f.as_slice(), 0) {
            Some(i) => {
                let ghost before = out@;
                let end: usize = rest.len();
                let head = slice_subrange(rest, 0, i);
                let tail = slice_subrange(rest, i + f.len(), end);
                push_all(&mut out, head);
                push_all(&mut out, t.as_slice());
                proof {
                    assert(head@ =~= rest@.take(i as int));
                    assert(tail@ =~= rest@.skip(i + f@.len()));
                    assert(out@ + replace(tail@, f@, t@) =~= before + (head@ + t@ + replace(
                        tail@,
                        f@,
                        t@,
                    )));
                }
                rest = tail;
            },
            None => {
                push_all(&mut out, rest);
                return out;
            },
        }
    }
}

/// `s` with its ASCII capitals made small.
pub fn lower_of(s: &[char]) -> (r: Vec<char>)
    ensures
        r@ == lower(s@),
{
    let mut out: Vec<char> = Vec::new();
    for i in 0..s.len()
        invariant
            out@ == lower(s@).take(i as int),
    {
        out.push(to_lower_ascii(s[i]));
        assert(lower(s@).take(i + 1) =~= lower(s@).take(i as int).push(lower_ascii(s@[i as int])));
    }
    assert(lower(s@).take(s@.len() as int) =~= lower(s@));
    out
}

/// `s` with every occurrence of `from`, in either case, replaced by `to`.
pub fn replace_all_any_case(s: &[char], from: &str, to: &str) -> (r: Vec<char>)
    requires
        from@.len() > 0,
    ensures
        r@ == replace_any_case(s@, from@, to@),
{
    let f = to_chars(from);
    let t = to_chars(to);
    let small = lower_of(s);
    let mut out: Vec<char> = Vec::new();
    let mut k: usize = 0;
    assert(s@.skip(0) =~= s@);
    assert(out@ + replace_any_case(s@.skip(0), f@, t@) =~= replace_any_case(s@, f@, t@));
    loop
        invariant
            f@ == from@,
            t@ == to@,
            f@.len() > 0,
            k <= s@.len(),
            small@ == lower(s@),
            out@ + replace_any_case(s@.skip(k as int), f@, t@) == replace_any_case(s@, f@, t@),
        decreases s@.len() - k,
    {
        let window = slice_subrange(small.as_slice(), k, small.len());
        assert(window@ =~= lower(s@.skip(k as int)));
        match find_chars(window, f.as_slice(), 0) {
            Some(i) => {
                let ghost before = out@;
                let ghost rest = s@.skip(k as int);
                let head = slice_subrange(s, k, k + i);
                push_all(&mut out, head);
                push_all(&mut out, t.as_slice());
                proof {
                    let tail = s@.skip(k + i + f@.len());
                    assert(head@ =~= rest.take(i as int));
                    assert(tail =~= rest.skip(i + f@.len()));
                    assert(out@ + replace_any_case(tail, f@, t@) =~= before + (head@ + t@
                        + replace_any_case(tail, f@, t@)));
                }
                k = k + i + f.len();
            },
            None => {
                push_all(&mut out, slice_subrange(s, k, s.len()));
                assert(s@.subrange(k as int, s@.len() as int) =~= s@.skip(k as int));
                return out;
            },
        }
    }
}

/// A character written by its name, as markup does: `&`, the name and `;`.
pub open spec fn entity(x: Seq<char>) -> bool {
    &&& x.len() >= 2
    &&& x[0] == '&'
    &&& x[x.len() - 1] == ';'
    &&& forall|i: int| 0 < i < x.len() - 1 ==> #[trigger] x[i] != '&' && x[i] != ';'
}

/// Every occurrence of a pattern is replaced from the first on, and what stands
/// before the first stays.
pub proof fn first_occurrence_is_replaced(s: Seq<char>, from: Seq<char>, to: Seq<char>, i: int)
    requires
        from.len() > 0,
        find(s, from) == Some(i),
    ensures
        replace(s, from, to) == s.take(i) + to + replace(s.skip(i + from.len()), from, to),
{
}

/// Between texts without `&`, a replacement of an entity changes that entity
/// and nothing else.
pub proof fn lemma_entity(a: Seq<char>, m: Seq<char>, b: Seq<char>, from: Seq<char>, to: Seq<char>)
    requires
        entity(from),
        find_char(a, '&') is None,
        find_char(b, '&') is None,
        entity(m) || find_char(m, '&') is None || (m == seq!['&'] && find_char(b, ';') is None),
    ensures
        replace(a + m + b, from, to) == if m == from {
            a + to + b
        } else {
            a + m + b
        },
{
    let s = a + m + b;
    let n = a.len() as int;
    lemma_find_char(a, '&');
    lemma_find_char(b, '&');
    lemma_find_char(m, '&');
    lemma_find_char(b, ';');
    lemma_has(s, from);
    lemma_has(b, from);
    if let Some(p) = find(b, from) {
        assert(b.subrange(p, p + from.len())[0] == b[p]);
    }
    lemma_replace_absent(b, from, to);
    if let Some(p) = find(s, from) {
        let w = s.subrange(p, p + from.len());
        assert(w[0] == s[p]);
        if p < n {
            assert(a[p] == '&');
        } else if p >= n + m.len() {
            assert(b[p - n - m.len()] == '&');
        } else {
            assert(m[p - n] == '&');
            assert(p == n);
            let last = from.len() - 1;
            assert(w[last] == s[n + last]);
            if entity(m) {
                if from.len() > m.len() {
                    assert(w[m.len() - 1] == s[n + m.len() - 1]);
                    assert(m[m.len() - 1] == ';');
                    assert(from[m.len() - 1] == ';');
                }
                if from.len() < m.len() {
                    assert(m[last] == ';');
                }
                assert forall|i: int| 0 <= i < m.len() implies m[i] == from[i] by {
                    assert(w[i] == s[n + i]);
                }
                assert(m =~= from);
            } else {
                assert(b[last - 1] == ';');
            }
        }
    }
    if m == from {
        assert(s.subrange(n, n + from.len()) =~= from);
        assert(at(s, from, n));
        assert(s.take(n) =~= a);
        assert(s.skip(n + from.len()) =~= b);
    }
}

/// A tag of markup: a text between `<` and `>`.
pub open spec fn tag(x: Seq<char>) -> bool {
    &&& x.len() >= 2
    &&& x[0] == '<'
    &&& x[x.len() - 1] == '>'
    &&& forall|i: int| 0 < i < x.len() - 1 ==> #[trigger] x[i] != '<' && x[i] != '>'
}

/// Between texts without `<`, a replacement of a tag in any case changes that
/// tag and nothing else.
pub proof fn lemma_tag(a: Seq<char>, m: Seq<char>, b: Seq<char>, from: Seq<char>, to: Seq<char>)
    requires
        tag(from),
        find_char(a, '<') is None,
        find_char(b, '<') is None,
        tag(m) || find_char(m, '<') is None,
    ensures
        replace_any_case(a + m + b, from, to) == if lower(m) == from {
            a + to + b
        } else {
            a + m + b
        },
{
    let s = a + m + b;
    let t = lower(s);
    let n = a.len() as int;
    lemma_find_char(a, '<');
    lemma_find_char(b, '<');
    lemma_find_char(m, '<');
    lemma_has(t, from);
    lemma_has(lower(b), from);
    if let Some(p) = find(lower(b), from) {
        assert(lower(b).subrange(p, p + from.len())[0] == lower_ascii(b[p]));
        assert(b[p] == '<');
    }
    assert(replace_any_case(b, from, to) == b);
    if let Some(p) = find(t, from) {
        let w = t.subrange(p, p + from.len());
        assert(w[0] == lower_ascii(s[p]));
        assert(s[p] == '<');
        if p < n {
            assert(a[p] == '<');
        } else if p >= n + m.len() {
            assert(b[p - n - m.len()] == '<');
        } else {
            assert(m[p - n] == '<');
            assert(p == n);
            let last = from.len() - 1;
            assert(w[last] == lower_ascii(s[n + last]));
            if from.len() > m.len() {
                assert(w[m.len() - 1] == lower_ascii(s[n + m.len() - 1]));
                assert(m[m.len() - 1] == '>');
                assert(from[m.len() - 1] == '>');
            }
            if from.len() < m.len() {
                assert(lower_ascii(m[last]) == '>');
                assert(m[last] == '>');
            }
            assert forall|i: int| 0 <= i < m.len() implies lower(m)[i] == from[i] by {
                assert(w[i] == lower_ascii(s[n + i]));
            }
            assert(lower(m) =~= from);
        }
    }
    if lower(m) == from {
        assert(t.subrange(n, n + from.len()) =~= from) by {
            assert forall|i: int| 0 <= i < from.len() implies t[n + i] == from[i] by {
                assert(lower(m)[i] == lower_ascii(m[i]));
            }
        }
        assert(at(t, from, n));
        assert(m.len() == from.len());
        assert(lower(m)[0] == lower_ascii(m[0]));
        assert(s.take(n) =~= a);
        assert(s.skip(n + from.len()) =~= b);
    }
}

} // verus!
