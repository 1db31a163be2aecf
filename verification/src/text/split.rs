//! Cutting a text at separators and into lines.

use vstd::prelude::*;
use vstd::slice::slice_subrange;

use crate::text::chars::{rows, texts, to_chars};
use crate::text::find::{find_char, find_one, lemma_find_char};
use crate::text::replace::push_all;

verus! {

/// The views of a list of character slices.
pub open spec fn slices(v: Seq<&[char]>) -> Seq<Seq<char>> {
    Seq::new(v.len(), |i: int| v[i]@)
}

/// The pieces of `s` between the separators `c`; there is always one at least.
pub open spec fn split(s: Seq<char>, c: char) -> Seq<Seq<char>>
    decreases s.len(),
    via split_shrinks
{
    match find_char(s, c) {
        Some(i) => seq![s.take(i)] + split(s.skip(i + 1), c),
        None => seq![s],
    }
}

#[via_fn]
proof fn split_shrinks(s: Seq<char>, c: char) {
    lemma_find_char(s, c);
}

/// `s` without a carriage return at its end.
pub open spec fn drop_cr(s: Seq<char>) -> Seq<char> {
    if s.len() > 0 && s.last() == '\r' {
        s.drop_last()
    } else {
        s
    }
}

/// The lines of `s`: what stands before each line feed, less one carriage
/// return at its end, and what is left behind the last one if it is not empty.
pub open spec fn lines(s: Seq<char>) -> Seq<Seq<char>>
    decreases s.len(),
    via lines_shrink
{
    match find_char(s, '\n') {
        Some(i) => seq![drop_cr(s.take(i))] + lines(s.skip(i + 1)),
        None => if s.len() == 0 {
            seq![]
        } else {
            seq![s]
        },
    }
}

#[via_fn]
proof fn lines_shrink(s: Seq<char>) {
    lemma_find_char(s, '\n');
}

/// The pieces joined again, with `sep` between them.
pub open spec fn join(v: Seq<Seq<char>>, sep: Seq<char>) -> Seq<char>
    decreases v.len(),
{
    if v.len() == 0 {
        seq![]
    } else if v.len() == 1 {
        v[0]
    } else {
        join(v.drop_last(), sep) + sep + v.last()
    }
}

/// The pieces of `s` between the separators `c`.
pub fn split_at_char<'a>(s: &'a [char], c: char) -> (r: Vec<&'a [char]>)
    ensures
        slices(r@) == split(s@, c),
        r@.len() >= 1,
{
    let mut out: Vec<&'a [char]> = Vec::new();
    let mut rest: &'a [char] = s;
    assert(slices(out@) + split(rest@, c) =~= split(s@, c));
    loop
        invariant
            slices(out@) + split(rest@, c) == split(s@, c),
        decreases rest@.len(),
    {
        match find_one(rest, c) {
            Some(i) => {
                let ghost before = slices(out@);
                let end: usize = rest.len();
                let piece: &'a [char] = slice_subrange(rest, 0, i);
                let tail: &'a [char] = slice_subrange(rest, i + 1, end);
                out.push(piece);
                proof {
                    assert(piece@ =~= rest@.take(i as int));
                    assert(tail@ =~= rest@.skip(i + 1));
                    assert(slices(out@) =~= before.push(piece@));
                    assert(before.push(piece@) + split(tail@, c) =~= before + (seq![piece@]
                        + split(tail@, c)));
                }
                rest = tail;
            },
            None => {
                let ghost before = slices(out@);
                out.push(rest);
                assert(slices(out@) =~= before + seq![rest@]);
                return out;
            },
        }
    }
}

/// The lines of `s`.
pub fn lines_of<'a>(s: &'a [char]) -> (r: Vec<&'a [char]>)
    ensures
        slices(r@) == lines(s@),
{
    let mut out: Vec<&'a [char]> = Vec::new();
    let mut rest: &'a [char] = s;
    assert(slices(out@) + lines(rest@) =~= lines(s@));
    loop
        invariant
            slices(out@) + lines(rest@) == lines(s@),
        decreases rest@.len(),
    {
        match find_one(rest, '\n') {
            Some(i) => {
                let ghost before = slices(out@);
                let mut n: usize = i;
                if i > 0 && rest[i - 1] == '\r' {
                    n = i - 1;
                }
                let end: usize = rest.len();
                let piece: &'a [char] = slice_subrange(rest, 0, n);
                let tail: &'a [char] = slice_subrange(rest, i + 1, end);
                out.push(piece);
                proof {
                    assert(piece@ =~= drop_cr(rest@.take(i as int)));
                    assert(tail@ =~= rest@.skip(i + 1));
                    assert(slices(out@) =~= before.push(piece@));
                    assert(before.push(piece@) + lines(tail@) =~= before + (seq![piece@] + lines(
                        tail@,
                    )));
                }
                rest = tail;
            },
            None => {
                let ghost before = slices(out@);
                if rest.len() > 0 {
                    out.push(rest);
                    assert(slices(out@) =~= before + seq![rest@]);
                } else {
                    assert(slices(out@) =~= before + lines(rest@));
                }
                return out;
            },
        }
    }
}

/// The rows joined, with `sep` between them.
pub fn join_rows(v: &Vec<Vec<char>>, sep: &str) -> (r: Vec<char>)
    ensures
        r@ == join(rows(v@), sep@),
{
    let mut out: Vec<char> = Vec::new();
    let sep_chars = to_chars(sep);
    for i in 0..v.len()
        invariant
            sep_chars@ == sep@,
            out@ == join(rows(v@).take(i as int), sep@),
    {
        if i > 0 {
            push_all(&mut out, sep_chars.as_slice());
        }
        push_all(&mut out, v[i].as_slice());
        proof {
            let now = rows(v@).take(i + 1);
            assert(now.drop_last() =~= rows(v@).take(i as int));
            assert(now.last() == v@[i as int]@);
            if i == 0 {
                assert(out@ =~= v@[0]@);
            }
        }
    }
    assert(rows(v@).take(v@.len() as int) =~= rows(v@));
    out
}

/// The texts joined, with `sep` between them.
pub fn join_texts(v: &Vec<String>, sep: &str) -> (r: String)
    ensures
        r@ == join(texts(v@), sep@),
{
    let mut out = String::new();
    for i in 0..v.len()
        invariant
            out@ == join(texts(v@).take(i as int), sep@),
    {
        if i > 0 {
            out.append(sep);
        }
        out.append(v[i].as_str());
        proof {
            let now = texts(v@).take(i + 1);
            assert(now.drop_last() =~= texts(v@).take(i as int));
            assert(now.last() == v@[i as int]@);
            if i == 0 {
                assert(out@ =~= v@[0]@);
            }
        }
    }
    assert(texts(v@).take(v@.len() as int) =~= texts(v@));
    out
}

/// Where two texts stand around a separator, their pieces follow each other.
pub proof fn lemma_split_cat(x: Seq<char>, y: Seq<char>, c: char)
    ensures
        split(x + seq![c] + y, c) == split(x, c) + split(y, c),
    decreases x.len(),
{
    let whole = x + seq![c] + y;
    lemma_find_char(x, c);
    lemma_find_char(whole, c);
    match find_char(x, c) {
        Some(i) => {
            assert(whole[i] == c);
            let p = find_char(whole, c).unwrap();
            if p < i {
                assert(x[p] == c);
            }
            assert(p == i);
            assert(whole.take(i) =~= x.take(i));
            assert(whole.skip(i + 1) =~= x.skip(i + 1) + seq![c] + y);
            lemma_split_cat(x.skip(i + 1), y, c);
            assert(seq![x.take(i)] + (split(x.skip(i + 1), c) + split(y, c)) =~= split(x, c)
                + split(y, c));
        },
        None => {
            assert(whole[x.len() as int] == c);
            let p = find_char(whole, c).unwrap();
            if p < x.len() {
                assert(x[p] == c);
            }
            assert(p == x.len());
            assert(whole.take(p) =~= x);
            assert(whole.skip(p + 1) =~= y);
        },
    }
}

/// Pieces without the separator, joined and cut again, are the same pieces.
pub proof fn lemma_split_join(v: Seq<Seq<char>>, c: char)
    requires
        v.len() > 0,
        forall|i: int| 0 <= i < v.len() ==> find_char(#[trigger] v[i], c) is None,
    ensures
        split(join(v, seq![c]), c) == v,
    decreases v.len(),
{
    if v.len() == 1 {
        assert(split(v[0], c) =~= v);
    } else {
        let d = v.drop_last();
        assert forall|i: int| 0 <= i < d.len() implies find_char(#[trigger] d[i], c) is None by {
            assert(d[i] == v[i]);
        }
        lemma_split_join(d, c);
        lemma_split_cat(join(d, seq![c]), v.last(), c);
        assert(find_char(v[v.len() - 1], c) is None);
        assert(split(v.last(), c) =~= seq![v.last()]);
        assert(d + seq![v.last()] =~= v);
    }
}

/// The pieces of a text do not hold the separator, and nothing that the text
/// does not hold.
pub proof fn lemma_split_pieces(s: Seq<char>, c: char, d: char)
    requires
        d == c || find_char(s, d) is None,
    ensures
        split(s, c).len() >= 1,
        forall|i: int| 0 <= i < split(s, c).len() ==> find_char(#[trigger] split(s, c)[i], d) is None,
    decreases s.len(),
{
    lemma_find_char(s, c);
    lemma_find_char(s, d);
    match find_char(s, c) {
        Some(i) => {
            let rest = s.skip(i + 1);
            lemma_find_char(rest, d);
            if d != c {
                if let Some(p) = find_char(rest, d) {
                    assert(s[p + i + 1] == d);
                }
            }
            lemma_split_pieces(rest, c, d);
            lemma_find_char(s.take(i), d);
            if let Some(p) = find_char(s.take(i), d) {
                assert(s[p] == d);
            }
            assert forall|k: int| 0 <= k < split(s, c).len() implies find_char(
                #[trigger] split(s, c)[k],
                d,
            ) is None by {
                if k > 0 {
                    assert(split(s, c)[k] == split(rest, c)[k - 1]);
                }
            }
        },
        None => {},
    }
}

/// Joined pieces begin with the first, and the others follow behind a
/// separator.
pub proof fn lemma_join_behind(first: Seq<char>, rest: Seq<Seq<char>>, sep: Seq<char>)
    ensures
        join(seq![first], sep) == first,
        rest.len() > 0 ==> join(seq![first] + rest, sep) == first + sep + join(rest, sep),
    decreases rest.len(),
{
    if rest.len() == 1 {
        let v = seq![first] + rest;
        assert(v.drop_last() =~= seq![first]);
        assert(join(v.drop_last(), sep) == first);
    } else if rest.len() > 1 {
        let v = seq![first] + rest;
        assert(v.drop_last() =~= seq![first] + rest.drop_last());
        lemma_join_behind(first, rest.drop_last(), sep);
        assert(v.last() == rest.last());
        assert(join(v, sep) =~= first + sep + join(rest, sep));
    }
}

/// The first line is what stands before the first line feed, less a carriage
/// return at its end, and the others follow. Nothing has no line, and a text
/// without a line feed is one.
pub proof fn first_line_stands_before_the_feed(line: Seq<char>, rest: Seq<char>)
    requires
        find_char(line, '\n') is None,
    ensures
        lines(line + seq!['\n'] + rest) == seq![
            if line.len() > 0 && line.last() == '\r' {
                line.drop_last()
            } else {
                line
            },
        ] + lines(rest),
        line.len() > 0 ==> lines(line) == seq![line],
        lines(Seq::empty()).len() == 0,
{
    let s = line + seq!['\n'] + rest;
    lemma_find_char(line, '\n');
    lemma_find_char(s, '\n');
    lemma_find_char(Seq::empty(), '\n');
    assert(s[line.len() as int] == '\n');
    let p = find_char(s, '\n').unwrap();
    if p < line.len() {
        assert(line[p] == '\n');
    }
    assert(s.take(p) =~= line);
    assert(s.skip(p + 1) =~= rest);
}

} // verus!
