//! Cutting what is wanted out of a page's markup.

use vstd::prelude::*;

use crate::text::chars::{opt, skip_to, take_to, to_chars, to_text};
use crate::text::find::{
    at, find, find_char, find_one, find_text, lemma_find_char, lemma_has, occurs,
};

verus! {

/// What stands behind the first place where `s` holds the marker.
pub open spec fn behind(s: Seq<char>, marker: Seq<char>) -> Option<Seq<char>> {
    match find(s, marker) {
        Some(i) => Some(s.skip(i + marker.len())),
        None => None,
    }
}

/// What stands behind the first terminator that follows the marker.
pub open spec fn after(s: Seq<char>, marker: Seq<char>, terminator: char) -> Option<Seq<char>> {
    match behind(s, marker) {
        Some(t) => match find_char(t, terminator) {
            Some(j) => Some(t.skip(j + 1)),
            None => None,
        },
        None => None,
    }
}

/// What stands before the first place where `s` holds the terminator.
pub open spec fn until(s: Seq<char>, terminator: Seq<char>) -> Option<Seq<char>> {
    match find(s, terminator) {
        Some(i) => Some(s.take(i)),
        None => None,
    }
}

/// The view of an optional slice.
pub open spec fn opt_slice(o: Option<&[char]>) -> Option<Seq<char>> {
    match o {
        Some(s) => Some(s@),
        None => None,
    }
}

/// What stands behind the first place where `s` holds the marker.
pub fn text_behind<'a>(s: &'a [char], marker: &str) -> (r: Option<&'a [char]>)
    ensures
        opt_slice(r) == behind(s@, marker@),
{
    match find_text(s, marker) {
        Some(i) => {
            let n: usize = to_chars(marker).len();
            let end: usize = s.len();
            Some(skip_to(s, i + n))
        },
        None => None,
    }
}

/// What stands behind the first terminator that follows the marker.
pub fn extract_after<'a>(s: &'a [char], marker: &str, terminator: char) -> (r: Option<&'a [char]>)
    ensures
        opt_slice(r) == after(s@, marker@, terminator),
{
    match text_behind(s, marker) {
        Some(t) => {
            let end: usize = t.len();
            match find_one(t, terminator) {
                Some(j) => Some(skip_to(t, j + 1)),
                None => None,
            }
        },
        None => None,
    }
}

/// What stands before the first place where `s` holds the terminator.
pub fn extract_until<'a>(s: &'a [char], terminator: &str) -> (r: Option<&'a [char]>)
    ensures
        opt_slice(r) == until(s@, terminator@),
{
    match find_text(s, terminator) {
        Some(i) => Some(take_to(s, i)),
        None => None,
    }
}

/// What stands between the first place where `s` holds the marker and the
/// next double quote.
pub open spec fn quoted_value(s: Seq<char>, marker: Seq<char>) -> Option<Seq<char>> {
    match behind(s, marker) {
        Some(t) => match find_char(t, '"') {
            Some(j) => Some(t.take(j)),
            None => None,
        },
        None => None,
    }
}

/// What stands between the marker and the next double quote.
pub fn extract_quoted(s: &[char], marker: &str) -> (r: Option<String>)
    ensures
        opt(r) == quoted_value(s@, marker@),
{
    match text_behind(s, marker) {
        Some(t) => match find_one(t, '"') {
            Some(j) => Some(to_text(take_to(t, j))),
            None => None,
        },
        None => None,
    }
}

/// What stands behind the first marker is found, and nothing where there is no
/// marker.
pub proof fn first_marker_counts(front: Seq<char>, marker: Seq<char>, rest: Seq<char>, none: Seq<char>)
    requires
        forall|i: int| 0 <= i < front.len() ==> !at(front + marker + rest, marker, i),
        !occurs(none, marker),
    ensures
        behind(front + marker + rest, marker) == Some(rest),
        until(front + marker + rest, marker) == Some(front),
        behind(none, marker) is None,
        until(none, marker) is None,
{
    let s = front + marker + rest;
    lemma_has(s, marker);
    assert(s.subrange(front.len() as int, front.len() as int + marker.len()) =~= marker);
    assert(at(s, marker, front.len() as int));
    let p = find(s, marker).unwrap();
    assert(p == front.len());
    assert(s.skip(p + marker.len()) =~= rest);
    assert(s.take(p) =~= front);
}

/// Behind a marker, what stands after the next terminator is found.
pub proof fn next_terminator_counts(
    front: Seq<char>,
    marker: Seq<char>,
    between: Seq<char>,
    c: char,
    rest: Seq<char>,
)
    requires
        forall|i: int|
            0 <= i < front.len() ==> !at(front + marker + (between + seq![c] + rest), marker, i),
        find_char(between, c) is None,
    ensures
        after(front + marker + (between + seq![c] + rest), marker, c) == Some(rest),
{
    let t = between + seq![c] + rest;
    lemma_has(front + marker + t, marker);
    lemma_behind(front, marker, t);
    lemma_find_char(between, c);
    lemma_find_char(t, c);
    assert(t[between.len() as int] == c);
    let p = find_char(t, c).unwrap();
    if p < between.len() {
        assert(between[p] == c);
    }
    assert(t.skip(p + 1) =~= rest);
}

/// The value of an attribute is what stands between the quote that ends the
/// marker and the next one.
pub proof fn values_stand_between_quotes(
    front: Seq<char>,
    marker: Seq<char>,
    value: Seq<char>,
    rest: Seq<char>,
)
    requires
        forall|i: int|
            0 <= i < front.len() ==> !at(front + marker + (value + seq!['"'] + rest), marker, i),
        find_char(value, '"') is None,
    ensures
        quoted_value(front + marker + (value + seq!['"'] + rest), marker) == Some(value),
{
    let t = value + seq!['"'] + rest;
    lemma_behind(front, marker, t);
    lemma_find_char(value, '"');
    lemma_find_char(t, '"');
    assert(t[value.len() as int] == '"');
    let p = find_char(t, '"').unwrap();
    if p < value.len() {
        assert(value[p] == '"');
    }
    assert(t.take(p) =~= value);
}

/// What stands behind the first marker.
proof fn lemma_behind(front: Seq<char>, marker: Seq<char>, rest: Seq<char>)
    requires
        forall|i: int| 0 <= i < front.len() ==> !at(front + marker + rest, marker, i),
    ensures
        behind(front + marker + rest, marker) == Some(rest),
{
    let s = front + marker + rest;
    lemma_has(s, marker);
    assert(s.subrange(front.len() as int, front.len() as int + marker.len()) =~= marker);
    assert(at(s, marker, front.len() as int));
    assert(s.skip(find(s, marker).unwrap() + marker.len()) =~= rest);
}

} // verus!
