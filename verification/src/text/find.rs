//! Searching: where a pattern or a character first stands.

use vstd::prelude::*;

use crate::text::chars::to_chars;

verus! {

/// `n` stands in `h` at position `i`.
pub open spec fn at(h: Seq<char>, n: Seq<char>, i: int) -> bool {
    0 <= i && i + n.len() <= h.len() && h.subrange(i, i + n.len()) == n
}

/// The first position at or behind `i` at which `n` stands in `h`.
pub open spec fn find_from(h: Seq<char>, n: Seq<char>, i: int) -> Option<int>
    decreases h.len() + 1 - i,
{
    if i < 0 || i + n.len() > h.len() {
        None
    } else if at(h, n, i) {
        Some(i)
    } else {
        find_from(h, n, i + 1)
    }
}

/// The first position at which `n` stands in `h`.
pub open spec fn find(h: Seq<char>, n: Seq<char>) -> Option<int> {
    find_from(h, n, 0)
}

/// `n` stands somewhere in `h`.
pub open spec fn occurs(h: Seq<char>, n: Seq<char>) -> bool {
    find(h, n) is Some
}

/// `h` begins with `n`.
pub open spec fn begins(h: Seq<char>, n: Seq<char>) -> bool {
    at(h, n, 0)
}

/// `h` ends with `n`.
pub open spec fn ends(h: Seq<char>, n: Seq<char>) -> bool {
    at(h, n, h.len() - n.len())
}

/// The first position at or behind `i` at which the character `c` stands in `h`.
pub open spec fn find_char_from(h: Seq<char>, c: char, i: int) -> Option<int>
    decreases h.len() - i,
{
    if i < 0 || i >= h.len() {
        None
    } else if h[i] == c {
        Some(i)
    } else {
        find_char_from(h, c, i + 1)
    }
}

/// The first position of the character `c` in `h`.
pub open spec fn find_char(h: Seq<char>, c: char) -> Option<int> {
    find_char_from(h, c, 0)
}

/// The last position before `i` at which `c` stands in `h`.
pub open spec fn rfind_char_before(h: Seq<char>, c: char, i: int) -> Option<int>
    decreases i,
{
    if i <= 0 || i > h.len() {
        None
    } else if h[i - 1] == c {
        Some(i - 1)
    } else {
        rfind_char_before(h, c, i - 1)
    }
}

/// The last position of the character `c` in `h`.
pub open spec fn rfind_char(h: Seq<char>, c: char) -> Option<int> {
    rfind_char_before(h, c, h.len() as int)
}

/// What `find_from` gives is the least such position, or there is none.
pub proof fn lemma_find_from(h: Seq<char>, n: Seq<char>, i: int)
    requires
        0 <= i,
    ensures
        match find_from(h, n, i) {
            Some(p) => i <= p && at(h, n, p) && forall|j: int| i <= j < p ==> !at(h, n, j),
            None => forall|j: int| i <= j ==> !at(h, n, j),
        },
    decreases h.len() + 1 - i,
{
    if i + n.len() <= h.len() && !at(h, n, i) {
        lemma_find_from(h, n, i + 1);
    }
}

/// `occurs` says that the pattern stands at some position.
pub proof fn lemma_has(h: Seq<char>, n: Seq<char>)
    ensures
        occurs(h, n) <==> exists|i: int| at(h, n, i),
        match find(h, n) {
            Some(p) => at(h, n, p) && forall|j: int| j < p ==> !at(h, n, j),
            None => forall|j: int| !at(h, n, j),
        },
{
    lemma_find_from(h, n, 0);
}

/// What `find_char_from` gives is the least such position, or there is none.
pub proof fn lemma_find_char_from(h: Seq<char>, c: char, i: int)
    requires
        0 <= i,
    ensures
        match find_char_from(h, c, i) {
            Some(p) => i <= p < h.len() && h[p] == c && forall|j: int| i <= j < p ==> h[j] != c,
            None => forall|j: int| i <= j < h.len() ==> h[j] != c,
        },
    decreases h.len() - i,
{
    if i < h.len() && h[i] != c {
        lemma_find_char_from(h, c, i + 1);
    }
}

/// What `find_char` gives is the least such position, or there is none.
pub proof fn lemma_find_char(h: Seq<char>, c: char)
    ensures
        match find_char(h, c) {
            Some(p) => 0 <= p < h.len() && h[p] == c && forall|j: int| 0 <= j < p ==> h[j] != c,
            None => forall|j: int| 0 <= j < h.len() ==> h[j] != c,
        },
{
    lemma_find_char_from(h, c, 0);
}

/// Whether the characters `n` stand in `h` at `i`.
pub fn is_at(h: &[char], n: &[char], i: usize) -> (r: bool)
    ensures
        r == at(h@, n@, i as int),
{
    if n.len() > h.len() || i > h.len() - n.len() {
        return false;
    }
    let ghost w = h@.subrange(i as int, i + n@.len());
    for j in 0..n.len()
        invariant
            i + n@.len() <= h.len(),
            w == h@.subrange(i as int, i + n@.len()),
            forall|k: int| 0 <= k < j ==> w[k] == n@[k],
    {
        if h[i + j] != n[j] {
            assert(w[j as int] != n@[j as int]);
            return false;
        }
    }
    assert(w =~= n@);
    true
}

/// The first position at or behind `from` at which `n` stands in `h`.
pub fn find_chars(h: &[char], n: &[char], from: usize) -> (r: Option<usize>)
    ensures
        match r {
            Some(p) => find_from(h@, n@, from as int) == Some(p as int) && from <= p && p + n@.len()
                <= h@.len() && at(h@, n@, p as int),
            None => find_from(h@, n@, from as int) is None,
        },
{
    let mut i: usize = from;
    while i <= h.len() && n.len() <= h.len() - i
        invariant
            from <= i,
            find_from(h@, n@, from as int) == find_from(h@, n@, i as int),
        decreases h.len() + 1 - i,
    {
        if is_at(h, n, i) {
            return Some(i);
        }
        if i == h.len() {
            assert(find_from(h@, n@, i + 1) is None);
            return None;
        }
        i += 1;
    }
    None
}

/// The first position of the pattern `n` in `h`.
pub fn find_text(h: &[char], n: &str) -> (r: Option<usize>)
    ensures
        match r {
            Some(p) => find(h@, n@) == Some(p as int) && p + n@.len() <= h@.len() && at(
                h@,
                n@,
                p as int,
            ),
            None => find(h@, n@) is None,
        },
{
    find_chars(h, to_chars(n).as_slice(), 0)
}

/// Whether the pattern `n` stands somewhere in `h`.
pub fn has_text(h: &[char], n: &str) -> (r: bool)
    ensures
        r == occurs(h@, n@),
{
    find_text(h, n).is_some()
}

/// Whether `h` begins with `n`.
pub fn begins_with(h: &[char], n: &str) -> (r: bool)
    ensures
        r == begins(h@, n@),
{
    is_at(h, to_chars(n).as_slice(), 0)
}

/// Whether `h` ends with `n`.
pub fn ends_with(h: &[char], n: &str) -> (r: bool)
    ensures
        r == ends(h@, n@),
{
    let p = to_chars(n);
    if p.len() > h.len() {
        return false;
    }
    is_at(h, p.as_slice(), h.len() - p.len())
}

/// The first position of the character `c` in `h`.
pub fn find_one(h: &[char], c: char) -> (r: Option<usize>)
    ensures
        match r {
            Some(p) => find_char(h@, c) == Some(p as int) && p < h@.len() && h@[p as int] == c,
            None => find_char(h@, c) is None,
        },
{
    let mut i: usize = 0;
    while i < h.len()
        invariant
            find_char(h@, c) == find_char_from(h@, c, i as int),
            i <= h@.len(),
        decreases h.len() - i,
    {
        if h[i] == c {
            return Some(i);
        }
        i += 1;
    }
    None
}

/// Whether the character `c` stands somewhere in `h`.
pub fn has_char(h: &[char], c: char) -> (r: bool)
    ensures
        r == (find_char(h@, c) is Some),
{
    find_one(h, c).is_some()
}

/// The last position of the character `c` in `h`.
pub fn rfind_one(h: &[char], c: char) -> (r: Option<usize>)
    ensures
        match r {
            Some(p) => rfind_char(h@, c) == Some(p as int) && p < h@.len() && h@[p as int] == c,
            None => rfind_char(h@, c) is None,
        },
{
    let mut i: usize = h.len();
    while i > 0
        invariant
            rfind_char(h@, c) == rfind_char_before(h@, c, i as int),
            i <= h@.len(),
        decreases i,
    {
        if h[i - 1] == c {
            return Some(i - 1);
        }
        i -= 1;
    }
    None
}

/// A text that is put together of two begins with the one and ends with the other.
pub proof fn lemma_ends_of(a: Seq<char>, b: Seq<char>)
    ensures
        begins(a + b, a),
        ends(a + b, b),
{
    let h = a + b;
    assert(h.subrange(0, a.len() as int) =~= a);
    assert(h.subrange(h.len() - b.len(), h.len() as int) =~= b);
}

/// A text that is put together of three holds the one in the middle.
pub proof fn lemma_middle(a: Seq<char>, b: Seq<char>, c: Seq<char>)
    ensures
        occurs(a + b + c, b),
{
    let h = a + b + c;
    let i = a.len() as int;
    assert(h.subrange(i, i + b.len()) =~= b);
    assert(at(h, b, i));
    lemma_has(h, b);
}

/// What `rfind_char` gives is the greatest such position, or there is none.
pub proof fn rfind_is_last(h: Seq<char>, c: char)
    ensures
        match rfind_char(h, c) {
            Some(p) => 0 <= p < h.len() && h[p] == c && forall|j: int| p < j < h.len() ==> h[j] != c,
            None => forall|j: int| 0 <= j < h.len() ==> h[j] != c,
        },
{
    lemma_rfind_before(h, c, h.len() as int);
}

/// What `rfind_char_before` gives is the greatest such position, or there is none.
proof fn lemma_rfind_before(h: Seq<char>, c: char, i: int)
    requires
        0 <= i <= h.len(),
    ensures
        match rfind_char_before(h, c, i) {
            Some(p) => 0 <= p < i && h[p] == c && forall|j: int| p < j < i ==> h[j] != c,
            None => forall|j: int| 0 <= j < i ==> h[j] != c,
        },
    decreases i,
{
    if i > 0 && h[i - 1] != c {
        lemma_rfind_before(h, c, i - 1);
    }
}

/// A text is cut at the first of the characters.
pub proof fn lemma_cut(a: Seq<char>, c: char, b: Seq<char>)
    requires
        find_char(a, c) is None,
    ensures
        find_char(a + seq![c] + b, c) == Some(a.len() as int),
        (a + seq![c] + b).skip(a.len() as int + 1) == b,
        (a + seq![c] + b).take(a.len() as int) == a,
{
    let s = a + seq![c] + b;
    lemma_find_char(a, c);
    lemma_find_char(s, c);
    assert(s[a.len() as int] == c);
    let p = find_char(s, c).unwrap();
    if p < a.len() {
        assert(a[p] == c);
    }
    assert(s.skip(a.len() as int + 1) =~= b);
    assert(s.take(a.len() as int) =~= a);
}

} // verus!
