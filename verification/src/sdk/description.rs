//! Cleaning a provider's description of its markup.

use vstd::prelude::*;
use vstd::utf8::encode_utf8;

use crate::text::chars::{byte_len, lower_ascii, skip_to, take_to, to_chars, to_text};
use crate::text::class::{all, all_in, Class};
use crate::text::find::{
    at, begins, begins_with, ends, ends_with, find, find_char, find_one, has_char, occurs,
    lemma_find_char, lemma_has,
};
use crate::text::replace::{
    entity, lemma_entity, lemma_replace_absent, lemma_tag, lower, lower_of, push_all, replace, replace_all, replace_all_any_case,
    replace_any_case, tag,
};
use crate::text::trim::{
    lemma_trim, lemma_trim_end, lemma_trim_start, trim, trim_both, trim_start, trimmed,
};

verus! {

/// `s` with its line breaks (`<br>`, `<br/>` and `<br />`, in any case) made line feeds.
pub open spec fn breaks(s: Seq<char>) -> Seq<char> {
    replace_any_case(
        replace_any_case(replace_any_case(s, "<br>"@, "\n"@), "<br/>"@, "\n"@),
        "<br />"@,
        "\n"@,
    )
}

/// `s` without its tags. A tag reaches from a `<` to the next `>`; a `<` that
/// no `>` follows begins no tag.
pub open spec fn untagged(s: Seq<char>) -> Seq<char>
    decreases s.len(),
    via untagged_shrinks
{
    match find_char(s, '<') {
        Some(i) => match find_char(s.skip(i), '>') {
            Some(j) => s.take(i) + untagged(s.skip(i + j + 1)),
            None => s,
        },
        None => s,
    }
}

#[via_fn]
proof fn untagged_shrinks(s: Seq<char>) {
    lemma_find_char(s, '<');
    if let Some(i) = find_char(s, '<') {
        lemma_find_char(s.skip(i), '>');
    }
}

/// `s` with the common entities decoded, one after another.
pub open spec fn decoded(s: Seq<char>) -> Seq<char> {
    let s = replace(s, "&amp;"@, "&"@);
    let s = replace(s, "&lt;"@, "<"@);
    let s = replace(s, "&gt;"@, ">"@);
    let s = replace(s, "&quot;"@, "\""@);
    let s = replace(s, "&#039;"@, "'"@);
    let s = replace(s, "&#39;"@, "'"@);
    let s = replace(s, "&apos;"@, "'"@);
    replace(s, "&nbsp;"@, " "@)
}

/// The position at or behind `i` of the `)` that closes the outermost bracket,
/// where `open` brackets are open before `i`.
pub open spec fn closing_from(s: Seq<char>, i: int, open: nat) -> Option<int>
    decreases s.len() - i,
{
    if i < 0 || i >= s.len() {
        None
    } else if s[i] == ')' && open <= 1 {
        Some(i)
    } else if s[i] == ')' {
        closing_from(s, i + 1, (open - 1) as nat)
    } else if s[i] == '(' {
        closing_from(s, i + 1, open + 1)
    } else {
        closing_from(s, i + 1, open)
    }
}

/// Nothing but white space stands behind the bracket that a text begins with.
/// One that is never closed reaches to the end, where the text ends in `)`.
pub open spec fn ends_at_bracket(s: Seq<char>) -> bool {
    match closing_from(s, 0, 0) {
        Some(i) => all(s.skip(i + 1), Class::Space),
        None => ends(trim(s), ")"@),
    }
}

/// What is left of a text from a position on reads as the naming of its
/// source: it begins with `(source`, in any case, holds nothing but white
/// space behind that bracket, and is a single line of at most 200 bytes.
pub open spec fn names_source(rest: Seq<char>) -> bool {
    &&& begins(lower(rest), "(source"@)
    &&& ends_at_bracket(rest)
    &&& find_char(rest, '\n') is None
    &&& encode_utf8(rest).len() <= 200
}

/// The last position before `n` from which on `s` reads as the naming of its source.
pub open spec fn source_before(s: Seq<char>, n: int) -> Option<int>
    decreases n,
{
    if n <= 0 || n > s.len() {
        None
    } else if names_source(s.skip(n - 1)) {
        Some(n - 1)
    } else {
        source_before(s, n - 1)
    }
}

/// `s` without the naming of its source at the end.
pub open spec fn unsourced(s: Seq<char>) -> Seq<char> {
    match source_before(s, s.len() as int) {
        Some(i) => s.take(i),
        None => s,
    }
}

/// `s` with every run of three or more line feeds cut down to two.
pub open spec fn collapsed(s: Seq<char>) -> Seq<char>
    decreases s.len(),
{
    if s.len() == 0 {
        s
    } else if begins(s, "\n\n\n"@) {
        collapsed(s.skip(1))
    } else {
        seq![s[0]] + collapsed(s.skip(1))
    }
}

/// A description without its markup, the naming of its source, long gaps and
/// outer white space.
pub open spec fn cleaned(s: Seq<char>) -> Seq<char> {
    trim(collapsed(unsourced(decoded(untagged(breaks(s))))))
}

/// The text without its tags.
fn strip_tags(s: &[char]) -> (r: Vec<char>)
    ensures
        r@ == untagged(s@),
{
    let mut out: Vec<char> = Vec::new();
    let mut rest: &[char] = s;
    assert(out@ + untagged(rest@) =~= untagged(s@));
    loop
        invariant
            out@ + untagged(rest@) == untagged(s@),
        decreases rest@.len(),
    {
        let ghost before = out@;
        let end: usize = rest.len();
        if let Some(i) = find_one(rest, '<') {
            let tag = skip_to(rest, i);
            if let Some(j) = find_one(tag, '>') {
                push_all(&mut out, take_to(rest, i));
                let tail = skip_to(tag, j + 1);
                proof {
                    assert(tail@ =~= rest@.skip(i + j + 1));
                    assert(out@ + untagged(tail@) =~= before + (rest@.take(i as int) + untagged(
                        tail@,
                    )));
                }
                rest = tail;
                continue ;
            }
        }
        push_all(&mut out, rest);
        return out;
    }
}

/// The text with the common entities decoded.
fn decode(s: &[char]) -> (r: Vec<char>)
    ensures
        r@ == decoded(s@),
{
    proof {
        reveal_strlit("&amp;");
        reveal_strlit("&lt;");
        reveal_strlit("&gt;");
        reveal_strlit("&quot;");
        reveal_strlit("&#039;");
        reveal_strlit("&#39;");
        reveal_strlit("&apos;");
        reveal_strlit("&nbsp;");
    }
    let s = replace_all(s, "&amp;", "&");
    let s = replace_all(s.as_slice(), "&lt;", "<");
    let s = replace_all(s.as_slice(), "&gt;", ">");
    let s = replace_all(s.as_slice(), "&quot;", "\"");
    let s = replace_all(s.as_slice(), "&#039;", "'");
    let s = replace_all(s.as_slice(), "&#39;", "'");
    let s = replace_all(s.as_slice(), "&apos;", "'");
    replace_all(s.as_slice(), "&nbsp;", " ")
}

/// The position of the `)` that closes the bracket that a text begins with.
fn find_closing(s: &[char]) -> (r: Option<usize>)
    ensures
        match r {
            Some(i) => i < s@.len() && closing_from(s@, 0, 0) == Some(i as int),
            None => closing_from(s@, 0, 0) is None,
        },
{
    let mut open: usize = 0;
    for i in 0..s.len()
        invariant
            open <= i,
            closing_from(s@, 0, 0) == closing_from(s@, i as int, open as nat),
    {
        if s[i] == ')' {
            if open <= 1 {
                return Some(i);
            }
            open -= 1;
        } else if s[i] == '(' {
            open += 1;
        }
    }
    None
}

/// Whether nothing but white space stands behind the bracket that a text
/// begins with.
fn is_bracket_last(s: &[char]) -> (r: bool)
    ensures
        r == ends_at_bracket(s@),
{
    let end: usize = s.len();
    match find_closing(s) {
        Some(i) => all_in(skip_to(s, i + 1), Class::Space),
        None => ends_with(trim_both(s), ")"),
    }
}

/// The position from which on the text names its source.
pub fn find_trailing_source_attribution(s: &[char]) -> (r: Option<usize>)
    ensures
        match r {
            Some(i) => i <= s@.len() && source_before(s@, s@.len() as int) == Some(i as int),
            None => source_before(s@, s@.len() as int) is None,
        },
{
    let mut n: usize = s.len();
    while n > 0
        invariant
            n <= s@.len(),
            source_before(s@, s@.len() as int) == source_before(s@, n as int),
        decreases n,
    {
        let rest = skip_to(s, n - 1);
        if begins_with(lower_of(rest).as_slice(), "(source") && is_bracket_last(rest) && !has_char(
            rest,
            '\n',
        ) && byte_len(rest) <= 200 {
            return Some(n - 1);
        }
        n -= 1;
    }
    None
}

/// The text with every run of three or more line feeds cut down to two.
fn collapse(s: &[char]) -> (r: Vec<char>)
    ensures
        r@ == collapsed(s@),
{
    let mut out: Vec<char> = Vec::new();
    let mut rest: &[char] = s;
    assert(out@ + collapsed(rest@) =~= collapsed(s@));
    while rest.len() > 0
        invariant
            out@ + collapsed(rest@) == collapsed(s@),
        decreases rest@.len(),
    {
        let ghost before = out@;
        let tail = skip_to(rest, 1);
        if !begins_with(rest, "\n\n\n") {
            out.push(rest[0]);
            assert(out@ + collapsed(tail@) =~= before + (seq![rest@[0]] + collapsed(tail@)));
        }
        rest = tail;
    }
    assert(out@ + collapsed(rest@) =~= out@);
    out
}

/// Strips a description of its markup, the naming of its source, long gaps
/// and outer white space.
pub fn clean_description(s: &str) -> (r: String)
    ensures
        r@ == cleaned(s@),
{
    proof {
        reveal_strlit("<br>");
        reveal_strlit("<br/>");
        reveal_strlit("<br />");
    }
    let t = to_chars(s);
    let t = replace_all_any_case(t.as_slice(), "<br>", "\n");
    let t = replace_all_any_case(t.as_slice(), "<br/>", "\n");
    let t = replace_all_any_case(t.as_slice(), "<br />", "\n");
    let t = strip_tags(t.as_slice());
    let t = decode(t.as_slice());
    let t = match find_trailing_source_attribution(t.as_slice()) {
        Some(i) => collapse(take_to(t.as_slice(), i)),
        None => collapse(t.as_slice()),
    };
    to_text(trim_both(t.as_slice()))
}

/// A description that needs no cleaning: without tags, without the entities,
/// without the naming of its source, without long gaps and outer white space.
pub open spec fn clean(s: Seq<char>) -> bool {
    &&& forall|i: int, j: int| 0 <= i < j < s.len() && #[trigger] s[i] == '<' ==> #[trigger] s[j] != '>'
    &&& !occurs(s, "&amp;"@)
    &&& !occurs(s, "&lt;"@)
    &&& !occurs(s, "&gt;"@)
    &&& !occurs(s, "&quot;"@)
    &&& !occurs(s, "&#039;"@)
    &&& !occurs(s, "&#39;"@)
    &&& !occurs(s, "&apos;"@)
    &&& !occurs(s, "&nbsp;"@)
    &&& source_before(s, s.len() as int) is None
    &&& !occurs(s, "\n\n\n"@)
    &&& trimmed(s)
}

/// What is cut off a description is the naming of its source at the end and
/// nothing else: no text that follows the clause is lost.
pub proof fn only_a_trailing_source_is_cut(s: Seq<char>)
    ensures
        unsourced(s) == s || exists|i: int|
            0 <= i < s.len() && unsourced(s) == s.take(i) && #[trigger] names_source(s.skip(i)),
{
    lemma_source_before(s, s.len() as int);
}

/// Where a naming of the source is found there is one.
proof fn lemma_source_before(s: Seq<char>, n: int)
    ensures
        source_before(s, n) matches Some(i) ==> 0 <= i < n && i < s.len() && names_source(s.skip(i)),
    decreases n,
{
    if 0 < n <= s.len() && !names_source(s.skip(n - 1)) {
        lemma_source_before(s, n - 1);
    }
}

/// A pattern that begins with `<` and ends with `>` does not occur without a tag.
proof fn lemma_no_break(s: Seq<char>, tag: Seq<char>, to: Seq<char>)
    requires
        forall|i: int, j: int|
            0 <= i < j < s.len() && #[trigger] s[i] == '<' ==> #[trigger] s[j] != '>',
        tag.len() >= 2,
        tag[0] == '<',
        tag.last() == '>',
    ensures
        replace_any_case(s, tag, to) == s,
{
    let low = lower(s);
    lemma_has(low, tag);
    if let Some(i) = find(low, tag) {
        let j = i + tag.len() - 1;
        assert(low.subrange(i, i + tag.len())[0] == low[i]);
        assert(low.subrange(i, i + tag.len())[tag.len() - 1] == low[j]);
        assert(lower_ascii(s[i]) == '<');
        assert(lower_ascii(s[j]) == '>');
        assert(s[i] == '<');
        assert(s[j] == '>');
    }
}

/// A text without long gaps stays as it is when it is collapsed.
proof fn lemma_collapsed_fixed(s: Seq<char>)
    requires
        !occurs(s, "\n\n\n"@),
    ensures
        collapsed(s) == s,
    decreases s.len(),
{
    let gap = "\n\n\n"@;
    lemma_has(s, gap);
    if s.len() > 0 {
        assert(!at(s, gap, 0));
        let t = s.skip(1);
        lemma_has(t, gap);
        if let Some(i) = find(t, gap) {
            assert(t.subrange(i, i + gap.len()) =~= s.subrange(i + 1, i + 1 + gap.len()));
            assert(at(s, gap, i + 1));
        }
        lemma_collapsed_fixed(t);
        assert(seq![s[0]] + t =~= s);
    }
}

/// A description that needs no cleaning stays as it is.
pub proof fn clean_description_is_unchanged(s: Seq<char>)
    requires
        clean(s),
    ensures
        cleaned(s) == s,
{
    reveal_strlit("<br>");
    reveal_strlit("<br/>");
    reveal_strlit("<br />");
    lemma_no_break(s, "<br>"@, "\n"@);
    lemma_no_break(s, "<br/>"@, "\n"@);
    lemma_no_break(s, "<br />"@, "\n"@);
    lemma_find_char(s, '<');
    if let Some(i) = find_char(s, '<') {
        lemma_find_char(s.skip(i), '>');
        if let Some(j) = find_char(s.skip(i), '>') {
            assert(s[i + j] == '>');
        }
    }
    assert(untagged(s) == s);
    lemma_replace_absent(s, "&amp;"@, "&"@);
    lemma_replace_absent(s, "&lt;"@, "<"@);
    lemma_replace_absent(s, "&gt;"@, ">"@);
    lemma_replace_absent(s, "&quot;"@, "\""@);
    lemma_replace_absent(s, "&#039;"@, "'"@);
    lemma_replace_absent(s, "&#39;"@, "'"@);
    lemma_replace_absent(s, "&apos;"@, "'"@);
    lemma_replace_absent(s, "&nbsp;"@, " "@);
    lemma_collapsed_fixed(s);
}

/// A collapsed text holds no run of three line feeds.
proof fn lemma_collapsed_gap(s: Seq<char>)
    ensures
        !occurs(collapsed(s), "\n\n\n"@),
    decreases s.len(),
{
    reveal_strlit("\n\n\n");
    let gap = "\n\n\n"@;
    let out = collapsed(s);
    lemma_has(out, gap);
    if s.len() > 0 {
        let t = s.skip(1);
        lemma_collapsed_gap(t);
        lemma_has(collapsed(t), gap);
        if !begins(s, gap) {
            assert(out.skip(1) =~= collapsed(t));
            if let Some(i) = find(out, gap) {
                let g = out.subrange(i, i + 3);
                if i > 0 {
                    assert(collapsed(t).subrange(i - 1, i + 2) =~= g);
                    assert(at(collapsed(t), gap, i - 1));
                } else {
                    assert(g[0] == out[0] && g[1] == out[1] && g[2] == out[2]);
                    lemma_three_were_three(s);
                }
            }
        }
    }
}

/// A text that collapses to one with three line feeds at its head has them itself.
proof fn lemma_three_were_three(s: Seq<char>)
    requires
        collapsed(s).len() > 2,
        collapsed(s)[0] == '\n',
        collapsed(s)[1] == '\n',
        collapsed(s)[2] == '\n',
    ensures
        begins(s, "\n\n\n"@),
{
    reveal_strlit("\n\n\n");
    if !begins(s, "\n\n\n"@) {
        let t = s.skip(1);
        lemma_collapsed_head(t);
        assert(collapsed(s).skip(1) =~= collapsed(t));
        assert(s[0] == '\n' && s[1] == '\n');
        if s.len() > 2 && s[2] == '\n' {
            assert(s.subrange(0, 3) =~= "\n\n\n"@);
        } else {
            if begins(t, "\n\n\n"@) {
                assert(t.subrange(0, 3)[1] == t[1]);
            }
            let u = t.skip(1);
            lemma_collapsed_head(u);
            assert(collapsed(t).skip(1) =~= collapsed(u));
        }
    }
}

/// Collapsing keeps the first character.
proof fn lemma_collapsed_head(s: Seq<char>)
    ensures
        s.len() > 0 ==> collapsed(s).len() > 0 && collapsed(s)[0] == s[0],
        s.len() == 0 ==> collapsed(s).len() == 0,
    decreases s.len(),
{
    reveal_strlit("\n\n\n");
    if s.len() > 0 {
        lemma_collapsed_head(s.skip(1));
        if begins(s, "\n\n\n"@) {
            assert(s.subrange(0, 3)[0] == s[0]);
            assert(s.subrange(0, 3)[1] == s[1]);
        }
    }
}

/// A cleaned description has no outer white space and no run of three line feeds.
pub proof fn cleaned_description_has_no_gaps(s: Seq<char>)
    ensures
        trimmed(cleaned(s)),
        !occurs(cleaned(s), "\n\n\n"@),
{
    let gap = "\n\n\n"@;
    let t = unsourced(decoded(untagged(breaks(s))));
    lemma_collapsed_gap(t);
    let c = collapsed(t);
    lemma_trim(c);
    lemma_trim_start(c);
    lemma_trim_end(trim_start(c));
    lemma_has(c, gap);
    lemma_has(trim(c), gap);
    if let Some(i) = find(trim(c), gap) {
        let k = c.len() - trim_start(c).len();
        assert(c.subrange(k + i, k + i + gap.len()) =~= trim(c).subrange(i, i + gap.len()));
        assert(at(c, gap, k + i));
    }
}

/// Between texts without `&`, each of the known names becomes its character,
/// and every other name stays. An ampersand is decoded likewise where nothing
/// behind it can make a name of it.
pub proof fn named_characters_are_decoded(a: Seq<char>, x: Seq<char>, b: Seq<char>)
    requires
        find_char(a, '&') is None,
        find_char(b, '&') is None,
        entity(x),
    ensures
        x == "&amp;"@ && find_char(b, ';') is None ==> decoded(a + x + b) == a + "&"@ + b,
        x == "&lt;"@ ==> decoded(a + x + b) == a + "<"@ + b,
        x == "&gt;"@ ==> decoded(a + x + b) == a + ">"@ + b,
        x == "&quot;"@ ==> decoded(a + x + b) == a + "\""@ + b,
        x == "&#039;"@ ==> decoded(a + x + b) == a + "'"@ + b,
        x == "&#39;"@ ==> decoded(a + x + b) == a + "'"@ + b,
        x == "&apos;"@ ==> decoded(a + x + b) == a + "'"@ + b,
        x == "&nbsp;"@ ==> decoded(a + x + b) == a + " "@ + b,
        x != "&amp;"@ && x != "&lt;"@ && x != "&gt;"@ && x != "&quot;"@ && x != "&#039;"@ && x != "&#39;"@ && x != "&apos;"@ && x != "&nbsp;"@ ==> decoded(a + x + b) == a + x + b,
{
    reveal_strlit("&amp;");
    reveal_strlit("&");
    reveal_strlit("&lt;");
    reveal_strlit("<");
    reveal_strlit("&gt;");
    reveal_strlit(">");
    reveal_strlit("&quot;");
    reveal_strlit("\"");
    reveal_strlit("&#039;");
    reveal_strlit("'");
    reveal_strlit("&#39;");
    reveal_strlit("&apos;");
    reveal_strlit("&nbsp;");
    reveal_strlit(" ");
    assert(entity("&amp;"@));
    assert(entity("&lt;"@));
    assert(entity("&gt;"@));
    assert(entity("&quot;"@));
    assert(entity("&#039;"@));
    assert(entity("&#39;"@));
    assert(entity("&apos;"@));
    assert(entity("&nbsp;"@));
    assert("&#39;"@[1] == '#');
    assert("&amp;"@[1] == 'a');
    assert("&gt;"@[1] == 'g');
    assert("&lt;"@[1] == 'l');
    assert("&#039;"@[1] == '#');
    assert("&apos;"@[1] == 'a');
    assert("&nbsp;"@[1] == 'n');
    assert("&quot;"@[1] == 'q');
    lemma_find_char("<"@, '&');
    lemma_find_char(">"@, '&');
    lemma_find_char("\""@, '&');
    lemma_find_char("'"@, '&');
    lemma_find_char(" "@, '&');
    if x != "&amp;"@ || find_char(b, ';') is None {
        let m0 = x;
        lemma_entity(a, m0, b, "&amp;"@, "&"@);
        let m1 = if m0 == "&amp;"@ {
            "&"@
        } else {
            m0
        };
        assert("&"@ =~= seq!['&']);
        lemma_entity(a, m1, b, "&lt;"@, "<"@);
        let m2 = if m1 == "&lt;"@ {
            "<"@
        } else {
            m1
        };
        lemma_entity(a, m2, b, "&gt;"@, ">"@);
        let m3 = if m2 == "&gt;"@ {
            ">"@
        } else {
            m2
        };
        lemma_entity(a, m3, b, "&quot;"@, "\""@);
        let m4 = if m3 == "&quot;"@ {
            "\""@
        } else {
            m3
        };
        lemma_entity(a, m4, b, "&#039;"@, "'"@);
        let m5 = if m4 == "&#039;"@ {
            "'"@
        } else {
            m4
        };
        lemma_entity(a, m5, b, "&#39;"@, "'"@);
        let m6 = if m5 == "&#39;"@ {
            "'"@
        } else {
            m5
        };
        lemma_entity(a, m6, b, "&apos;"@, "'"@);
        let m7 = if m6 == "&apos;"@ {
            "'"@
        } else {
            m6
        };
        lemma_entity(a, m7, b, "&nbsp;"@, " "@);
        let m8 = if m7 == "&nbsp;"@ {
            " "@
        } else {
            m7
        };
    }
}

/// A tag is cut with all that stands in it, and what stands before it and
/// behind it stays; a `<` that no `>` follows stays too.
pub proof fn tags_are_cut(a: Seq<char>, inner: Seq<char>, b: Seq<char>)
    requires
        find_char(a, '<') is None,
        find_char(inner, '>') is None,
    ensures
        untagged(a + seq!['<'] + inner + seq!['>'] + b) == a + untagged(b),
        untagged(a + seq!['<'] + inner) == a + seq!['<'] + inner,
        untagged(a) == a,
{
    let s = a + seq!['<'] + inner + seq!['>'] + b;
    let n = a.len() as int;
    lemma_find_char(a, '<');
    lemma_find_char(s, '<');
    assert(s[n] == '<');
    let p = find_char(s, '<').unwrap();
    if p < n {
        assert(a[p] == '<');
    }
    let t = s.skip(n);
    assert(t =~= seq!['<'] + inner + seq!['>'] + b);
    lemma_find_char(inner, '>');
    lemma_find_char(t, '>');
    assert(t[inner.len() as int + 1] == '>');
    let q = find_char(t, '>').unwrap();
    if 0 < q < inner.len() + 1 {
        assert(inner[q - 1] == '>');
    }
    assert(s.take(n) =~= a);
    assert(s.skip(n + q + 1) =~= b);
    let u = a + seq!['<'] + inner;
    lemma_find_char(u, '<');
    assert(u[n] == '<');
    let v = find_char(u, '<').unwrap();
    if v < n {
        assert(a[v] == '<');
    }
    let w = u.skip(n);
    assert(w =~= seq!['<'] + inner);
    lemma_find_char(w, '>');
    if let Some(r) = find_char(w, '>') {
        if r > 0 {
            assert(inner[r - 1] == '>');
        }
    }
}

/// The three ways to write a line break, in any case, become a line feed, and
/// every other tag stays for now.
pub proof fn breaks_become_line_feeds(a: Seq<char>, x: Seq<char>, b: Seq<char>)
    requires
        find_char(a, '<') is None,
        find_char(b, '<') is None,
        tag(x),
    ensures
        breaks(a + x + b) == if lower(x) == "<br>"@ || lower(x) == "<br/>"@ || lower(x)
            == "<br />"@ {
            a + "\n"@ + b
        } else {
            a + x + b
        },
{
    reveal_strlit("<br>");
    reveal_strlit("<br/>");
    reveal_strlit("<br />");
    reveal_strlit("\n");
    assert(tag("<br>"@));
    assert(tag("<br/>"@));
    assert(tag("<br />"@));
    let feed = "\n"@;
    lemma_find_char(feed, '<');
    assert(lower(feed)[0] == '\n');
    lemma_tag(a, x, b, "<br>"@, feed);
    let m1 = if lower(x) == "<br>"@ {
        feed
    } else {
        x
    };
    lemma_tag(a, m1, b, "<br/>"@, feed);
    let m2 = if lower(m1) == "<br/>"@ {
        feed
    } else {
        m1
    };
    lemma_tag(a, m2, b, "<br />"@, feed);
    assert("<br>"@.len() == 4 && "<br/>"@.len() == 5 && "<br />"@.len() == 6);
    assert(lower(feed).len() == 1);
}

/// No bracket stands in the text.
pub open spec fn bracketless(s: Seq<char>) -> bool {
    forall|i: int| 0 <= i < s.len() ==> #[trigger] s[i] != '(' && s[i] != ')'
}

/// The search for the closing bracket passes over what is no bracket.
proof fn lemma_closing_skips(s: Seq<char>, i: int, k: int, open: nat)
    requires
        0 <= i <= k <= s.len(),
        forall|j: int| i <= j < k ==> #[trigger] s[j] != '(' && s[j] != ')',
    ensures
        closing_from(s, i, open) == closing_from(s, k, open),
    decreases k - i,
{
    if i < k {
        lemma_closing_skips(s, i + 1, k, open);
    }
}

/// A clause in brackets ends at the bracket that closes its own, not at one
/// that closes another inside of it, and has to stand at the end, but for white
/// space.
pub proof fn clauses_end_at_their_own_bracket(
    x: Seq<char>,
    y: Seq<char>,
    z: Seq<char>,
    w: Seq<char>,
)
    requires
        bracketless(x),
        bracketless(y),
        bracketless(z),
    ensures
        ends_at_bracket(seq!['('] + x + seq![')'] + w) <==> all(w, Class::Space),
        ends_at_bracket(
            seq!['('] + x + seq!['('] + y + seq![')'] + z + seq![')'] + w,
        ) <==> all(w, Class::Space),
{
    let s = seq!['('] + x + seq![')'] + w;
    let i = x.len() as int + 1;
    assert(s[0] == '(' && s[i] == ')');
    assert forall|j: int| 1 <= j < i implies #[trigger] s[j] != '(' && s[j] != ')' by {
        assert(s[j] == x[j - 1]);
    }
    lemma_closing_skips(s, 1, i, 1);
    assert(s.skip(i + 1) =~= w);
    let t = seq!['('] + x + seq!['('] + y + seq![')'] + z + seq![')'] + w;
    let j1 = x.len() as int + 1;
    let j2 = j1 + y.len() as int + 1;
    let j3 = j2 + z.len() as int + 1;
    assert(t[0] == '(' && t[j1] == '(' && t[j2] == ')' && t[j3] == ')');
    assert forall|j: int| 1 <= j < j1 implies #[trigger] t[j] != '(' && t[j] != ')' by {
        assert(t[j] == x[j - 1]);
    }
    lemma_closing_skips(t, 1, j1, 1);
    assert forall|j: int| j1 < j < j2 implies #[trigger] t[j] != '(' && t[j] != ')' by {
        assert(t[j] == y[j - j1 - 1]);
    }
    lemma_closing_skips(t, j1 + 1, j2, 2);
    assert forall|j: int| j2 < j < j3 implies #[trigger] t[j] != '(' && t[j] != ')' by {
        assert(t[j] == z[j - j2 - 1]);
    }
    lemma_closing_skips(t, j2 + 1, j3, 1);
    assert(t.skip(j3 + 1) =~= w);
}

/// A clause names the source where it begins with the word in a bracket, in
/// whatever case, ends with its bracket, and is one line of no more than two
/// hundred bytes.
pub proof fn sources_are_named_in_one_short_line(rest: Seq<char>)
    ensures
        names_source(rest) <==> begins(lower(rest), "(source"@) && ends_at_bracket(rest)
            && find_char(rest, '\n') is None && encode_utf8(rest).len() <= 200,
{
}

/// The naming of the source at the end is cut, and what stands before it stays.
pub proof fn trailing_source_is_cut(a: Seq<char>, clause: Seq<char>)
    requires
        names_source(clause),
        forall|k: int| 0 < k < clause.len() ==> !names_source(#[trigger] clause.skip(k)),
    ensures
        unsourced(a + clause) == a,
{
    let s = a + clause;
    reveal_strlit("(source");
    assert(s.skip(a.len() as int) =~= clause);
    lemma_source_found(a, clause, s.len() as int);
    assert(s.take(a.len() as int) =~= a);
}

/// The search for the clause comes down to its beginning.
proof fn lemma_source_found(a: Seq<char>, clause: Seq<char>, n: int)
    requires
        names_source(clause),
        forall|k: int| 0 < k < clause.len() ==> !names_source(#[trigger] clause.skip(k)),
        a.len() < n <= a.len() + clause.len(),
    ensures
        source_before(a + clause, n) == Some(a.len() as int),
    decreases n,
{
    let s = a + clause;
    let k = n - 1 - a.len();
    assert(s.skip(n - 1) =~= clause.skip(k));
    if k > 0 {
        lemma_source_found(a, clause, n - 1);
    } else {
        assert(clause.skip(0) =~= clause);
    }
}

/// A run of line feeds is cut to two, and every other character stays.
pub proof fn gaps_are_cut_to_two(c: char, s: Seq<char>)
    ensures
        c != '\n' ==> collapsed(seq![c] + s) == seq![c] + collapsed(s),
        collapsed(seq!['\n', '\n', '\n'] + s) == collapsed(seq!['\n', '\n'] + s),
        s.len() > 0 && s[0] != '\n' ==> collapsed(seq!['\n', '\n'] + s) == seq!['\n', '\n']
            + collapsed(s),
        s.len() > 0 && s[0] != '\n' ==> collapsed(seq!['\n'] + s) == seq!['\n'] + collapsed(s),
{
    reveal_strlit("\n\n\n");
    let gap = "\n\n\n"@;
    let t = seq![c] + s;
    assert(t.skip(1) =~= s);
    if begins(t, gap) {
        assert(t.subrange(0, 3)[0] == c);
    }
    let u = seq!['\n', '\n', '\n'] + s;
    assert(u.subrange(0, 3) =~= gap);
    assert(u.skip(1) =~= seq!['\n', '\n'] + s);
    if s.len() > 0 && s[0] != '\n' {
        let v = seq!['\n', '\n'] + s;
        if begins(v, gap) {
            assert(v.subrange(0, 3)[2] == s[0]);
        }
        let w = seq!['\n'] + s;
        assert(v.skip(1) =~= w);
        if begins(w, gap) {
            assert(w.subrange(0, 3)[1] == s[0]);
        }
        assert(w.skip(1) =~= s);
        assert(collapsed(w) == seq!['\n'] + collapsed(s));
        assert(collapsed(v) == seq!['\n'] + collapsed(w));
        assert(collapsed(v) =~= seq!['\n', '\n'] + collapsed(s));
    }
}

/// A description is cleaned of breaks, tags, names, source and gaps, in this
/// order.
pub proof fn descriptions_are_cleaned_in_order(s: Seq<char>)
    ensures
        cleaned(s) == trim(collapsed(unsourced(decoded(untagged(breaks(s)))))),
{
}

} // verus!
