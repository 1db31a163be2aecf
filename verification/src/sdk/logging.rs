//! What plugins log, and how a URL is made fit for a log.

use vstd::prelude::*;

use crate::text::chars::{is_text, lower_ascii, rows, skip_to, take_to, to_chars, to_text};
use crate::text::find::{find_char, find_char_from, find_one, has_char, lemma_find_char};
use crate::text::replace::{lower, lower_of, push_all};
use crate::text::split::{
    join, join_rows, lemma_split_join, lemma_split_pieces, slices, split, split_at_char,
};

verus! {

/// One of the well-known names of a parameter that holds a secret, in either case.
pub open spec fn sensitive(key: Seq<char>) -> bool {
    let k = lower(key);
    ||| k == "api_key"@
    ||| k == "apikey"@
    ||| k == "key"@
    ||| k == "token"@
    ||| k == "access_token"@
    ||| k == "secret"@
}

/// A query parameter with its value hidden, where its name is a sensitive one.
pub open spec fn scrubbed(kv: Seq<char>) -> Seq<char> {
    match find_char(kv, '=') {
        Some(i) => if sensitive(kv.take(i)) {
            kv.take(i) + "=***"@
        } else {
            kv
        },
        None => kv,
    }
}

/// The parameters, each with its value hidden where its name is a sensitive one.
pub open spec fn scrubbed_all(kvs: Seq<Seq<char>>) -> Seq<Seq<char>> {
    Seq::new(kvs.len(), |i: int| scrubbed(kvs[i]))
}

/// A query with the sensitive values hidden.
pub open spec fn scrubbed_query(query: Seq<char>) -> Seq<char> {
    join(scrubbed_all(split(query, '&')), seq!['&'])
}

/// Where the query of a URL begins: at its first `?`, unless that is part of
/// the fragment.
pub open spec fn query_mark(url: Seq<char>) -> Option<int> {
    match find_char(url, '?') {
        Some(i) => if find_char(url.take(i), '#') is None {
            Some(i)
        } else {
            None
        },
        None => None,
    }
}

/// A URL with the sensitive values of its query hidden. The query reaches
/// from its mark to the first `#` behind it.
pub open spec fn safe_url(url: Seq<char>) -> Seq<char> {
    match query_mark(url) {
        None => url,
        Some(i) => {
            let rest = url.skip(i + 1);
            match find_char(rest, '#') {
                None => url.take(i + 1) + scrubbed_query(rest),
                Some(j) => url.take(i + 1) + scrubbed_query(rest.take(j)) + rest.skip(j),
            }
        },
    }
}

/// Whether a parameter's name is a sensitive one.
fn is_sensitive(key: &[char]) -> (r: bool)
    ensures
        r == sensitive(key@),
{
    let low = lower_of(key);
    let k = low.as_slice();
    is_text(k, "api_key") || is_text(k, "apikey") || is_text(k, "key") || is_text(k, "token")
        || is_text(k, "access_token") || is_text(k, "secret")
}

/// The parameter with its value hidden, where its name is a sensitive one.
fn scrub(kv: &[char]) -> (r: Vec<char>)
    ensures
        r@ == scrubbed(kv@),
{
    let mut out: Vec<char> = Vec::new();
    if let Some(i) = find_one(kv, '=') {
        let key = take_to(kv, i);
        if is_sensitive(key) {
            push_all(&mut out, key);
            push_all(&mut out, to_chars("=***").as_slice());
            return out;
        }
    }
    push_all(&mut out, kv);
    out
}

/// The query with the sensitive values hidden.
fn scrub_query(query: &[char]) -> (r: Vec<char>)
    ensures
        r@ == scrubbed_query(query@),
{
    let pieces = split_at_char(query, '&');
    let mut out: Vec<Vec<char>> = Vec::new();
    for i in 0..pieces.len()
        invariant
            out@.len() == i,
            forall|k: int| 0 <= k < i ==> (#[trigger] out@[k])@ == scrubbed(slices(pieces@)[k]),
    {
        assert(slices(pieces@)[i as int] == pieces@[i as int]@);
        out.push(scrub(pieces[i]));
    }
    assert(rows(out@) =~= scrubbed_all(split(query@, '&')));
    proof {
        reveal_strlit("&");
        assert("&"@ =~= seq!['&']);
    }
    join_rows(&out, "&")
}

/// Where the query of a URL begins.
fn find_query_mark(url: &[char]) -> (r: Option<usize>)
    ensures
        match r {
            Some(i) => i < url@.len() && query_mark(url@) == Some(i as int),
            None => query_mark(url@) is None,
        },
{
    match find_one(url, '?') {
        Some(i) => if has_char(take_to(url, i), '#') {
            None
        } else {
            Some(i)
        },
        None => None,
    }
}

/// Hides the sensitive values in the query of a URL, so that it can be logged.
/// Path, fragment and the other parameters stay as they are.
pub fn log_url(url: &str) -> (r: String)
    ensures
        r@ == safe_url(url@),
{
    let u = to_chars(url);
    let end: usize = u.len();
    match find_query_mark(u.as_slice()) {
        None => url.to_owned(),
        Some(i) => {
            let mut out: Vec<char> = Vec::new();
            push_all(&mut out, take_to(u.as_slice(), i + 1));
            let rest = skip_to(u.as_slice(), i + 1);
            match find_one(rest, '#') {
                None => {
                    push_all(&mut out, scrub_query(rest).as_slice());
                },
                Some(j) => {
                    push_all(&mut out, scrub_query(take_to(rest, j)).as_slice());
                    push_all(&mut out, skip_to(rest, j));
                },
            }
            to_text(out.as_slice())
        },
    }
}

/// A sensitive name holds none of the characters that end it.
proof fn lemma_sensitive(key: Seq<char>, c: char)
    requires
        sensitive(key),
        c == '=' || c == '&' || c == '#' || c == '?',
    ensures
        find_char(key, c) is None,
{
    reveal_strlit("api_key");
    reveal_strlit("apikey");
    reveal_strlit("key");
    reveal_strlit("token");
    reveal_strlit("access_token");
    reveal_strlit("secret");
    reveal_with_fuel(find_char_from, 13);
    assert(find_char(lower(key), c) is None);
    lemma_find_char(lower(key), c);
    lemma_find_char(key, c);
    if let Some(p) = find_char(key, c) {
        assert(lower(key)[p] == lower_ascii(c));
        assert(lower_ascii(c) == c);
    }
}

/// Whatever the value of a parameter with a sensitive name is, nothing of it is left.
pub proof fn sensitive_value_is_hidden(key: Seq<char>, value: Seq<char>)
    requires
        sensitive(key),
    ensures
        scrubbed(key + seq!['='] + value) == key + "=***"@,
{
    let kv = key + seq!['='] + value;
    lemma_sensitive(key, '=');
    lemma_find_char(key, '=');
    lemma_find_char(kv, '=');
    assert(kv[key.len() as int] == '=');
    let p = find_char(kv, '=').unwrap();
    if p < key.len() {
        assert(key[p] == '=');
    }
    assert(kv.take(p) =~= key);
}

/// Hiding a value adds neither a `&` nor a `#`, and hiding it again changes nothing.
proof fn lemma_scrubbed(kv: Seq<char>, c: char)
    requires
        c == '&' || c == '#',
        find_char(kv, c) is None,
    ensures
        find_char(scrubbed(kv), c) is None,
        scrubbed(scrubbed(kv)) == scrubbed(kv),
{
    lemma_find_char(kv, '=');
    if let Some(i) = find_char(kv, '=') {
        let key = kv.take(i);
        if sensitive(key) {
            reveal_strlit("=***");
            let out = key + "=***"@;
            lemma_find_char(kv, c);
            lemma_find_char(out, c);
            if let Some(p) = find_char(out, c) {
                assert(p < i ==> kv[p] == c);
                assert(p >= i ==> out[p] == "=***"@[p - i]);
            }
            let stars = seq!['*', '*', '*'];
            assert(out =~= key + seq!['='] + stars);
            sensitive_value_is_hidden(key, stars);
        }
    }
}

/// A URL without a query is logged as it is, even where its fragment holds a `?`.
pub proof fn url_without_query_is_unchanged(base: Seq<char>, fragment: Seq<char>)
    requires
        find_char(base, '?') is None,
    ensures
        safe_url(base) == base,
        safe_url(base + seq!['#'] + fragment) == base + seq!['#'] + fragment,
{
    let url = base + seq!['#'] + fragment;
    lemma_find_char(base, '?');
    lemma_find_char(url, '?');
    if let Some(i) = find_char(url, '?') {
        if i < base.len() {
            assert(base[i] == '?');
        }
        lemma_find_char(url.take(i), '#');
        assert(url.take(i)[base.len() as int] == '#');
    }
}

/// The fragment of a URL, from its `#` on, stands in the log as it was.
pub proof fn fragment_is_unchanged(url: Seq<char>, j: int)
    requires
        find_char(url, '#') == Some(j),
    ensures
        safe_url(url) == safe_url(url.take(j)) + url.skip(j),
{
    let head = url.take(j);
    lemma_find_char(url, '#');
    lemma_find_char(url, '?');
    lemma_find_char(head, '?');
    assert(head + url.skip(j) =~= url);
    if let Some(p) = find_char(head, '?') {
        assert(url[p] == '?');
    }
    if let Some(i) = find_char(url, '?') {
        lemma_find_char(url.take(i), '#');
        if i < j {
            assert(head[i] == '?');
            let p = find_char(head, '?').unwrap();
            assert(url[p] == '?');
            assert(p == i);
            assert(head.take(i) =~= url.take(i));
            if let Some(q) = find_char(url.take(i), '#') {
                assert(url[q] == '#');
            }
            let rest = url.skip(i + 1);
            lemma_find_char(rest, '#');
            assert(rest[j - i - 1] == '#');
            let q = find_char(rest, '#').unwrap();
            assert(url[i + 1 + q] == '#');
            assert(q == j - i - 1);
            let short = head.skip(i + 1);
            assert(short =~= rest.take(q));
            lemma_find_char(short, '#');
            if let Some(k) = find_char(short, '#') {
                assert(url[i + 1 + k] == '#');
            }
            assert(rest.skip(q) =~= url.skip(j));
            assert(head.take(i + 1) =~= url.take(i + 1));
        } else {
            assert(url.take(i)[j] == '#');
        }
    }
}

/// In a URL that is put together from its parts, each parameter is scrubbed
/// on its own, and everything else stands in the log as it was.
pub proof fn log_url_scrubs_each_parameter(
    base: Seq<char>,
    params: Seq<Seq<char>>,
    fragment: Option<Seq<char>>,
)
    requires
        find_char(base, '?') is None,
        find_char(base, '#') is None,
        params.len() > 0,
        forall|i: int|
            0 <= i < params.len() ==> find_char(#[trigger] params[i], '&') is None && find_char(
                params[i],
                '#',
            ) is None,
    ensures
        safe_url(assembled(base, params, fragment)) == assembled(
            base,
            scrubbed_all(params),
            fragment,
        ),
{
    let q = join(params, seq!['&']);
    let url = assembled(base, params, fragment);
    lemma_find_char(base, '?');
    lemma_find_char(url, '?');
    assert(url[base.len() as int] == '?');
    let i = find_char(url, '?').unwrap();
    if i < base.len() {
        assert(base[i] == '?');
    }
    assert(i == base.len());
    assert(url.take(i) =~= base);
    let rest = url.skip(i + 1);
    assert(url.take(i + 1) =~= base + seq!['?']);
    lemma_split_join(params, '&');
    lemma_join_free(params, '#');
    lemma_find_char(q, '#');
    match fragment {
        None => {
            assert(rest =~= q);
            assert(safe_url(url) =~= base + seq!['?'] + scrubbed_query(q));
        },
        Some(f) => {
            assert(rest =~= q + seq!['#'] + f);
            lemma_find_char(rest, '#');
            assert(rest[q.len() as int] == '#');
            let j = find_char(rest, '#').unwrap();
            if j < q.len() {
                assert(q[j] == '#');
            }
            assert(rest.take(j) =~= q);
            assert(rest.skip(j) =~= seq!['#'] + f);
            assert(safe_url(url) =~= base + seq!['?'] + scrubbed_query(q) + (seq!['#'] + f));
        },
    }
}

/// The URL with the given base, query parameters and fragment.
pub open spec fn assembled(
    base: Seq<char>,
    params: Seq<Seq<char>>,
    fragment: Option<Seq<char>>,
) -> Seq<char> {
    let url = base + seq!['?'] + join(params, seq!['&']);
    match fragment {
        None => url,
        Some(f) => url + seq!['#'] + f,
    }
}

/// A character that is neither in a piece nor the separator is not in the joined text.
proof fn lemma_join_free(v: Seq<Seq<char>>, c: char)
    requires
        c != '&',
        forall|i: int| 0 <= i < v.len() ==> find_char(#[trigger] v[i], c) is None,
    ensures
        find_char(join(v, seq!['&']), c) is None,
    decreases v.len(),
{
    let s = join(v, seq!['&']);
    lemma_find_char(s, c);
    if v.len() > 1 {
        let d = v.drop_last();
        assert forall|i: int| 0 <= i < d.len() implies find_char(#[trigger] d[i], c) is None by {
            assert(d[i] == v[i]);
        }
        lemma_join_free(d, c);
        let a = join(d, seq!['&']);
        lemma_find_char(a, c);
        assert(find_char(v[v.len() - 1], c) is None);
        lemma_find_char(v.last(), c);
        if let Some(p) = find_char(s, c) {
            assert(p < a.len() ==> a[p] == c);
            assert(p == a.len() ==> s[p] == '&');
            assert(p > a.len() ==> v.last()[p - a.len() - 1] == c);
        }
    } else if v.len() == 1 {
        assert(find_char(v[0], c) is None);
    }
}

/// A URL that was made fit for a log stays as it is when it is made so again.
pub proof fn log_url_is_idempotent(url: Seq<char>)
    ensures
        safe_url(safe_url(url)) == safe_url(url),
{
    lemma_find_char(url, '?');
    if let Some(i) = query_mark(url) {
        let base = url.take(i);
        let rest = url.skip(i + 1);
        lemma_find_char(base, '?');
        if let Some(p) = find_char(base, '?') {
            assert(url[p] == '?');
        }
        lemma_find_char(rest, '#');
        let (q, fragment) = match find_char(rest, '#') {
            None => (rest, None),
            Some(j) => (rest.take(j), Some(rest.skip(j + 1))),
        };
        lemma_find_char(q, '#');
        if let Some(p) = find_char(q, '#') {
            assert(rest[p] == '#');
        }
        lemma_split_pieces(q, '&', '&');
        lemma_split_pieces(q, '&', '#');
        let params = split(q, '&');
        let clean = scrubbed_all(params);
        assert forall|k: int| 0 <= k < clean.len() implies find_char(#[trigger] clean[k], '&')
            is None && find_char(clean[k], '#') is None && scrubbed(clean[k]) == clean[k] by {
            assert(find_char(params[k], '&') is None);
            lemma_scrubbed(params[k], '&');
            lemma_scrubbed(params[k], '#');
        }
        log_url_scrubs_each_parameter(base, clean, fragment);
        assert(scrubbed_all(clean) =~= clean);
        assert(safe_url(url) =~= assembled(base, clean, fragment)) by {
            assert(url.take(i + 1) =~= base + seq!['?']);
            if let Some(j) = find_char(rest, '#') {
                assert(rest.skip(j) =~= seq!['#'] + rest.skip(j + 1));
            }
        }
    }
}

/// The names of what is to be hidden are these, in whatever case, and no
/// others.
pub proof fn names_are_sensitive_in_any_case(key: Seq<char>)
    ensures
        sensitive(key) <==> lower(key) == "api_key"@ || lower(key) == "apikey"@ || lower(key)
            == "key"@ || lower(key) == "token"@ || lower(key) == "access_token"@ || lower(key)
            == "secret"@,
        sensitive(key) <==> sensitive(lower(key)),
{
    assert(lower(lower(key)) =~= lower(key));
}

/// A parameter without a value, or with a name that is not sensitive, stays as
/// it is.
pub proof fn other_parameters_stay(key: Seq<char>, value: Seq<char>)
    requires
        find_char(key, '=') is None,
        !sensitive(key),
    ensures
        scrubbed(key + seq!['='] + value) == key + seq!['='] + value,
        scrubbed(key) == key,
{
    let kv = key + seq!['='] + value;
    lemma_find_char(key, '=');
    lemma_find_char(kv, '=');
    assert(kv[key.len() as int] == '=');
    let p = find_char(kv, '=').unwrap();
    if p < key.len() {
        assert(key[p] == '=');
    }
    assert(kv.take(p) =~= key);
}

} // verus!
