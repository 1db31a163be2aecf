//! Finds subtitles in the directories of kitsunekko.net.

use vstd::prelude::*;

use crate::markup::{behind, extract_quoted, quoted_value, text_behind};
use crate::providers::common::{resolve_to, resolved, ResolveAnswer, ResolveOutcome, Step, StepView};
use crate::providers::listing::{
    limit_to, list, listed, plain, plain_listing, Listing, ListingAnswer, ListingOutcome,
    ListingView,
};
use crate::sdk::plugin::PluginType;
use crate::sdk::result::{views, PluginResult};
use crate::sdk::types::{ResolveRequest, SearchRequest};
use crate::text::cat::{cat, cat4};
use crate::text::chars::{is_text, opt, same_text, skip_to, take_to, texts, to_chars, to_text};
use crate::text::class::{all, head, head_of, lemma_run_is, member, Class};
use crate::text::find::{
    at, begins, begins_with, ends, ends_with, find, find_char, find_chars, find_one, has_char,
    has_text, lemma_find_char, lemma_has, occurs, rfind_char, rfind_is_last, rfind_one,
};
use crate::text::list::{
    collect_some, collected_is_picked, first_some, lemma_collect_step, limited, picks,
};
use crate::text::replace::{lemma_replace_absent, replace, replace_all};
use crate::text::split::{lines, lines_of, slices};
use crate::text::percent::{encoded, url_encode};
use crate::text::trim::{
    trim, trim_both, trim_end_char, trim_head_text, trim_start_text, trim_tail_char, trim_text,
};

verus! {

/// The provider.
#[derive(Debug, Default)]
pub struct KitsunekkoProvider;

/// What stands before the first `/` of a text.
pub open spec fn before_slash(s: Seq<char>) -> Seq<char> {
    match find_char(s, '/') {
        Some(i) => s.take(i),
        None => s,
    }
}

/// An address on the site: a secure one whose host is the site itself, with
/// nothing before or behind it.
pub open spec fn on_site(url: Seq<char>) -> bool {
    begins(url, "https://"@) && (before_slash(url.skip(8)) == "kitsunekko.net"@ || before_slash(
        url.skip(8),
    ) == "www.kitsunekko.net"@)
}

/// Whether an address is on the site.
pub fn is_valid_kitsunekko_url(url: &str) -> (r: bool)
    ensures
        r == on_site(url@),
{
    proof {
        reveal_strlit("https://");
    }
    let u = to_chars(url);
    if !begins_with(u.as_slice(), "https://") {
        return false;
    }
    let rest = skip_to(u.as_slice(), 8);
    let host = match find_one(rest, '/') {
        Some(i) => take_to(rest, i),
        None => rest,
    };
    is_text(host, "kitsunekko.net") || is_text(host, "www.kitsunekko.net")
}

/// The directory that a line of markup links to.
pub open spec fn dir_in(line: Seq<char>) -> Option<Seq<char>> {
    match behind(line, "dir="@) {
        Some(t) => {
            let value = head(t, Class::Parameter);
            if value.len() == 0 {
                None
            } else {
                Some(value)
            }
        },
        None => None,
    }
}

/// The directory that a line of markup links to.
pub fn extract_dir_param(line: &[char]) -> (r: Option<String>)
    ensures
        opt(r) == dir_in(line@),
{
    match text_behind(line, "dir=") {
        Some(t) => {
            let value = head_of(t, Class::Parameter);
            if value.len() == 0 {
                None
            } else {
                Some(to_text(value))
            }
        },
        None => None,
    }
}

/// What a directory is called: its last part, with spaces for `+` and `_`.
pub open spec fn dir_title(dir: Seq<char>) -> Seq<char> {
    let last = match rfind_char(dir, '/') {
        Some(i) => dir.skip(i + 1),
        None => dir,
    };
    replace(replace(last, "+"@, " "@), "_"@, " "@)
}

/// The language that a directory is for.
pub open spec fn dir_language(dir: Seq<char>) -> Seq<char> {
    if occurs(dir, "/japanese"@) {
        "Japanese"@
    } else if occurs(dir, "/english"@) {
        "English"@
    } else {
        "Unknown"@
    }
}

/// The entry that a line of the list of directories gives. Directories
/// without a name and hidden ones are passed over.
pub open spec fn entry_in(raw: Seq<char>) -> Option<ListingView> {
    let line = trim(raw);
    if occurs(line, "dirlist.php"@) && occurs(line, "dir=subtitles"@) {
        match dir_in(line) {
            Some(dir) => if dir_title(dir).len() == 0 || begins(dir_title(dir), "."@) {
                None
            } else {
                Some(
                    plain(
                        "https://kitsunekko.net/dirlist.php?dir="@ + dir,
                        dir_title(dir),
                        Some(dir_language(dir)),
                    ),
                )
            },
            None => None,
        }
    } else {
        None
    }
}

/// `entry_in` as a function.
pub open spec fn entry_maker() -> spec_fn(Seq<char>) -> Option<ListingView> {
    |line: Seq<char>| entry_in(line)
}

/// The entry that a line of the list of directories gives.
fn parse_entry(raw: &[char]) -> (r: Option<Listing>)
    ensures
        match r {
            Some(e) => entry_in(raw@) == Some(e@),
            None => entry_in(raw@) is None,
        },
{
    proof {
        reveal_strlit("+");
        reveal_strlit("_");
    }
    let line = trim_both(raw);
    if !has_text(line, "dirlist.php") || !has_text(line, "dir=subtitles") {
        return None;
    }
    match extract_dir_param(line) {
        Some(dir) => {
            let d = to_chars(dir.as_str());
            let end: usize = d.len();
            let last = match rfind_one(d.as_slice(), '/') {
                Some(i) => skip_to(d.as_slice(), i + 1),
                None => d.as_slice(),
            };
            let title = replace_all(last, "+", " ");
            let title = replace_all(title.as_slice(), "_", " ");
            if title.len() == 0 || begins_with(title.as_slice(), ".") {
                return None;
            }
            let language = if has_text(d.as_slice(), "/japanese") {
                "Japanese"
            } else if has_text(d.as_slice(), "/english") {
                "English"
            } else {
                "Unknown"
            };
            Some(
                plain_listing(
                    cat("https://kitsunekko.net/dirlist.php?dir=", dir.as_str()),
                    to_text(title.as_slice()),
                    Some(language.to_owned()),
                ),
            )
        },
        None => None,
    }
}

/// The entries of the list of directories, up to the limit.
pub fn parse_search_results(html: &str, limit: u32) -> (r: Vec<Listing>)
    ensures
        views(r@) == limited(collect_some(lines(html@), entry_maker()), limit),
{
    let chars = to_chars(html);
    let rows = lines_of(chars.as_slice());
    let ghost all = slices(rows@);
    let mut out: Vec<Listing> = Vec::new();
    for i in 0..rows.len()
        invariant
            all == slices(rows@),
            views(out@) == collect_some(all.take(i as int), entry_maker()),
    {
        proof {
            lemma_collect_step(all, entry_maker(), i as int);
        }
        let ghost before = views(out@);
        if let Some(e) = parse_entry(rows[i]) {
            out.push(e);
            assert(views(out@) =~= before.push(e@));
        }
    }
    assert(all.take(all.len() as int) =~= all);
    limit_to(out, limit)
}

/// The directory in the address of a page, or `.` where it has none.
pub open spec fn dir_of_page(base_url: Seq<char>) -> Seq<char> {
    let dir = match behind(base_url, "dir="@) {
        Some(t) => match find_char(t, '&') {
            Some(j) => t.take(j),
            None => t,
        },
        None => seq![],
    };
    if dir.len() == 0 {
        "."@
    } else {
        dir
    }
}

/// The directory in the address of a page.
fn page_dir(base_url: &str) -> (r: Vec<char>)
    ensures
        r@ == dir_of_page(base_url@),
{
    let chars = to_chars(base_url);
    let dir = match text_behind(chars.as_slice(), "dir=") {
        Some(t) => match find_one(t, '&') {
            Some(j) => to_text(take_to(t, j)),
            None => to_text(t),
        },
        None => String::new(),
    };
    if dir.as_str().is_empty() {
        to_chars(".")
    } else {
        to_chars(dir.as_str())
    }
}

/// How often `n` occurs in `s`, counted from the left without overlap.
pub open spec fn count(s: Seq<char>, n: Seq<char>) -> nat
    decreases s.len(),
    via count_shrinks
{
    match find(s, n) {
        Some(i) => if n.len() > 0 {
            1 + count(s.skip(i + n.len()), n)
        } else {
            0
        },
        None => 0,
    }
}

#[via_fn]
proof fn count_shrinks(s: Seq<char>, n: Seq<char>) {
    lemma_has(s, n);
}

/// How often the text occurs.
fn count_of(s: &[char], n: &str) -> (r: usize)
    requires
        n@.len() > 0,
    ensures
        r == count(s@, n@),
{
    let p = to_chars(n);
    let mut rest: &[char] = s;
    let mut c: usize = 0;
    let total: usize = s.len();
    loop
        invariant
            p@ == n@,
            n@.len() > 0,
            total == s@.len(),
            c + rest@.len() <= total,
            c + count(rest@, n@) == count(s@, n@),
        decreases rest@.len(),
    {
        match find_chars(rest, p.as_slice(), 0) {
            Some(i) => {
                let end: usize = rest.len();
                let tail = skip_to(rest, i + p.len());
                c += 1;
                rest = tail;
            },
            None => {
                return c;
            },
        }
    }
}

/// The directory `n` levels above a directory, as far up as there is one.
pub open spec fn above(path: Seq<char>, n: nat) -> Seq<char>
    decreases n,
{
    if n == 0 {
        path
    } else {
        let up = match rfind_char(path, '/') {
            Some(i) => path.take(i),
            None => path,
        };
        above(up, (n - 1) as nat)
    }
}

/// The directory `n` levels above a directory.
fn go_up<'a>(path: &'a [char], n: usize) -> (r: &'a [char])
    ensures
        r@ == above(path@, n as nat),
{
    let mut at: &'a [char] = path;
    let mut left: usize = n;
    while left > 0
        invariant
            above(at@, left as nat) == above(path@, n as nat),
        decreases left,
    {
        if let Some(i) = rfind_one(at, '/') {
            at = take_to(at, i);
        }
        left -= 1;
    }
    at
}

/// A file or a directory below a directory of the site: what has a point in
/// its name is a file.
pub open spec fn below(dir: Seq<char>, name: Seq<char>) -> Seq<char> {
    if find_char(name, '.') is Some {
        "https://kitsunekko.net/"@ + dir + "/"@ + name
    } else {
        "https://kitsunekko.net/dirlist.php?dir="@ + dir + "/"@ + name
    }
}

/// A file or a directory below a directory of the site.
fn url_below(dir: &[char], name: &[char]) -> (r: String)
    ensures
        r@ == below(dir@, name@),
{
    let head = if has_char(name, '.') {
        "https://kitsunekko.net/"
    } else {
        "https://kitsunekko.net/dirlist.php?dir="
    };
    cat4(head, to_text(dir).as_str(), "/", to_text(name).as_str())
}

/// What a link on a page leads to, given the directory of the page.
pub open spec fn target(href: Seq<char>, dir: Seq<char>) -> Seq<char> {
    if begins(href, "http"@) {
        href
    } else if begins(href, "/"@) {
        "https://kitsunekko.net"@ + href
    } else if begins(href, "../"@) {
        below(
            above(trim_end_char(dir, '/'), count(href, "../"@)),
            trim_start_text(href, "../"@),
        )
    } else if begins(href, "./"@) {
        below(trim_end_char(dir, '/'), trim_start_text(href, "./"@))
    } else {
        below(dir, href)
    }
}

/// What a link on a page leads to.
fn link_target(href: &[char], dir: &[char]) -> (r: String)
    ensures
        r@ == target(href@, dir@),
{
    proof {
        reveal_strlit("../");
        reveal_strlit("./");
    }
    if begins_with(href, "http") {
        to_text(href)
    } else if begins_with(href, "/") {
        cat("https://kitsunekko.net", to_text(href).as_str())
    } else if begins_with(href, "../") {
        let depth: usize = count_of(href, "../");
        url_below(go_up(trim_tail_char(dir, '/'), depth), trim_head_text(href, "../"))
    } else if begins_with(href, "./") {
        url_below(trim_tail_char(dir, '/'), trim_head_text(href, "./"))
    } else {
        url_below(dir, href)
    }
}

/// A link leads to subtitles, or to an archive of them.
pub open spec fn leads_to_subtitles(url: Seq<char>) -> bool {
    ends(url, ".srt"@) || ends(url, ".zip"@) || ends(url, ".7z"@)
}

/// The subtitle file on the site that a line of markup links to.
pub open spec fn file_in(raw: Seq<char>, dir: Seq<char>) -> Option<Seq<char>> {
    match quoted_value(trim(raw), "href=\""@) {
        Some(href) => if leads_to_subtitles(href) && on_site(target(href, dir)) {
            Some(target(href, dir))
        } else {
            None
        },
        None => None,
    }
}

/// The list with a file at its end, unless it is already there.
pub open spec fn with_file(files: Seq<Seq<char>>, file: Option<Seq<char>>) -> Seq<Seq<char>> {
    match file {
        Some(f) => if files.contains(f) {
            files
        } else {
            files.push(f)
        },
        None => files,
    }
}

/// The subtitle files that the lines of a page link to, each once, in the
/// order in which they come.
pub open spec fn files_in(rows: Seq<Seq<char>>, dir: Seq<char>) -> Seq<Seq<char>>
    decreases rows.len(),
{
    if rows.len() == 0 {
        seq![]
    } else {
        with_file(files_in(rows.drop_last(), dir), file_in(rows.last(), dir))
    }
}

/// The subtitle file on the site that a line of markup links to.
fn parse_file(raw: &[char], dir: &[char]) -> (r: Option<String>)
    ensures
        opt(r) == file_in(raw@, dir@),
{
    match extract_quoted(trim_both(raw), "href=\"") {
        Some(href) => {
            let h = to_chars(href.as_str());
            let h = h.as_slice();
            if !ends_with(h, ".srt") && !ends_with(h, ".zip") && !ends_with(h, ".7z") {
                return None;
            }
            let url = link_target(h, dir);
            if is_valid_kitsunekko_url(url.as_str()) {
                Some(url)
            } else {
                None
            }
        },
        None => None,
    }
}

/// Whether a list of texts holds a text.
fn contains_text(v: &Vec<String>, s: &str) -> (r: bool)
    ensures
        r == texts(v@).contains(s@),
{
    for i in 0..v.len()
        invariant
            forall|k: int| 0 <= k < i ==> texts(v@)[k] != s@,
    {
        if same_text(v[i].as_str(), s) {
            assert(texts(v@)[i as int] == s@);
            return true;
        }
    }
    false
}

/// The subtitle files that a page links to, each once.
pub fn extract_file_links(html: &str, base_url: &str) -> (r: Vec<String>)
    ensures
        texts(r@) == files_in(lines(html@), dir_of_page(base_url@)),
{
    let dir = page_dir(base_url);
    let chars = to_chars(html);
    let rows = lines_of(chars.as_slice());
    let ghost all = slices(rows@);
    let mut files: Vec<String> = Vec::new();
    for i in 0..rows.len()
        invariant
            all == slices(rows@),
            dir@ == dir_of_page(base_url@),
            texts(files@) == files_in(all.take(i as int), dir@),
    {
        proof {
            assert(all.take(i + 1).drop_last() =~= all.take(i as int));
            assert(all.take(i + 1).last() == rows@[i as int]@);
        }
        let ghost before = texts(files@);
        if let Some(f) = parse_file(rows[i], dir.as_slice()) {
            if !contains_text(&files, f.as_str()) {
                files.push(f);
                assert(texts(files@) =~= before.push(f@));
            }
        }
    }
    assert(all.take(all.len() as int) =~= all);
    files
}

/// A text ends as what stands at its end does.
proof fn lemma_ends_behind(a: Seq<char>, b: Seq<char>, e: Seq<char>)
    requires
        ends(b, e),
    ensures
        ends(a + b, e),
{
    let h = a + b;
    assert(h.subrange(h.len() - e.len(), h.len() as int) =~= b.subrange(
        b.len() - e.len(),
        b.len() as int,
    ));
}

/// Cutting the repetitions of `p` from the head of a text leaves an ending in
/// which the last character of `p` does not occur.
proof fn lemma_ends_trimmed(s: Seq<char>, p: Seq<char>, e: Seq<char>)
    requires
        ends(s, e),
        p.len() > 0,
        !e.contains(p.last()),
    ensures
        ends(trim_start_text(s, p), e),
    decreases s.len(),
{
    if begins(s, p) {
        let k = s.len() - e.len();
        if k < p.len() {
            assert(s.subrange(0, p.len() as int)[p.len() - 1] == p.last());
            assert(s.subrange(k, s.len() as int)[p.len() - 1 - k] == p.last());
            assert(e[p.len() - 1 - k] == p.last());
        }
        let rest = s.skip(p.len() as int);
        assert(rest.subrange(rest.len() - e.len(), rest.len() as int) =~= s.subrange(
            k,
            s.len() as int,
        ));
        lemma_ends_trimmed(rest, p, e);
    }
}

/// What lies below a directory ends as its name does.
proof fn lemma_below_ends(dir: Seq<char>, name: Seq<char>, e: Seq<char>)
    requires
        ends(name, e),
    ensures
        ends(below(dir, name), e),
{
    lemma_ends_behind("https://kitsunekko.net/"@ + dir + "/"@, name, e);
    lemma_ends_behind("https://kitsunekko.net/dirlist.php?dir="@ + dir + "/"@, name, e);
}

/// What a link leads to ends as the link does, in what holds no slash.
proof fn lemma_target_ends(href: Seq<char>, dir: Seq<char>, e: Seq<char>)
    requires
        ends(href, e),
        !e.contains('/'),
    ensures
        ends(target(href, dir), e),
{
    reveal_strlit("../");
    reveal_strlit("./");
    let up = trim_start_text(href, "../"@);
    let here = trim_start_text(href, "./"@);
    lemma_ends_behind("https://kitsunekko.net"@, href, e);
    lemma_ends_trimmed(href, "../"@, e);
    lemma_ends_trimmed(href, "./"@, e);
    lemma_below_ends(above(trim_end_char(dir, '/'), count(href, "../"@)), up, e);
    lemma_below_ends(trim_end_char(dir, '/'), here, e);
    lemma_below_ends(dir, href, e);
}

/// No file is listed twice, and every one is a subtitle file on the site.
pub proof fn files_are_distinct_and_on_site(rows: Seq<Seq<char>>, dir: Seq<char>)
    ensures
        files_in(rows, dir).no_duplicates(),
        forall|k: int|
            0 <= k < files_in(rows, dir).len() ==> on_site(#[trigger] files_in(rows, dir)[k])
                && leads_to_subtitles(files_in(rows, dir)[k]),
    decreases rows.len(),
{
    if rows.len() > 0 {
        files_are_distinct_and_on_site(rows.drop_last(), dir);
        if file_in(rows.last(), dir) is Some {
            reveal_strlit(".srt");
            reveal_strlit(".zip");
            reveal_strlit(".7z");
            let href = quoted_value(trim(rows.last()), "href=\""@)->0;
            if ends(href, ".srt"@) {
                lemma_target_ends(href, dir, ".srt"@);
            }
            if ends(href, ".zip"@) {
                lemma_target_ends(href, dir, ".zip"@);
            }
            if ends(href, ".7z"@) {
                lemma_target_ends(href, dir, ".7z"@);
            }
        }
    }
}

/// The page that a search is answered from. Nothing is found for an empty query.
pub open spec fn search_step(query: Seq<char>) -> StepView<ListingOutcome> {
    if trim(query).len() == 0 {
        StepView::Answer(listed(seq![]))
    } else {
        StepView::Fetch(
            "https://kitsunekko.net/dirlist.php?dir=subtitles/&search="@ + encoded(trim(query)),
        )
    }
}

/// The page that a request to resolve is answered from: the entry's own,
/// where it is on the site.
pub open spec fn resolve_step(entry_id: Seq<char>) -> StepView<ResolveOutcome> {
    if entry_id.len() == 0 {
        StepView::Answer(Err(("INVALID_URL"@, "empty entry_id"@)))
    } else if !on_site(entry_id) {
        StepView::Answer(Err(("INVALID_URL"@, "URL must be from kitsunekko.net"@)))
    } else {
        StepView::Fetch(entry_id)
    }
}

/// What a request to resolve answers: the first subtitle file on the page.
pub open spec fn resolve_outcome(page: Result<String, String>, entry_id: Seq<char>) -> ResolveOutcome {
    match page {
        Err(e) => Err(("HTTP_ERROR"@, e@)),
        Ok(html) => {
            let files = files_in(lines(html@), dir_of_page(entry_id));
            if files.len() == 0 {
                Err(("PARSE_ERROR"@, "no subtitle files found"@))
            } else {
                resolved(files[0], Some("kitsunekko"@))
            }
        },
    }
}

impl KitsunekkoProvider {
    /// The provider's name.
    pub fn name(&self) -> (r: &str)
        ensures
            r@ == "kitsunekko"@,
    {
        "kitsunekko"
    }

    /// The provider's version.
    pub fn version(&self) -> (r: &str)
        ensures
            r@ == "0.1.0"@,
    {
        "0.1.0"
    }

    /// What the provider is for.
    pub fn plugin_type(&self) -> (r: PluginType)
        ensures
            r == PluginType::Subtitle,
    {
        PluginType::Subtitle
    }

    /// Begins a search: the page to fetch, or the empty answer.
    pub fn search(&self, req: &SearchRequest) -> (r: Step<ListingAnswer>)
        ensures
            r@ == search_step(req.query@),
    {
        let query = trim_text(req.query.as_str());
        if query.as_str().is_empty() {
            let items: Vec<Listing> = Vec::new();
            assert(views(items@) =~= seq![]);
            return Step::Answer(list(items));
        }
        Step::Fetch(
            cat(
                "https://kitsunekko.net/dirlist.php?dir=subtitles/&search=",
                url_encode(query.as_str()).as_str(),
            ),
        )
    }

    /// Ends a search: the directories on the page, up to the limit.
    pub fn search_reply(&self, page: Result<String, String>, limit: u32) -> (r: ListingAnswer)
        ensures
            r@ == match page {
                Err(e) => Err(("HTTP_ERROR"@, e@)),
                Ok(html) => listed(
                    limited(collect_some(lines(html@), entry_maker()), limit),
                ),
            },
    {
        match page {
            Ok(html) => list(parse_search_results(html.as_str(), limit)),
            Err(e) => PluginResult::err("HTTP_ERROR", e.as_str()),
        }
    }

    /// Begins a request to resolve: the page to fetch, or the error that the
    /// entry is none of the site's.
    pub fn resolve(&self, req: &ResolveRequest) -> (r: Step<ResolveAnswer>)
        ensures
            r@ == resolve_step(req.entry_id@),
    {
        let url = req.entry_id.as_str();
        if url.is_empty() {
            return Step::Answer(PluginResult::err("INVALID_URL", "empty entry_id"));
        }
        if !is_valid_kitsunekko_url(url) {
            return Step::Answer(
                PluginResult::err("INVALID_URL", "URL must be from kitsunekko.net"),
            );
        }
        Step::Fetch(url.to_owned())
    }

    /// Ends a request to resolve: the first subtitle file on the page.
    pub fn resolve_reply(&self, page: Result<String, String>, entry_id: &str) -> (r: ResolveAnswer)
        ensures
            r@ == resolve_outcome(page, entry_id@),
    {
        match page {
            Ok(html) => {
                let files = extract_file_links(html.as_str(), entry_id);
                if files.len() == 0 {
                    return PluginResult::err("PARSE_ERROR", "no subtitle files found");
                }
                assert(texts(files@)[0] == files@[0]@);
                resolve_to(files[0].clone(), Some("kitsunekko".to_owned()))
            },
            Err(e) => PluginResult::err("HTTP_ERROR", e.as_str()),
        }
    }
}

/// What is handed out is a subtitle file on the site.
pub proof fn resolved_file_is_on_site(page: Result<String, String>, entry_id: Seq<char>)
    ensures
        resolve_outcome(page, entry_id) matches Ok(v) ==> on_site(v.stream_url)
            && leads_to_subtitles(v.stream_url),
{
    if let Ok(html) = page {
        files_are_distinct_and_on_site(lines(html@), dir_of_page(entry_id));
    }
}

/// An address is on the site where it is a secure one and the host in it is one
/// of the two names of the site, to the letter.
pub proof fn hosts_are_told_to_the_letter(host: Seq<char>, rest: Seq<char>, other: Seq<char>)
    requires
        find_char(host, '/') is None,
        !begins(other, "https://"@),
    ensures
        on_site("https://"@ + host + seq!['/'] + rest) <==> host == "kitsunekko.net"@ || host
            == "www.kitsunekko.net"@,
        on_site("https://"@ + host) <==> host == "kitsunekko.net"@ || host
            == "www.kitsunekko.net"@,
        !on_site(other),
{
    reveal_strlit("https://");
    let s = "https://"@ + host + seq!['/'] + rest;
    let t = host + seq!['/'] + rest;
    assert(s.skip(8) =~= t);
    assert(s.subrange(0, 8) =~= "https://"@);
    lemma_find_char(host, '/');
    lemma_find_char(t, '/');
    assert(t[host.len() as int] == '/');
    let p = find_char(t, '/').unwrap();
    if p < host.len() {
        assert(host[p] == '/');
    }
    assert(t.take(p) =~= host);
    let u = "https://"@ + host;
    assert(u.skip(8) =~= host);
    assert(u.subrange(0, 8) =~= "https://"@);
}

/// A line lists a directory where it links to one among the subtitles and that
/// has a name which does not begin with a dot: under the address of the
/// directory, by its name, and with its language.
pub proof fn lines_list_their_directory(raw: Seq<char>)
    ensures
        entry_maker()(raw) == entry_in(raw),
        ({
            let line = trim(raw);
            let linked = occurs(line, "dirlist.php"@) && occurs(line, "dir=subtitles"@) && dir_in(
                line,
            ) is Some;
            let dir = dir_in(line)->0;
            &&& entry_in(raw) is Some <==> linked && dir_title(dir).len() > 0 && !begins(
                dir_title(dir),
                "."@,
            )
            &&& entry_in(raw) matches Some(e) ==> {
                &&& e.id == "https://kitsunekko.net/dirlist.php?dir="@ + dir
                &&& e.title == dir_title(dir)
                &&& e.description == Some(dir_language(dir))
                &&& e.year is None && e.genre is None && e.poster_url is None && e.imdb_id is None
            }
        }),
{
}

/// Every line that lists a directory does so in the order of the page.
pub proof fn no_line_is_lost(rows: Seq<Seq<char>>)
    ensures
        picks(rows, entry_maker(), collect_some(rows, entry_maker())),
{
    collected_is_picked(rows, entry_maker());
}

/// The language of a directory is named in its path; where both are, Japanese
/// counts.
pub proof fn languages_are_named_in_the_path(dir: Seq<char>)
    ensures
        occurs(dir, "/japanese"@) ==> dir_language(dir) == "Japanese"@,
        !occurs(dir, "/japanese"@) && occurs(dir, "/english"@) ==> dir_language(dir) == "English"@,
        !occurs(dir, "/japanese"@) && !occurs(dir, "/english"@) ==> dir_language(dir)
            == "Unknown"@,
{
}

/// A directory goes by what stands behind the last slash of its path.
pub proof fn directories_go_by_their_last_part(front: Seq<char>, name: Seq<char>)
    requires
        find_char(name, '/') is None,
        !occurs(name, "+"@),
        !occurs(name, "_"@),
    ensures
        dir_title(front + seq!['/'] + name) == name,
        dir_title(name) == name,
{
    let s = front + seq!['/'] + name;
    lemma_find_char(name, '/');
    rfind_is_last(s, '/');
    rfind_is_last(name, '/');
    assert(s[front.len() as int] == '/');
    let p = rfind_char(s, '/').unwrap();
    if p > front.len() {
        assert(name[p - front.len() - 1] == '/');
    }
    assert(s.skip(p + 1) =~= name);
    if let Some(q) = rfind_char(name, '/') {
        assert(name[q] == '/');
    }
    lemma_replace_absent(name, "+"@, " "@);
    lemma_replace_absent(name, "_"@, " "@);
}

/// A plus or an underscore in the name of a directory stands for a space.
pub proof fn signs_stand_for_spaces(a: Seq<char>, b: Seq<char>)
    requires
        find_char(a, '/') is None,
        find_char(b, '/') is None,
        !occurs(a, "+"@) && !occurs(b, "+"@),
        !occurs(a, "_"@) && !occurs(b, "_"@),
    ensures
        dir_title(a + seq!['+'] + b) == a + seq![' '] + b,
        dir_title(a + seq!['_'] + b) == a + seq![' '] + b,
{
    reveal_strlit("+");
    reveal_strlit("_");
    assert("+"@ =~= seq!['+']);
    assert("_"@ =~= seq!['_']);
    lemma_sign_is_space(a, b, '+', '_', "+"@, "_"@);
    lemma_sign_is_space(a, b, '_', '+', "_"@, "+"@);
    lemma_no_slash(a, b, '_');
    lemma_no_slash(a, b, '+');
    reveal_strlit(" ");
    assert(a + " "@ + b =~= a + seq![' '] + b);
}

/// Two texts without a slash make one without it.
proof fn lemma_no_slash(a: Seq<char>, b: Seq<char>, c: char)
    requires
        find_char(a, '/') is None,
        find_char(b, '/') is None,
        c != '/',
    ensures
        rfind_char(a + seq![c] + b, '/') is None,
{
    let s = a + seq![c] + b;
    lemma_find_char(a, '/');
    lemma_find_char(b, '/');
    rfind_is_last(s, '/');
    if let Some(p) = rfind_char(s, '/') {
        if p < a.len() {
            assert(a[p] == '/');
        } else if p > a.len() {
            assert(b[p - a.len() - 1] == '/');
        }
    }
}

/// One sign between two texts without it is replaced, and the other sign is
/// nowhere to be replaced.
proof fn lemma_sign_is_space(
    a: Seq<char>,
    b: Seq<char>,
    c: char,
    d: char,
    from: Seq<char>,
    other: Seq<char>,
)
    requires
        from == seq![c] && other == seq![d],
        c != d && d != ' ',
        !occurs(a, from) && !occurs(b, from),
        !occurs(a, other) && !occurs(b, other),
    ensures
        replace(a + seq![c] + b, from, " "@) == a + " "@ + b,
        replace(a + seq![c] + b, other, " "@) == a + seq![c] + b,
        replace(a + " "@ + b, other, " "@) == a + " "@ + b,
{
    reveal_strlit(" ");
    let s = a + seq![c] + b;
    let t = a + " "@ + b;
    lemma_one(a, c);
    lemma_one(b, c);
    lemma_one(a, d);
    lemma_one(b, d);
    lemma_one(s, c);
    lemma_one(s, d);
    lemma_one(t, d);
    lemma_has(s, from);
    assert(s[a.len() as int] == c);
    assert(s.subrange(a.len() as int, a.len() as int + 1) =~= from);
    assert(at(s, from, a.len() as int));
    let p = find(s, from).unwrap();
    if p < a.len() {
        assert(s.subrange(p, p + 1)[0] == c);
        assert(a[p] == c);
    }
    assert(s.take(p) =~= a);
    assert(s.skip(p + 1) =~= b);
    lemma_replace_absent(b, from, " "@);
    if find(s, other) is Some {
        let i = choose|i: int| 0 <= i < s.len() && s[i] == d;
        assert(i < a.len() ==> a[i] == d);
        assert(i > a.len() ==> b[i - a.len() - 1] == d);
    }
    if find(t, other) is Some {
        let i = choose|i: int| 0 <= i < t.len() && t[i] == d;
        assert(i < a.len() ==> a[i] == d);
        assert(i > a.len() ==> b[i - a.len() - 1] == d);
    }
    lemma_replace_absent(s, other, " "@);
    lemma_replace_absent(t, other, " "@);
}

/// A text of one character occurs where that character stands.
proof fn lemma_one(s: Seq<char>, c: char)
    ensures
        occurs(s, seq![c]) <==> exists|i: int| 0 <= i < s.len() && #[trigger] s[i] == c,
{
    lemma_has(s, seq![c]);
    if let Some(p) = find(s, seq![c]) {
        assert(s.subrange(p, p + 1)[0] == s[p]);
        assert(s[p] == c);
    }
    if exists|i: int| 0 <= i < s.len() && #[trigger] s[i] == c {
        let i = choose|i: int| 0 <= i < s.len() && #[trigger] s[i] == c;
        assert(s.subrange(i, i + 1) =~= seq![c]);
        assert(at(s, seq![c], i));
    }
}

/// A whole address is kept, one from the root of the site gets the host before
/// it, and what is named beside the page lies in its directory: a file where
/// the name holds a dot, and else another directory.
pub proof fn links_lead_where_they_say(dir: Seq<char>, name: Seq<char>)
    ensures
        begins(name, "http"@) ==> target(name, dir) == name,
        begins(name, "/"@) ==> target(name, dir) == "https://kitsunekko.net"@ + name,
        !begins(name, "http"@) && !begins(name, "/"@) && !begins(name, "../"@) && !begins(
            name,
            "./"@,
        ) ==> {
            &&& find_char(name, '.') is Some ==> target(name, dir) == "https://kitsunekko.net/"@
                + dir + "/"@ + name
            &&& find_char(name, '.') is None ==> target(name, dir)
                == "https://kitsunekko.net/dirlist.php?dir="@ + dir + "/"@ + name
        },
{
    reveal_strlit("http");
    reveal_strlit("/");
    if begins(name, "http"@) {
        assert(name.subrange(0, 4)[0] == 'h');
    }
    if begins(name, "/"@) {
        assert(name.subrange(0, 1)[0] == '/');
        assert(name[0] == '/');
        if begins(name, "http"@) {
            assert(name[0] == 'h');
        }
    }
}

/// A link that begins with two dots leads to the directory above, and one that
/// begins with one dot stays in the directory of the page.
pub proof fn dots_lead_up(up: Seq<char>, last: Seq<char>, name: Seq<char>)
    requires
        find_char(last, '/') is None,
        last.len() > 0,
        !occurs(name, "./"@),
        !occurs(name, "../"@),
    ensures
        target("../"@ + name, up + seq!['/'] + last) == below(up, name),
        target("./"@ + name, up + seq!['/'] + last) == below(up + seq!['/'] + last, name),
{
    reveal_strlit("../");
    reveal_strlit("./");
    reveal_strlit("http");
    reveal_strlit("/");
    let dir = up + seq!['/'] + last;
    lemma_find_char(last, '/');
    assert(dir.last() == last.last());
    assert(last[last.len() - 1] != '/');
    assert(trim_end_char(dir, '/') == dir);
    lemma_has(name, "./"@);
    lemma_has(name, "../"@);
    // Two dots.
    let s = "../"@ + name;
    assert(s.subrange(0, 3) =~= "../"@);
    assert(s[0] == '.' && s[1] == '.' && s[2] == '/');
    if begins(s, "http"@) {
        assert(s.subrange(0, 4)[0] == 'h');
    }
    if begins(s, "/"@) {
        assert(s.subrange(0, 1)[0] == '/');
    }
    lemma_has(s, "../"@);
    assert(at(s, "../"@, 0));
    assert(find(s, "../"@) == Some(0int));
    assert(s.skip(3) =~= name);
    assert(count(name, "../"@) == 0);
    assert(count(s, "../"@) == 1);
    assert(trim_start_text(name, "../"@) == name);
    assert(trim_start_text(s, "../"@) == name);
    rfind_is_last(dir, '/');
    assert(dir[up.len() as int] == '/');
    let p = rfind_char(dir, '/').unwrap();
    if p > up.len() {
        assert(last[p - up.len() - 1] == '/');
    }
    assert(dir.take(p) =~= up);
    reveal_with_fuel(above, 2);
    // One dot.
    let t = "./"@ + name;
    assert(t.subrange(0, 2) =~= "./"@);
    assert(t[0] == '.' && t[1] == '/');
    if begins(t, "http"@) {
        assert(t.subrange(0, 4)[0] == 'h');
    }
    if begins(t, "/"@) {
        assert(t.subrange(0, 1)[0] == '/');
    }
    if begins(t, "../"@) {
        assert(t.subrange(0, 3)[1] == '.');
    }
    assert(t.skip(2) =~= name);
    assert(trim_start_text(name, "./"@) == name);
    assert(trim_start_text(t, "./"@) == name);
}

/// The directory of a page is the one that its address names, up to the next
/// parameter, and the current one where it names none.
pub proof fn pages_name_their_directory(
    front: Seq<char>,
    dir: Seq<char>,
    rest: Seq<char>,
    none: Seq<char>,
)
    requires
        find(front + "dir="@ + dir + rest, "dir="@) == Some(front.len() as int),
        find_char(dir, '&') is None,
        rest.len() > 0 ==> rest[0] == '&',
        dir.len() > 0,
        !occurs(none, "dir="@),
    ensures
        dir_of_page(front + "dir="@ + dir + rest) == dir,
        dir_of_page(none) == "."@,
{
    reveal_strlit("dir=");
    let url = front + "dir="@ + dir + rest;
    let t = url.skip(front.len() as int + 4);
    assert(t =~= dir + rest);
    lemma_find_char(dir, '&');
    lemma_find_char(t, '&');
    if rest.len() > 0 {
        assert(t[dir.len() as int] == '&');
        let p = find_char(t, '&').unwrap();
        if p < dir.len() {
            assert(dir[p] == '&');
        }
        assert(t.take(p) =~= dir);
    } else {
        if let Some(p) = find_char(t, '&') {
            assert(dir[p] == '&');
        }
        assert(t =~= dir);
    }
}

/// A line holds a file where its link ends as a subtitle file does and leads to
/// the site.
pub proof fn lines_hold_subtitle_files(raw: Seq<char>, dir: Seq<char>)
    ensures
        ({
            let href = quoted_value(trim(raw), "href=\""@);
            let named = href matches Some(h) && (ends(h, ".srt"@) || ends(h, ".zip"@) || ends(
                h,
                ".7z"@,
            ));
            &&& file_in(raw, dir) is Some <==> named && on_site(target(href->0, dir))
            &&& file_in(raw, dir) matches Some(f) ==> f == target(href->0, dir)
        }),
{
}

/// Every file on a page is found and no other, and the first one comes first.
pub proof fn no_file_is_lost(rows: Seq<Seq<char>>, dir: Seq<char>)
    ensures
        forall|i: int|
            0 <= i < rows.len() ==> (file_in(#[trigger] rows[i], dir) matches Some(f)
                ==> files_in(rows, dir).contains(f)),
        forall|k: int|
            0 <= k < files_in(rows, dir).len() ==> exists|i: int|
                0 <= i < rows.len() && file_in(#[trigger] rows[i], dir) == Some(
                    #[trigger] files_in(rows, dir)[k],
                ),
        files_in(rows, dir).len() == 0 <==> first_some(rows, |r: Seq<char>| file_in(r, dir))
            is None,
        files_in(rows, dir).len() > 0 ==> Some(files_in(rows, dir)[0]) == first_some(
            rows,
            |r: Seq<char>| file_in(r, dir),
        ),
    decreases rows.len(),
{
    let f = |r: Seq<char>| file_in(r, dir);
    if rows.len() > 0 {
        let d = rows.drop_last();
        no_file_is_lost(d, dir);
        let before = files_in(d, dir);
        let now = files_in(rows, dir);
        assert forall|i: int| 0 <= i < rows.len() implies (file_in(
            #[trigger] rows[i],
            dir,
        ) matches Some(x) ==> now.contains(x)) by {
            if i < d.len() {
                assert(rows[i] == d[i]);
                if let Some(x) = file_in(rows[i], dir) {
                    assert(before.contains(x));
                    let k = choose|k: int| 0 <= k < before.len() && before[k] == x;
                    assert(now[k] == x);
                }
            } else if let Some(x) = file_in(rows[i], dir) {
                if !before.contains(x) {
                    assert(now[now.len() - 1] == x);
                }
            }
        }
        assert forall|k: int| 0 <= k < now.len() implies exists|i: int|
            0 <= i < rows.len() && file_in(#[trigger] rows[i], dir) == Some(#[trigger] now[k]) by {
            if k < before.len() {
                assert(before[k] == now[k]);
                let i = choose|i: int|
                    0 <= i < d.len() && file_in(#[trigger] d[i], dir) == Some(before[k]);
                assert(rows[i] == d[i]);
            } else {
                assert(file_in(rows[rows.len() - 1], dir) == Some(now[k]));
            }
        }
        lemma_first_last(rows, f);
    }
}

/// What comes first is what came first before the last item, or else comes of
/// that item.
proof fn lemma_first_last(s: Seq<Seq<char>>, f: spec_fn(Seq<char>) -> Option<Seq<char>>)
    requires
        s.len() > 0,
    ensures
        first_some(s, f) == if first_some(s.drop_last(), f) is Some {
            first_some(s.drop_last(), f)
        } else {
            f(s.last())
        },
    decreases s.len(),
{
    reveal_with_fuel(first_some, 2);
    if s.len() > 1 {
        lemma_first_last(s.skip(1), f);
        assert(s.skip(1).drop_last() =~= s.drop_last().skip(1));
    }
}

/// A query is asked for in the list of the subtitles; one of nothing but white
/// space lists nothing.
pub proof fn queries_are_asked_for(query: Seq<char>)
    ensures
        trim(query).len() > 0 ==> (search_step(query) matches StepView::Fetch(u) && u
            == "https://kitsunekko.net/dirlist.php?dir=subtitles/&search="@ + encoded(
            trim(query),
        )),
        trim(query).len() == 0 ==> (search_step(query) matches StepView::Answer(Ok(r)) && r.0.len()
            == 0),
{
}

/// An entry is looked up where its id is an address on the site, and refused
/// where it is not. The first file on the page is handed out; without one, and
/// without a page, the answer says so.
pub proof fn entries_are_looked_up_on_the_site(entry_id: Seq<char>, html: String, e: String)
    ensures
        entry_id.len() > 0 && on_site(entry_id) ==> (resolve_step(entry_id) matches StepView::Fetch(
            u,
        ) && u == entry_id),
        entry_id.len() == 0 ==> (resolve_step(entry_id) matches StepView::Answer(Err(x)) && x == (
            "INVALID_URL"@,
            "empty entry_id"@,
        )),
        entry_id.len() > 0 && !on_site(entry_id) ==> (resolve_step(
            entry_id,
        ) matches StepView::Answer(Err(x)) && x == (
            "INVALID_URL"@,
            "URL must be from kitsunekko.net"@,
        )),
        ({
            let files = files_in(lines(html@), dir_of_page(entry_id));
            &&& files.len() > 0 ==> (resolve_outcome(Ok(html), entry_id) matches Ok(r)
                && r.stream_url == files[0] && r.quality == Some("kitsunekko"@)
                && r.subtitles.len() == 0)
            &&& files.len() == 0 ==> (resolve_outcome(Ok(html), entry_id) matches Err(x) && x == (
            "PARSE_ERROR"@,
            "no subtitle files found"@,
        ))
        }),
        resolve_outcome(Err(e), entry_id) == ResolveOutcome::Err(("HTTP_ERROR"@, e@)),
{
}

/// Each pair of dots is counted once, and each leads one directory up.
pub proof fn each_pair_of_dots_counts(s: Seq<char>, up: Seq<char>, last: Seq<char>, n: nat)
    requires
        find_char(last, '/') is None,
    ensures
        count("../"@ + s, "../"@) == 1 + count(s, "../"@),
        trim_start_text("../"@ + s, "../"@) == trim_start_text(s, "../"@),
        above(up + seq!['/'] + last, n + 1) == above(up, n),
        above(up, 0) == up,
{
    reveal_strlit("../");
    let t = "../"@ + s;
    assert(t.subrange(0, 3) =~= "../"@);
    lemma_has(t, "../"@);
    assert(at(t, "../"@, 0));
    assert(find(t, "../"@) == Some(0int));
    assert(t.skip(3) =~= s);
    let dir = up + seq!['/'] + last;
    lemma_find_char(last, '/');
    rfind_is_last(dir, '/');
    assert(dir[up.len() as int] == '/');
    let p = rfind_char(dir, '/').unwrap();
    if p > up.len() {
        assert(last[p - up.len() - 1] == '/');
    }
    assert(dir.take(p) =~= up);
}

/// A directory is named behind `dir=`, up to the next mark of the link.
pub proof fn directories_stand_in_the_link(front: Seq<char>, dir: Seq<char>, rest: Seq<char>)
    requires
        find(front + "dir="@ + (dir + rest), "dir="@) == Some(front.len() as int),
        dir.len() > 0,
        all(dir, Class::Parameter),
        rest.len() > 0 ==> rest[0] == '&' || rest[0] == '"' || rest[0] == ' ' || rest[0] == '>',
    ensures
        dir_in(front + "dir="@ + (dir + rest)) == Some(dir),
{
    let t = dir + rest;
    let s = front + "dir="@ + t;
    assert(s.skip(front.len() as int + "dir="@.len()) =~= t);
    assert forall|i: int| 0 <= i < dir.len() implies member(Class::Parameter, t[i]) by {
        assert(t[i] == dir[i]);
        assert(member(Class::Parameter, dir[i]));
    }
    if rest.len() > 0 {
        assert(t[dir.len() as int] == rest[0]);
    }
    lemma_run_is(t, Class::Parameter, dir.len());
    assert(t.take(dir.len() as int) =~= dir);
}

} // verus!
