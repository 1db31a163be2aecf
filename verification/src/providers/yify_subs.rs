//! Finds subtitles of movies on yts-subs.com.

use vstd::prelude::*;
use vstd::utf8::encode_utf8;

use crate::markup::{behind, extract_quoted, quoted_value, text_behind};
use crate::providers::common::{resolve_to, resolved, ResolveAnswer, ResolveOutcome, Step, StepView};
use crate::providers::listing::{
    limit_to, list, listed, plain, plain_listing, Listing, ListingAnswer, ListingOutcome,
    ListingView,
};
use crate::sdk::plugin::PluginType;
use crate::sdk::result::{views, PluginResult};
use crate::sdk::types::{ResolveRequest, SearchRequest};
use crate::text::case::{lowercase, to_lowercase};
use crate::text::cat::cat;
use crate::text::chars::{byte_len, digit, opt, same_text, skip_to, take_to, to_chars, to_text};
use crate::text::class::{all, all_in, head, head_of, lemma_run_is, member, Class};
use crate::text::find::{
    begins, begins_with, ends, ends_with, find, find_char, find_one, has_char, has_text,
    lemma_find_char, occurs, rfind_char, rfind_is_last, rfind_one,
};
use crate::text::list::{
    collect_some, collected_is_picked, first_some, lemma_collect_from, lemma_collect_step,
    lemma_first_from, lemma_first_step, limited, picks,
};
use crate::text::number::digits;
use crate::text::percent::{encoded, url_encode};
use crate::text::split::{lines, lines_of, slices, split, split_at_char};
use crate::text::trim::{trim, trim_both, trim_text};

verus! {

/// The provider.
#[derive(Debug)]
pub struct YifySubsProvider;

/// The parts of an address that decide whether it is trusted.
#[derive(Debug, Clone)]
pub struct UrlParts {
    pub scheme: String,
    pub username: String,
    pub password: Option<String>,
    pub host: Option<String>,
}

/// What the parts of an address are.
#[verifier::ext_equal]
pub struct UrlPartsView {
    pub scheme: Seq<char>,
    pub username: Seq<char>,
    pub password: Option<Seq<char>>,
    pub host: Option<Seq<char>>,
}

impl View for UrlParts {
    type V = UrlPartsView;

    open spec fn view(&self) -> UrlPartsView {
        UrlPartsView {
            scheme: self.scheme@,
            username: self.username@,
            password: opt(self.password),
            host: opt(self.host),
        }
    }
}

/// The parts of an address, by the URL standard; none where it is no absolute URL.
pub uninterp spec fn url_parts(url: Seq<char>) -> Option<UrlPartsView>;

/// Calls `Url::parse`, and `scheme`, `username`, `password` and `host_str` on
/// what it gives. The parts depend on the text alone and are named `url_parts`.
#[verifier::external_body]
fn parse_url(url: &str) -> (r: Option<UrlParts>)
    ensures
        match r {
            Some(p) => url_parts(url@) == Some(p@),
            None => url_parts(url@) is None,
        },
{
    match url::Url::parse(url) {
        Ok(u) => Some(
            UrlParts {
                scheme: u.scheme().to_string(),
                username: u.username().to_string(),
                password: u.password().map(|p| p.to_string()),
                host: u.host_str().map(|h| h.to_string()),
            },
        ),
        Err(_) => None,
    }
}

/// A host that is trusted, by its name in small letters.
pub open spec fn trusted_host(low: Seq<char>) -> bool {
    ||| low == "yts-subs.com"@
    ||| low == "www.yts-subs.com"@
    ||| low == "yifysubtitles.org"@
    ||| low == "www.yifysubtitles.org"@
}

/// The parts of an address are trusted, given its host in small letters: it
/// is secure, names no user, and its host is one of the known ones.
pub open spec fn trusted_parts(p: UrlPartsView, low: Seq<char>) -> bool {
    &&& p.scheme == "https"@
    &&& p.username.len() == 0
    &&& p.password is None
    &&& p.host matches Some(h) && find_char(h, '@') is None && !occurs(h, "%40"@)
    &&& trusted_host(low)
}

/// An address is trusted.
pub open spec fn trusted(url: Seq<char>) -> bool {
    match url_parts(url) {
        Some(p) => match p.host {
            Some(h) => trusted_parts(p, lowercase(h)),
            None => false,
        },
        None => false,
    }
}

/// Whether the parts of an address are trusted, given its host in small letters.
pub fn are_trusted_parts(p: &UrlParts, low: &str) -> (r: bool)
    ensures
        r == trusted_parts(p@, low@),
{
    if !same_text(p.scheme.as_str(), "https") {
        return false;
    }
    if !p.username.as_str().is_empty() || p.password.is_some() {
        return false;
    }
    match &p.host {
        Some(h) => {
            let cs = to_chars(h.as_str());
            if has_char(cs.as_slice(), '@') || has_text(cs.as_slice(), "%40") {
                return false;
            }
            same_text(low, "yts-subs.com") || same_text(low, "www.yts-subs.com") || same_text(
                low,
                "yifysubtitles.org",
            ) || same_text(low, "www.yifysubtitles.org")
        },
        None => false,
    }
}

/// Whether an address is trusted.
pub fn is_trusted_url(url_str: &str) -> (r: bool)
    ensures
        r == trusted(url_str@),
{
    match parse_url(url_str) {
        Some(p) => match &p.host {
            Some(h) => {
                let low = to_lowercase(h.as_str());
                are_trusted_parts(&p, low.as_str())
            },
            None => false,
        },
        None => false,
    }
}

/// An IMDb id: `tt` and at least one digit.
pub open spec fn imdb_id(s: Seq<char>) -> bool {
    begins(s, "tt"@) && s.len() > 2 && all(s.skip(2), Class::Digit)
}

/// Whether a text is an IMDb id.
pub fn is_imdb_id(s: &str) -> (r: bool)
    ensures
        r == imdb_id(s@),
{
    proof {
        reveal_strlit("tt");
    }
    let cs = to_chars(s);
    begins_with(cs.as_slice(), "tt") && cs.len() > 2 && all_in(
        skip_to(cs.as_slice(), 2),
        Class::Digit,
    )
}

/// The slug of the subtitles that a line of markup links to.
pub open spec fn slug_in(line: Seq<char>) -> Option<Seq<char>> {
    match behind(line, "/subtitles/"@) {
        Some(rest) => {
            let slug = match find_char(rest, '"') {
                Some(i) => Some(rest.take(i)),
                None => match find_char(rest, ' ') {
                    Some(i) => Some(rest.take(i)),
                    None => None,
                },
            };
            match slug {
                Some(s) => if all(s, Class::Slug) {
                    Some(s)
                } else {
                    None
                },
                None => None,
            }
        },
        None => None,
    }
}

/// The slug of the subtitles that a line of markup links to.
pub fn extract_subtitle_slug(line: &[char]) -> (r: Option<String>)
    ensures
        opt(r) == slug_in(line@),
{
    match text_behind(line, "/subtitles/") {
        Some(rest) => {
            let n: usize = match find_one(rest, '"') {
                Some(i) => i,
                None => match find_one(rest, ' ') {
                    Some(i) => i,
                    None => {
                        return None;
                    },
                },
            };
            let slug = take_to(rest, n);
            if all_in(slug, Class::Slug) {
                Some(to_text(slug))
            } else {
                None
            }
        },
        None => None,
    }
}

/// The language that stands behind a tag, given the text from the tag's
/// name on: what follows the last `>`, where it is short and no link to a
/// download.
pub open spec fn language_behind(part: Seq<char>) -> Option<Seq<char>> {
    match rfind_char(part, '>') {
        Some(i) => {
            let content = part.skip(i + 1);
            let lang = trim(content);
            if encode_utf8(content).len() < 30 && lang.len() > 0 && !occurs(lang, "download"@) {
                Some(lang)
            } else {
                None
            }
        },
        None => None,
    }
}

/// `language_behind` as a function.
pub open spec fn language_finder() -> spec_fn(Seq<char>) -> Option<Seq<char>> {
    |part: Seq<char>| language_behind(part)
}

/// The language that a line of markup names.
pub open spec fn language_in(line: Seq<char>) -> Option<Seq<char>> {
    first_some(split(line, '<'), language_finder())
}

/// The language that stands behind a tag.
fn parse_language(part: &[char]) -> (r: Option<String>)
    ensures
        opt(r) == language_behind(part@),
{
    let end: usize = part.len();
    match rfind_one(part, '>') {
        Some(i) => {
            let content = skip_to(part, i + 1);
            let lang = trim_both(content);
            if byte_len(content) < 30 && lang.len() > 0 && !has_text(lang, "download") {
                Some(to_text(lang))
            } else {
                None
            }
        },
        None => None,
    }
}

/// The language that a line of markup names.
pub fn extract_language(line: &[char]) -> (r: Option<String>)
    ensures
        opt(r) == language_in(line@),
{
    let parts = split_at_char(line, '<');
    let ghost ps = slices(parts@);
    assert(ps.skip(0) =~= ps);
    for i in 0..parts.len()
        invariant
            ps == slices(parts@),
            ps == split(line@, '<'),
            first_some(ps, language_finder()) == first_some(ps.skip(i as int), language_finder()),
    {
        proof {
            lemma_first_step(ps, language_finder(), i as int);
        }
        if let Some(l) = parse_language(parts[i]) {
            return Some(l);
        }
    }
    None
}

/// The title that stands behind a tag, given the text from the tag's name on:
/// what follows the first `>`, where it is not blank and no link to a download.
pub open spec fn title_behind(part: Seq<char>) -> Option<Seq<char>> {
    match find_char(part, '>') {
        Some(i) => {
            let content = part.skip(i + 1);
            if trim(content).len() > 0 && !occurs(content, "download"@) {
                Some(trim(content))
            } else {
                None
            }
        },
        None => None,
    }
}

/// `title_behind` as a function.
pub open spec fn title_finder() -> spec_fn(Seq<char>) -> Option<Seq<char>> {
    |part: Seq<char>| title_behind(part)
}

/// The title of subtitles that a line of markup names.
pub open spec fn subtitle_title_in(line: Seq<char>) -> Option<Seq<char>> {
    first_some(split(line, '<'), title_finder())
}

/// The title that stands behind a tag.
fn parse_title(part: &[char]) -> (r: Option<String>)
    ensures
        opt(r) == title_behind(part@),
{
    let end: usize = part.len();
    match find_one(part, '>') {
        Some(i) => {
            let content = skip_to(part, i + 1);
            let title = trim_both(content);
            if title.len() > 0 && !has_text(content, "download") {
                Some(to_text(title))
            } else {
                None
            }
        },
        None => None,
    }
}

/// The title of subtitles that a line of markup names.
pub fn extract_subtitle_title(line: &[char]) -> (r: Option<String>)
    ensures
        opt(r) == subtitle_title_in(line@),
{
    let parts = split_at_char(line, '<');
    let ghost ps = slices(parts@);
    assert(ps.skip(0) =~= ps);
    for i in 0..parts.len()
        invariant
            ps == slices(parts@),
            ps == split(line@, '<'),
            first_some(ps, title_finder()) == first_some(ps.skip(i as int), title_finder()),
    {
        proof {
            lemma_first_step(ps, title_finder(), i as int);
        }
        if let Some(t) = parse_title(parts[i]) {
            return Some(t);
        }
    }
    None
}

/// The IMDb id of the movie that a line of markup links to.
pub open spec fn imdb_in(line: Seq<char>) -> Option<Seq<char>> {
    match behind(line, "/movie-imdb/tt"@) {
        Some(rest) => {
            let id = head(rest, Class::Digit);
            if id.len() == 0 {
                None
            } else {
                Some("tt"@ + id)
            }
        },
        None => None,
    }
}

/// The IMDb id of the movie that a line of markup links to.
pub fn extract_imdb_id(line: &[char]) -> (r: Option<String>)
    ensures
        opt(r) == imdb_in(line@),
{
    match text_behind(line, "/movie-imdb/tt") {
        Some(rest) => {
            let id = head_of(rest, Class::Digit);
            if id.len() == 0 {
                None
            } else {
                Some(cat("tt", to_text(id).as_str()))
            }
        },
        None => None,
    }
}

/// The title of the movie in a line of markup: what stands between the first
/// tag and the next.
pub open spec fn movie_title_in(line: Seq<char>) -> Option<Seq<char>> {
    match find_char(line, '>') {
        Some(i) => {
            let rest = line.skip(i + 1);
            match find_char(rest, '<') {
                Some(e) => if trim(rest.take(e)).len() == 0 {
                    None
                } else {
                    Some(trim(rest.take(e)))
                },
                None => None,
            }
        },
        None => None,
    }
}

/// The title of the movie in a line of markup.
pub fn extract_movie_title(line: &[char]) -> (r: Option<String>)
    ensures
        opt(r) == movie_title_in(line@),
{
    let end: usize = line.len();
    match find_one(line, '>') {
        Some(i) => {
            let rest = skip_to(line, i + 1);
            match find_one(rest, '<') {
                Some(e) => {
                    let title = trim_both(take_to(rest, e));
                    if title.len() == 0 {
                        None
                    } else {
                        Some(to_text(title))
                    }
                },
                None => None,
            }
        },
        None => None,
    }
}

/// The entry for subtitles that a line of a movie's page gives.
pub open spec fn subtitle_in(raw: Seq<char>) -> Option<ListingView> {
    let line = trim(raw);
    if occurs(line, "/subtitles/"@) && occurs(line, "download"@) {
        match (slug_in(line), language_in(line)) {
            (Some(slug), Some(lang)) => Some(
                plain(
                    slug,
                    match subtitle_title_in(line) {
                        Some(t) => t,
                        None => slug,
                    },
                    Some(lang),
                ),
            ),
            _ => None,
        }
    } else {
        None
    }
}

/// `subtitle_in` as a function.
pub open spec fn subtitle_maker() -> spec_fn(Seq<char>) -> Option<ListingView> {
    |line: Seq<char>| subtitle_in(line)
}

/// The entry for a movie that a line of the list of movies gives.
pub open spec fn movie_in(raw: Seq<char>) -> Option<ListingView> {
    let line = trim(raw);
    if occurs(line, "/movie-imdb/"@) && occurs(line, "<a"@) {
        match imdb_in(line) {
            Some(imdb) => Some(
                ListingView {
                    imdb_id: Some(imdb),
                    ..plain(
                        "https://yts-subs.com/movie-imdb/"@ + imdb,
                        match movie_title_in(line) {
                            Some(t) => t,
                            None => imdb,
                        },
                        None,
                    )
                },
            ),
            None => None,
        }
    } else {
        None
    }
}

/// `movie_in` as a function.
pub open spec fn movie_maker() -> spec_fn(Seq<char>) -> Option<ListingView> {
    |line: Seq<char>| movie_in(line)
}

/// The entry for subtitles that a line of a movie's page gives.
fn parse_subtitle(raw: &[char]) -> (r: Option<Listing>)
    ensures
        match r {
            Some(e) => subtitle_in(raw@) == Some(e@),
            None => subtitle_in(raw@) is None,
        },
{
    let line = trim_both(raw);
    if !has_text(line, "/subtitles/") || !has_text(line, "download") {
        return None;
    }
    match (extract_subtitle_slug(line), extract_language(line)) {
        (Some(slug), Some(lang)) => {
            let title = match extract_subtitle_title(line) {
                Some(t) => t,
                None => slug.clone(),
            };
            Some(plain_listing(slug, title, Some(lang)))
        },
        _ => None,
    }
}

/// The entry for a movie that a line of the list of movies gives.
fn parse_movie(raw: &[char]) -> (r: Option<Listing>)
    ensures
        match r {
            Some(e) => movie_in(raw@) == Some(e@),
            None => movie_in(raw@) is None,
        },
{
    let line = trim_both(raw);
    if !has_text(line, "/movie-imdb/") || !has_text(line, "<a") {
        return None;
    }
    match extract_imdb_id(line) {
        Some(imdb) => {
            let title = match extract_movie_title(line) {
                Some(t) => t,
                None => imdb.clone(),
            };
            let mut e = plain_listing(
                cat("https://yts-subs.com/movie-imdb/", imdb.as_str()),
                title,
                None,
            );
            e.imdb_id = Some(imdb);
            Some(e)
        },
        None => None,
    }
}

/// The subtitles on a movie's page, up to the limit.
pub fn parse_movie_page(html: &str, limit: u32) -> (r: Vec<Listing>)
    ensures
        views(r@) == limited(collect_some(lines(html@), subtitle_maker()), limit),
{
    let chars = to_chars(html);
    let rows = lines_of(chars.as_slice());
    let ghost all = slices(rows@);
    let mut out: Vec<Listing> = Vec::new();
    for i in 0..rows.len()
        invariant
            all == slices(rows@),
            views(out@) == collect_some(all.take(i as int), subtitle_maker()),
    {
        proof {
            lemma_collect_step(all, subtitle_maker(), i as int);
        }
        let ghost before = views(out@);
        if let Some(e) = parse_subtitle(rows[i]) {
            out.push(e);
            assert(views(out@) =~= before.push(e@));
        }
    }
    assert(all.take(all.len() as int) =~= all);
    limit_to(out, limit)
}

/// The movies on a page of the list of movies, up to the limit.
pub fn parse_browse_page(html: &str, limit: u32) -> (r: Vec<Listing>)
    ensures
        views(r@) == limited(collect_some(lines(html@), movie_maker()), limit),
{
    let chars = to_chars(html);
    let rows = lines_of(chars.as_slice());
    let ghost all = slices(rows@);
    let mut out: Vec<Listing> = Vec::new();
    for i in 0..rows.len()
        invariant
            all == slices(rows@),
            views(out@) == collect_some(all.take(i as int), movie_maker()),
    {
        proof {
            lemma_collect_step(all, movie_maker(), i as int);
        }
        let ghost before = views(out@);
        if let Some(e) = parse_movie(rows[i]) {
            out.push(e);
            assert(views(out@) =~= before.push(e@));
        }
    }
    assert(all.take(all.len() as int) =~= all);
    limit_to(out, limit)
}

/// A link, made into a full address where it is none.
pub open spec fn absolute(url: Seq<char>) -> Seq<char> {
    if begins(url, "http"@) {
        url
    } else if begins(url, "//"@) {
        "https:"@ + url
    } else if begins(url, "/"@) {
        "https://yts-subs.com"@ + url
    } else {
        "https://yts-subs.com/"@ + url
    }
}

/// A link leads to a download: to an archive, or below the downloads.
pub open spec fn leads_to_download(url: Seq<char>) -> bool {
    ends(url, ".zip"@) || ends(url, ".rar"@) || occurs(url, "/download/"@)
}

/// The full address of the download that a line of markup links to.
pub open spec fn download_in(raw: Seq<char>) -> Option<Seq<char>> {
    let line = trim(raw);
    if occurs(line, "download"@) {
        match quoted_value(line, "href=\""@) {
            Some(url) => if leads_to_download(url) {
                Some(absolute(url))
            } else {
                None
            },
            None => None,
        }
    } else {
        None
    }
}

/// The trusted download that a line of markup links to.
pub open spec fn trusted_download_in(raw: Seq<char>) -> Option<Seq<char>> {
    match download_in(raw) {
        Some(url) => if trusted(url) {
            Some(url)
        } else {
            None
        },
        None => None,
    }
}

/// `trusted_download_in` as a function.
pub open spec fn download_finder() -> spec_fn(Seq<char>) -> Option<Seq<char>> {
    |line: Seq<char>| trusted_download_in(line)
}

/// The value of the first `href` in a line of markup.
pub fn extract_href(line: &[char]) -> (r: Option<String>)
    ensures
        opt(r) == quoted_value(line@, "href=\""@),
{
    extract_quoted(line, "href=\"")
}

/// The full address of the download that a line of markup links to.
pub fn parse_download(raw: &[char]) -> (r: Option<String>)
    ensures
        opt(r) == download_in(raw@),
{
    let line = trim_both(raw);
    if !has_text(line, "download") {
        return None;
    }
    match extract_href(line) {
        Some(url) => {
            let u = to_chars(url.as_str());
            let u = u.as_slice();
            if !ends_with(u, ".zip") && !ends_with(u, ".rar") && !has_text(u, "/download/") {
                return None;
            }
            if begins_with(u, "http") {
                Some(url)
            } else if begins_with(u, "//") {
                Some(cat("https:", url.as_str()))
            } else if begins_with(u, "/") {
                Some(cat("https://yts-subs.com", url.as_str()))
            } else {
                Some(cat("https://yts-subs.com/", url.as_str()))
            }
        },
        None => None,
    }
}

/// The first trusted download that a page links to.
pub fn extract_download_url(html: &str) -> (r: Option<String>)
    ensures
        opt(r) == first_some(lines(html@), download_finder()),
{
    let chars = to_chars(html);
    let rows = lines_of(chars.as_slice());
    let ghost all = slices(rows@);
    assert(all.skip(0) =~= all);
    for i in 0..rows.len()
        invariant
            all == slices(rows@),
            all == lines(html@),
            first_some(all, download_finder()) == first_some(all.skip(i as int), download_finder()),
    {
        proof {
            lemma_first_step(all, download_finder(), i as int);
        }
        if let Some(url) = parse_download(rows[i]) {
            if is_trusted_url(url.as_str()) {
                return Some(url);
            }
        }
    }
    None
}

/// The page that a search is answered from: the movie's own where the query
/// is an IMDb id, else the list of movies.
pub open spec fn search_step(query: Seq<char>) -> StepView<ListingOutcome> {
    let q = trim(query);
    if q.len() == 0 {
        StepView::Answer(listed(seq![]))
    } else if imdb_id(q) {
        StepView::Fetch("https://yts-subs.com/movie-imdb/"@ + q)
    } else {
        StepView::Fetch("https://yts-subs.com/browse?search="@ + encoded(q))
    }
}

/// What a search answers. A page that could not be had counts as an empty one.
pub open spec fn search_outcome(page: Result<String, String>, query: Seq<char>, limit: u32) -> ListingOutcome {
    match page {
        Err(_) => listed(seq![]),
        Ok(html) => if imdb_id(trim(query)) {
            listed(limited(collect_some(lines(html@), subtitle_maker()), limit))
        } else {
            listed(limited(collect_some(lines(html@), movie_maker()), limit))
        },
    }
}

/// What a request to resolve needs first.
#[derive(Debug)]
pub enum ResolveStep {
    Answer(ResolveAnswer),
    /// The page of a movie, on which the subtitles are found.
    FetchMovie(String),
    /// The page of the subtitles.
    FetchSubtitle(String),
}

/// What a `ResolveStep` holds.
pub enum ResolveStepView {
    Answer(ResolveOutcome),
    FetchMovie(Seq<char>),
    FetchSubtitle(Seq<char>),
}

impl View for ResolveStep {
    type V = ResolveStepView;

    open spec fn view(&self) -> ResolveStepView {
        match self {
            ResolveStep::Answer(a) => ResolveStepView::Answer(a@),
            ResolveStep::FetchMovie(u) => ResolveStepView::FetchMovie(u@),
            ResolveStep::FetchSubtitle(u) => ResolveStepView::FetchSubtitle(u@),
        }
    }
}

/// What a request to resolve needs first, given whether the entry is a
/// trusted address: the movie's page for an address, the page of the
/// subtitles for a slug.
pub open spec fn resolve_step(entry_id: Seq<char>, is_trusted: bool) -> ResolveStepView {
    if entry_id.len() == 0 {
        ResolveStepView::Answer(Err(("INVALID_SLUG"@, "empty entry_id"@)))
    } else if begins(entry_id, "http"@) {
        if is_trusted {
            ResolveStepView::FetchMovie(entry_id)
        } else {
            ResolveStepView::Answer(Err(("INVALID_URL"@, "URL must be from yts-subs.com"@)))
        }
    } else if all(entry_id, Class::Slug) {
        ResolveStepView::FetchSubtitle("https://yts-subs.com/subtitles/"@ + entry_id)
    } else {
        ResolveStepView::Answer(Err(("INVALID_SLUG"@, "slug contains invalid characters"@)))
    }
}

/// What follows the page of a movie: the page of its first subtitles.
pub open spec fn movie_outcome(page: Result<String, String>) -> StepView<ResolveOutcome> {
    match page {
        Err(e) => StepView::Answer(Err(("HTTP_ERROR"@, e@))),
        Ok(html) => {
            let found = collect_some(lines(html@), subtitle_maker());
            if found.len() == 0 {
                StepView::Answer(Err(("NO_SUBTITLES"@, "no subtitles found for this title"@)))
            } else {
                StepView::Fetch("https://yts-subs.com/subtitles/"@ + found[0].id)
            }
        },
    }
}

/// What a request to resolve answers: the first trusted download on the page.
pub open spec fn resolve_outcome(page: Result<String, String>) -> ResolveOutcome {
    match page {
        Err(e) => Err(("HTTP_ERROR"@, e@)),
        Ok(html) => match first_some(lines(html@), download_finder()) {
            Some(url) => resolved(url, Some("yify-subs"@)),
            None => Err(("PARSE_ERROR"@, "no download link found"@)),
        },
    }
}

impl YifySubsProvider {
    /// The provider.
    pub fn new() -> (r: Self)
        ensures
            r == YifySubsProvider,
    {
        YifySubsProvider
    }

    /// The provider's name.
    pub fn name(&self) -> (r: &str)
        ensures
            r@ == "yify-subs"@,
    {
        "yify-subs"
    }

    /// The provider's version.
    pub fn version(&self) -> (r: &str)
        ensures
            r@ == "0.1.0"@,
    {
        "0.1.0"
    }

    /// What the provider is for.
    pub fn plugin_type(&self) -> (r: PluginType)
        ensures
            r == PluginType::Subtitle,
    {
        PluginType::Subtitle
    }

    /// Begins a search: the page to fetch, or the empty answer.
    pub fn search(&self, req: &SearchRequest) -> (r: Step<ListingAnswer>)
        ensures
            r@ == search_step(req.query@),
    {
        let query = trim_text(req.query.as_str());
        if query.as_str().is_empty() {
            let items: Vec<Listing> = Vec::new();
            assert(views(items@) =~= seq![]);
            return Step::Answer(list(items));
        }
        if is_imdb_id(query.as_str()) {
            Step::Fetch(cat("https://yts-subs.com/movie-imdb/", query.as_str()))
        } else {
            Step::Fetch(
                cat(
                    "https://yts-subs.com/browse?search=",
                    url_encode(query.as_str()).as_str(),
                ),
            )
        }
    }

    /// Ends a search: the subtitles or the movies on the page, up to the limit.
    pub fn search_reply(&self, page: Result<String, String>, query: &str, limit: u32) -> (r:
        ListingAnswer)
        ensures
            r@ == search_outcome(page, query@, limit),
    {
        match page {
            Ok(html) => if is_imdb_id(trim_text(query).as_str()) {
                list(parse_movie_page(html.as_str(), limit))
            } else {
                list(parse_browse_page(html.as_str(), limit))
            },
            Err(_) => {
                let items: Vec<Listing> = Vec::new();
                assert(views(items@) =~= seq![]);
                list(items)
            },
        }
    }

    /// Begins a request to resolve.
    pub fn resolve(&self, req: &ResolveRequest) -> (r: ResolveStep)
        ensures
            r@ == resolve_step(req.entry_id@, trusted(req.entry_id@)),
    {
        let id = req.entry_id.as_str();
        if id.is_empty() {
            return ResolveStep::Answer(PluginResult::err("INVALID_SLUG", "empty entry_id"));
        }
        let cs = to_chars(id);
        if begins_with(cs.as_slice(), "http") {
            if !is_trusted_url(id) {
                return ResolveStep::Answer(
                    PluginResult::err("INVALID_URL", "URL must be from yts-subs.com"),
                );
            }
            return ResolveStep::FetchMovie(id.to_owned());
        }
        if !all_in(cs.as_slice(), Class::Slug) {
            return ResolveStep::Answer(
                PluginResult::err("INVALID_SLUG", "slug contains invalid characters"),
            );
        }
        ResolveStep::FetchSubtitle(cat("https://yts-subs.com/subtitles/", id))
    }

    /// Goes on with the page of a movie: the page of its first subtitles.
    pub fn movie_page(&self, page: Result<String, String>) -> (r: Step<ResolveAnswer>)
        ensures
            r@ == movie_outcome(page),
    {
        match page {
            Ok(html) => {
                let found = parse_movie_page(html.as_str(), 1);
                let ghost all = collect_some(lines(html@), subtitle_maker());
                if found.len() == 0 {
                    assert(views(found@).len() == 0);
                    return Step::Answer(
                        PluginResult::err("NO_SUBTITLES", "no subtitles found for this title"),
                    );
                }
                assert(views(found@)[0] == found@[0]@);
                assert(views(found@)[0] == all[0]);
                Step::Fetch(cat("https://yts-subs.com/subtitles/", found[0].id.as_str()))
            },
            Err(e) => Step::Answer(PluginResult::err("HTTP_ERROR", e.as_str())),
        }
    }

    /// Ends a request to resolve: the first trusted download on the page.
    pub fn resolve_reply(&self, page: Result<String, String>) -> (r: ResolveAnswer)
        ensures
            r@ == resolve_outcome(page),
    {
        match page {
            Ok(html) => match extract_download_url(html.as_str()) {
                Some(url) => resolve_to(url, Some("yify-subs".to_owned())),
                None => PluginResult::err("PARSE_ERROR", "no download link found"),
            },
            Err(e) => PluginResult::err("HTTP_ERROR", e.as_str()),
        }
    }
}

impl Default for YifySubsProvider {
    fn default() -> (r: Self)
        ensures
            r == YifySubsProvider,
    {
        YifySubsProvider
    }
}

/// What is handed out to be played comes from a trusted address.
pub proof fn resolved_download_is_trusted(page: Result<String, String>)
    ensures
        resolve_outcome(page) matches Ok(v) ==> trusted(v.stream_url),
{
    if let Ok(html) = page {
        let rows = lines(html@);
        if first_some(rows, download_finder()) is Some {
            lemma_first_from(rows, download_finder());
        }
    }
}

/// The slug that a movie's page leads to holds only the characters of a slug.
pub proof fn listed_slugs_are_slugs(html: Seq<char>, k: int)
    requires
        0 <= k < collect_some(lines(html), subtitle_maker()).len(),
    ensures
        all(collect_some(lines(html), subtitle_maker())[k].id, Class::Slug),
{
    lemma_collect_from(lines(html), subtitle_maker(), k);
}

/// An address is trusted where it is a secure one, names no user and no
/// password, and its host is one of the four that are known, in whatever case,
/// with no sign for a user in it.
pub proof fn trusted_addresses_are_told_to_the_letter(url: Seq<char>, p: UrlPartsView)
    requires
        url_parts(url) == Some(p),
    ensures
        trusted(url) <==> p.scheme == "https"@ && p.username.len() == 0 && p.password is None && (
        p.host matches Some(h) && find_char(h, '@') is None && !occurs(h, "%40"@) && (lowercase(h)
            == "yts-subs.com"@ || lowercase(h) == "www.yts-subs.com"@ || lowercase(h)
            == "yifysubtitles.org"@ || lowercase(h) == "www.yifysubtitles.org"@)),
{
}

/// What is no address is not trusted.
pub proof fn only_addresses_are_trusted(url: Seq<char>)
    requires
        url_parts(url) is None,
    ensures
        !trusted(url),
{
}

/// An id is `tt` and the digits behind it.
pub proof fn ids_are_letters_and_digits(s: Seq<char>, n: Seq<char>)
    ensures
        digits(n) ==> imdb_id("tt"@ + n),
        imdb_id(s) ==> begins(s, "tt"@) && digits(s.skip(2)),
        !imdb_id("tt"@),
{
    reveal_strlit("tt");
    let t = "tt"@ + n;
    assert(t.skip(2) =~= n);
    assert(t.subrange(0, 2) =~= "tt"@);
    if imdb_id(s) {
        let d = s.skip(2);
        assert forall|i: int| 0 <= i < d.len() implies digit(#[trigger] d[i]) by {
            assert(member(Class::Digit, d[i]));
        }
    }
}

/// A slug stands behind the directory of the subtitles, up to the quote behind
/// it; what holds another character than a slug does is none.
pub proof fn slugs_stand_behind_the_directory(
    front: Seq<char>,
    slug: Seq<char>,
    rest: Seq<char>,
)
    requires
        find(front + "/subtitles/"@ + (slug + seq!['"'] + rest), "/subtitles/"@) == Some(
            front.len() as int,
        ),
        find_char(slug, '"') is None,
    ensures
        slug_in(front + "/subtitles/"@ + (slug + seq!['"'] + rest)) == if all(slug, Class::Slug) {
            Some(slug)
        } else {
            None
        },
{
    let t = slug + seq!['"'] + rest;
    let s = front + "/subtitles/"@ + t;
    assert(s.skip(front.len() as int + "/subtitles/"@.len()) =~= t);
    lemma_find_char(slug, '"');
    lemma_find_char(t, '"');
    assert(t[slug.len() as int] == '"');
    let p = find_char(t, '"').unwrap();
    if p < slug.len() {
        assert(slug[p] == '"');
    }
    assert(t.take(p) =~= slug);
}

/// The language is the text behind the last mark of a tag, where that is shorter
/// than thirty bytes, not empty, and no word for a download. The first tag that
/// holds one counts.
pub proof fn languages_stand_behind_tags(tag: Seq<char>, text: Seq<char>, line: Seq<char>)
    requires
        find_char(text, '>') is None,
    ensures
        ({
            let lang = trim(text);
            language_behind(tag + seq!['>'] + text) == if encode_utf8(text).len() < 30 && lang.len()
                > 0 && !occurs(lang, "download"@) {
                Some(lang)
            } else {
                None
            }
        }),
        language_behind(text) is None,
        language_finder()(line) == language_behind(line),
        language_in(line) == first_some(split(line, '<'), language_finder()),
{
    let s = tag + seq!['>'] + text;
    lemma_find_char(text, '>');
    rfind_is_last(s, '>');
    rfind_is_last(text, '>');
    assert(s[tag.len() as int] == '>');
    let p = rfind_char(s, '>').unwrap();
    if p > tag.len() {
        assert(text[p - tag.len() - 1] == '>');
    }
    assert(s.skip(p + 1) =~= text);
}

/// The title is the text behind the first mark of a tag, where that is not empty
/// and has no word for a download. The first tag that holds one counts.
pub proof fn titles_stand_behind_tags(tag: Seq<char>, text: Seq<char>, line: Seq<char>)
    requires
        find_char(tag, '>') is None,
    ensures
        title_behind(tag + seq!['>'] + text) == if trim(text).len() > 0 && !occurs(
            text,
            "download"@,
        ) {
            Some(trim(text))
        } else {
            None
        },
        title_behind(tag) is None,
        title_finder()(line) == title_behind(line),
        subtitle_title_in(line) == first_some(split(line, '<'), title_finder()),
{
    let s = tag + seq!['>'] + text;
    lemma_find_char(tag, '>');
    lemma_find_char(s, '>');
    assert(s[tag.len() as int] == '>');
    let p = find_char(s, '>').unwrap();
    if p < tag.len() {
        assert(tag[p] == '>');
    }
    assert(s.skip(p + 1) =~= text);
}

/// The id of a movie is the run of digits in the address of its page.
pub proof fn ids_stand_in_the_address(front: Seq<char>, id: Seq<char>, rest: Seq<char>)
    requires
        find(front + "/movie-imdb/tt"@ + (id + rest), "/movie-imdb/tt"@) == Some(
            front.len() as int,
        ),
        digits(id),
        rest.len() > 0 ==> !digit(rest[0]),
    ensures
        imdb_in(front + "/movie-imdb/tt"@ + (id + rest)) == Some("tt"@ + id),
{
    let t = id + rest;
    let s = front + "/movie-imdb/tt"@ + t;
    assert(s.skip(front.len() as int + "/movie-imdb/tt"@.len()) =~= t);
    assert forall|i: int| 0 <= i < id.len() implies member(Class::Digit, t[i]) by {
        assert(digit(id[i]));
    }
    if rest.len() > 0 {
        assert(t[id.len() as int] == rest[0]);
    }
    lemma_run_is(t, Class::Digit, id.len());
    assert(t.take(id.len() as int) =~= id);
}

/// The title of a movie is the text between the first tag of the line and the
/// next.
pub proof fn movies_go_by_the_text_of_their_link(tag: Seq<char>, text: Seq<char>, rest: Seq<char>)
    requires
        find_char(tag, '>') is None,
        find_char(text, '<') is None,
    ensures
        movie_title_in(tag + seq!['>'] + (text + seq!['<'] + rest)) == if trim(text).len() > 0 {
            Some(trim(text))
        } else {
            None
        },
{
    let t = text + seq!['<'] + rest;
    let s = tag + seq!['>'] + t;
    lemma_find_char(tag, '>');
    lemma_find_char(s, '>');
    assert(s[tag.len() as int] == '>');
    let p = find_char(s, '>').unwrap();
    if p < tag.len() {
        assert(tag[p] == '>');
    }
    assert(s.skip(p + 1) =~= t);
    lemma_find_char(text, '<');
    lemma_find_char(t, '<');
    assert(t[text.len() as int] == '<');
    let q = find_char(t, '<').unwrap();
    if q < text.len() {
        assert(text[q] == '<');
    }
    assert(t.take(q) =~= text);
}

/// A line lists subtitles where it links to their download and names slug and
/// language: under the slug, by the title or else the slug, and with the
/// language.
pub proof fn lines_list_subtitles(raw: Seq<char>)
    ensures
        subtitle_maker()(raw) == subtitle_in(raw),
        ({
            let line = trim(raw);
            &&& subtitle_in(raw) is Some <==> occurs(line, "/subtitles/"@) && occurs(
                line,
                "download"@,
            ) && slug_in(line) is Some && language_in(line) is Some
            &&& subtitle_in(raw) matches Some(e) ==> {
                &&& slug_in(line) == Some(e.id)
                &&& e.description == language_in(line)
                &&& subtitle_title_in(line) matches Some(t) ==> e.title == t
                &&& subtitle_title_in(line) is None ==> e.title == e.id
                &&& e.year is None && e.imdb_id is None && e.poster_url is None
            }
        }),
{
}

/// A line lists a movie where it links to its page: under the address of that
/// page, with the id, and by the title or else the id.
pub proof fn lines_list_movies(raw: Seq<char>)
    ensures
        movie_maker()(raw) == movie_in(raw),
        ({
            let line = trim(raw);
            &&& movie_in(raw) is Some <==> occurs(line, "/movie-imdb/"@) && occurs(line, "<a"@)
                && imdb_in(line) is Some
            &&& movie_in(raw) matches Some(e) ==> {
                &&& e.imdb_id == imdb_in(line)
                &&& e.id == "https://yts-subs.com/movie-imdb/"@ + imdb_in(line)->0
                &&& movie_title_in(line) matches Some(t) ==> e.title == t
                &&& movie_title_in(line) is None ==> Some(e.title) == imdb_in(line)
                &&& e.description is None && e.year is None && e.poster_url is None
            }
        }),
{
}

/// A whole address is kept, one without a scheme becomes secure, and others get
/// the host before them.
pub proof fn addresses_get_the_host(url: Seq<char>)
    ensures
        begins(url, "http"@) ==> absolute(url) == url,
        begins(url, "//"@) ==> absolute(url) == "https:"@ + url,
        begins(url, "/"@) && !begins(url, "//"@) ==> absolute(url) == "https://yts-subs.com"@ + url,
        !begins(url, "http"@) && !begins(url, "/"@) && !begins(url, "//"@) ==> absolute(url)
            == "https://yts-subs.com/"@ + url,
{
    reveal_strlit("http");
    reveal_strlit("//");
    reveal_strlit("/");
    if begins(url, "http"@) {
        assert(url.subrange(0, 4)[0] == 'h');
        assert(url[0] == 'h');
    }
    if begins(url, "//"@) {
        assert(url.subrange(0, 2)[0] == '/');
        assert(url[0] == '/');
    }
    if begins(url, "/"@) {
        assert(url.subrange(0, 1)[0] == '/');
        assert(url[0] == '/');
    }
}

/// A line holds a download where it speaks of one and its link leads to an
/// archive or to the downloads; it is handed out where its address is trusted.
pub proof fn lines_hold_downloads(raw: Seq<char>)
    ensures
        download_finder()(raw) == trusted_download_in(raw),
        ({
            let line = trim(raw);
            let href = quoted_value(line, "href=\""@);
            let url = href->0;
            &&& download_in(raw) is Some <==> occurs(line, "download"@) && href is Some && (ends(
                url,
                ".zip"@,
            ) || ends(url, ".rar"@) || occurs(url, "/download/"@))
            &&& download_in(raw) matches Some(d) ==> d == absolute(url)
            &&& trusted_download_in(raw) is Some <==> (download_in(raw) matches Some(d) && trusted(
                d,
            ))
            &&& trusted_download_in(raw) is Some ==> trusted_download_in(raw) == download_in(raw)
        }),
{
}

/// An id is asked for on the page of its movie, and lists the subtitles there;
/// a text is searched for, and lists the movies that are found. White space
/// alone asks nothing, and a page that cannot be had lists nothing.
pub proof fn ids_list_subtitles_and_texts_list_movies(
    query: Seq<char>,
    html: String,
    limit: u32,
    e: String,
)
    ensures
        ({
            let q = trim(query);
            &&& q.len() == 0 ==> (search_step(query) matches StepView::Answer(Ok(r)) && r.0.len()
                == 0)
            &&& imdb_id(q) ==> (search_step(query) matches StepView::Fetch(u) && u
                == "https://yts-subs.com/movie-imdb/"@ + q)
            &&& q.len() > 0 && !imdb_id(q) ==> (search_step(query) matches StepView::Fetch(u) && u
                == "https://yts-subs.com/browse?search="@ + encoded(q))
            &&& imdb_id(q) ==> (search_outcome(Ok(html), query, limit) matches Ok(r) && r.0
                == limited(collect_some(lines(html@), subtitle_maker()), limit))
            &&& !imdb_id(q) ==> (search_outcome(Ok(html), query, limit) matches Ok(r) && r.0
                == limited(collect_some(lines(html@), movie_maker()), limit))
            &&& search_outcome(Err(e), query, limit) matches Ok(r) && r.0.len() == 0
            &&& picks(
                lines(html@),
                subtitle_maker(),
                collect_some(lines(html@), subtitle_maker()),
            )
            &&& picks(lines(html@), movie_maker(), collect_some(lines(html@), movie_maker()))
        }),
{
    collected_is_picked(lines(html@), subtitle_maker());
    collected_is_picked(lines(html@), movie_maker());
}

/// A trusted address is looked up as the page of a movie and leads to the first
/// subtitles on it; a slug is looked up as subtitles; and anything else is
/// refused.
pub proof fn entries_are_looked_up_by_what_they_are(
    entry_id: Seq<char>,
    is_trusted: bool,
    html: String,
    e: String,
)
    ensures
        ({
            let step = resolve_step(entry_id, is_trusted);
            let address = begins(entry_id, "http"@);
            let found = collect_some(lines(html@), subtitle_maker());
            &&& entry_id.len() == 0 ==> (step matches ResolveStepView::Answer(Err(x)) && x == (
                "INVALID_SLUG"@,
                "empty entry_id"@,
            ))
            &&& address && is_trusted ==> step == ResolveStepView::FetchMovie(entry_id)
            &&& address && !is_trusted ==> (step matches ResolveStepView::Answer(Err(x)) && x == (
                "INVALID_URL"@,
                "URL must be from yts-subs.com"@,
            ))
            &&& entry_id.len() > 0 && !address && all(entry_id, Class::Slug) ==> step
                == ResolveStepView::FetchSubtitle("https://yts-subs.com/subtitles/"@ + entry_id)
            &&& !address && !all(entry_id, Class::Slug) ==> (step matches ResolveStepView::Answer(
                Err(x),
            ) && x == ("INVALID_SLUG"@, "slug contains invalid characters"@))
            &&& found.len() > 0 ==> (movie_outcome(Ok(html)) matches StepView::Fetch(u) && u
                == "https://yts-subs.com/subtitles/"@ + found[0].id)
            &&& found.len() == 0 ==> (movie_outcome(Ok(html)) matches StepView::Answer(Err(x))
                && x == ("NO_SUBTITLES"@, "no subtitles found for this title"@))
            &&& movie_outcome(Err(e)) matches StepView::Answer(Err(x)) && x == ("HTTP_ERROR"@, e@)
        }),
{
    reveal_strlit("http");
}

/// The download of the first line that holds a trusted one is handed out;
/// without one, and without a page, the answer says so.
pub proof fn first_download_is_handed_out(html: String, e: String)
    ensures
        first_some(lines(html@), download_finder()) matches Some(u) ==> (resolve_outcome(
            Ok(html),
        ) matches Ok(r) && r.stream_url == u && r.quality == Some("yify-subs"@)
            && r.subtitles.len() == 0),
        first_some(lines(html@), download_finder()) is None ==> (resolve_outcome(
            Ok(html),
        ) matches Err(x) && x == ("PARSE_ERROR"@, "no download link found"@)),
        resolve_outcome(Err(e)) == ResolveOutcome::Err(("HTTP_ERROR"@, e@)),
{
}

/// What is seen of a step is its answer, or else the page that is fetched and
/// for what.
pub proof fn steps_are_seen_in_full(a: ResolveAnswer, u: String, p: UrlParts)
    ensures
        ResolveStep::Answer(a)@ == ResolveStepView::Answer(a@),
        ResolveStep::FetchMovie(u)@ == ResolveStepView::FetchMovie(u@),
        ResolveStep::FetchSubtitle(u)@ == ResolveStepView::FetchSubtitle(u@),
        p@.scheme == p.scheme@ && p@.username == p.username@ && p@.password == opt(p.password)
            && p@.host == opt(p.host),
{
}

} // verus!
