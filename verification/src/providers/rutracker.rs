//! Finds releases on RuTracker, with the session of a user who is logged in.

use vstd::prelude::*;

use crate::env::{env_or, env_value};
use crate::markup::{after, behind, extract_after, extract_until, text_behind, until};
use crate::providers::common::{release_stream, released, SearchAnswer, StreamsAnswer};
use crate::release::{codec_of, hdr_of, quality_of, source_of};
use crate::sdk::kinds::EntryKind;
use crate::sdk::manifest::PluginManifest;
use crate::sdk::plugin::Plugin;
use crate::sdk::result::{views, PluginResult};
use crate::sdk::types::{
    EntryView, FindStreamsRequest, FindStreamsResponse, SearchRequest, Stream, StreamView,
};
use crate::text::case::uppercase;
use crate::text::cat::{cat, cat3};
use crate::text::chars::{digit, opt, skip_to, take_to, to_chars, to_text};
use crate::text::find::{
    begins, ends, find, find_char, find_one, find_text, has_text, lemma_cut, lemma_ends_of,
    lemma_find_char, lemma_has, occurs,
};
use crate::text::list::{
    collect_some, collected_is_picked, lemma_collect_len, lemma_collect_step, picks,
};
use crate::text::number::{
    decimal, decimal_text, lemma_decimal, lemma_natural_decimal, natural, parse_natural,
};
use crate::text::percent::{encoded, url_encode};
use crate::text::replace::{entity, lemma_entity, replace, replace_all};
use crate::text::table::Table;
use crate::text::trim::{
    trim, trim_both, trim_end, trim_end_char, trim_start, trim_tail_char, trim_text,
};

verus! {

/// The provider.
pub struct RuTrackerProvider {
    pub manifest: PluginManifest,
}

impl Plugin for RuTrackerProvider {
    fn manifest(&self) -> (r: &PluginManifest)
        ensures
            *r == self.manifest,
    {
        &self.manifest
    }
}

/// Where the tracker is, the session, and how many releases are looked at.
#[derive(Debug)]
pub struct Config {
    pub base_url: String,
    pub bb_session: String,
    pub max_results: usize,
}

/// The tracker's address in the host's settings.
pub open spec fn base_url(cache: Map<Seq<char>, String>) -> Seq<char> {
    env_value(cache, "RUTRACKER_BASE_URL"@, "https://rutracker.org"@)
}

/// The session in the host's settings.
pub open spec fn session(cache: Map<Seq<char>, String>) -> Seq<char> {
    env_value(cache, "RUTRACKER_BB_SESSION"@, ""@)
}

/// How many releases are looked at: as the host's settings say, or else
/// eight; at least one and at most fifty.
pub open spec fn max_results(cache: Map<Seq<char>, String>) -> nat {
    match natural(env_value(cache, "RUTRACKER_MAX_RESULTS"@, "8"@), usize::MAX as nat) {
        Some(n) => if n < 1 {
            1
        } else if n > 50 {
            50
        } else {
            n
        },
        None => 8,
    }
}

/// Why there is no configuration.
pub open spec fn no_session() -> Seq<char> {
    "RUTRACKER_BB_SESSION is empty — paste the bb_session cookie value from a logged-in browser into the plugin config"@
}

impl Config {
    /// Reads the settings. The session has to be there.
    pub fn load(cache: &Table<String>) -> (r: Result<Config, String>)
        ensures
            match r {
                Ok(c) => session(cache@).len() > 0 && c.base_url@ == base_url(cache@)
                    && c.bb_session@ == session(cache@) && c.max_results == max_results(cache@),
                Err(e) => session(cache@).len() == 0 && e@ == no_session(),
            },
    {
        let base_url = env_or(cache, "RUTRACKER_BASE_URL", "https://rutracker.org");
        let bb_session = env_or(cache, "RUTRACKER_BB_SESSION", "");
        let max_str = env_or(cache, "RUTRACKER_MAX_RESULTS", "8");
        if bb_session.as_str().is_empty() {
            return Err(
                "RUTRACKER_BB_SESSION is empty — paste the bb_session cookie value from a logged-in browser into the plugin config".to_owned(),
            );
        }
        let max_chars = to_chars(max_str.as_str());
        let max_results: usize = match parse_natural(max_chars.as_slice(), usize::MAX as u64) {
            Some(n) => if n < 1 {
                1
            } else if n > 50 {
                50
            } else {
                n as usize
            },
            None => 8,
        };
        Ok(Config { base_url, bb_session, max_results })
    }
}

/// What is searched for: the title, and the year of a movie. Nothing where
/// there is no title.
pub open spec fn query_of(req: FindStreamsRequest) -> Seq<char> {
    let title = trim(req.title@);
    if title.len() > 0 && req.kind == EntryKind::Movie && req.year is Some {
        title + " "@ + decimal(req.year->0 as nat)
    } else {
        title
    }
}

/// What is searched for.
pub fn build_query(req: &FindStreamsRequest) -> (r: String)
    ensures
        r@ == query_of(*req),
{
    let title = trim_text(req.title.as_str());
    if title.as_str().is_empty() {
        return title;
    }
    match (req.kind, req.year) {
        (EntryKind::Movie, Some(y)) => cat3(title.as_str(), " ", decimal_text(y as u64).as_str()),
        _ => title,
    }
}

/// One row of the tracker's list of results.
#[derive(Debug, Clone)]
pub struct SearchRow {
    pub topic_id: String,
    pub title: String,
    pub seeders: Option<u32>,
    pub size_bytes: Option<u64>,
}

/// What a row holds.
#[verifier::ext_equal]
pub struct RowView {
    pub topic_id: Seq<char>,
    pub title: Seq<char>,
    pub seeders: Option<u32>,
    pub size_bytes: Option<u64>,
}

impl View for SearchRow {
    type V = RowView;

    open spec fn view(&self) -> RowView {
        RowView {
            topic_id: self.topic_id@,
            title: self.title@,
            seeders: self.seeders,
            size_bytes: self.size_bytes,
        }
    }
}

/// `s` with the entities decoded that the tracker uses, and trimmed.
pub open spec fn html_decoded(s: Seq<char>) -> Seq<char> {
    let s = replace(s, "&amp;"@, "&"@);
    let s = replace(s, "&lt;"@, "<"@);
    let s = replace(s, "&gt;"@, ">"@);
    let s = replace(s, "&quot;"@, "\""@);
    let s = replace(s, "&#039;"@, "'"@);
    let s = replace(s, "&nbsp;"@, " "@);
    let s = replace(s, "&laquo;"@, "«"@);
    let s = replace(s, "&raquo;"@, "»"@);
    let s = replace(s, "&mdash;"@, "—"@);
    let s = replace(s, "&ndash;"@, "–"@);
    trim(s)
}

/// Decodes the entities that the tracker uses, and trims the text.
pub fn html_decode(s: &[char]) -> (r: String)
    ensures
        r@ == html_decoded(s@),
{
    proof {
        reveal_strlit("&amp;");
        reveal_strlit("&lt;");
        reveal_strlit("&gt;");
        reveal_strlit("&quot;");
        reveal_strlit("&#039;");
        reveal_strlit("&nbsp;");
        reveal_strlit("&laquo;");
        reveal_strlit("&raquo;");
        reveal_strlit("&mdash;");
        reveal_strlit("&ndash;");
    }
    let s = replace_all(s, "&amp;", "&");
    let s = replace_all(s.as_slice(), "&lt;", "<");
    let s = replace_all(s.as_slice(), "&gt;", ">");
    let s = replace_all(s.as_slice(), "&quot;", "\"");
    let s = replace_all(s.as_slice(), "&#039;", "'");
    let s = replace_all(s.as_slice(), "&nbsp;", " ");
    let s = replace_all(s.as_slice(), "&laquo;", "«");
    let s = replace_all(s.as_slice(), "&raquo;", "»");
    let s = replace_all(s.as_slice(), "&mdash;", "—");
    let s = replace_all(s.as_slice(), "&ndash;", "–");
    to_text(trim_both(s.as_slice()))
}

/// The title in a row: the text of its link.
pub open spec fn row_title(row: Seq<char>) -> Seq<char> {
    match after(row, "tLink"@, '>') {
        Some(t) => match until(t, "</a>"@) {
            Some(u) => html_decoded(u),
            None => seq![],
        },
        None => seq![],
    }
}

/// The seeders in a row: the bold text in their cell.
pub open spec fn row_seeders(row: Seq<char>) -> Option<u32> {
    match after(row, "seedmed"@, '>') {
        Some(t) => match behind(t, "<b>"@) {
            Some(u) => match until(u, "</b>"@) {
                Some(w) => match natural(trim(w), u32::MAX as nat) {
                    Some(n) => Some(n as u32),
                    None => None,
                },
                None => None,
            },
            None => None,
        },
        None => None,
    }
}

/// The size in a row: the number in the attribute of its cell.
pub open spec fn row_size(row: Seq<char>) -> Option<u64> {
    match behind(row, "data-ts_text=\""@) {
        Some(t) => match until(t, "\""@) {
            Some(u) => match natural(u, u64::MAX as nat) {
                Some(n) => Some(n as u64),
                None => None,
            },
            None => None,
        },
        None => None,
    }
}

/// The row with the given id and inner text, where it has an id and a title.
pub open spec fn row_of(id: Seq<char>, row: Seq<char>) -> Seq<RowView> {
    if row_title(row).len() > 0 && id.len() > 0 {
        seq![
            RowView {
                topic_id: id,
                title: row_title(row),
                seeders: row_seeders(row),
                size_bytes: row_size(row),
            },
        ]
    } else {
        seq![]
    }
}

/// The rows of a page of results. Each reaches from its opening tag, which
/// holds the id of its topic, to the closing one.
pub open spec fn rows_of(html: Seq<char>) -> Seq<RowView>
    decreases html.len(),
    via rows_shrink
{
    match behind(html, "<tr id=\"trs-tr-"@) {
        Some(a) => match find_char(a, '"') {
            Some(p) => match find(a.skip(p), "</tr>"@) {
                Some(q) => row_of(a.take(p), a.skip(p).take(q)) + rows_of(a.skip(p + q + 5)),
                None => seq![],
            },
            None => seq![],
        },
        None => seq![],
    }
}

#[via_fn]
proof fn rows_shrink(html: Seq<char>) {
    reveal_strlit("<tr id=\"trs-tr-");
    reveal_strlit("</tr>");
    lemma_has(html, "<tr id=\"trs-tr-"@);
    if let Some(a) = behind(html, "<tr id=\"trs-tr-"@) {
        lemma_find_char(a, '"');
        if let Some(p) = find_char(a, '"') {
            lemma_has(a.skip(p), "</tr>"@);
        }
    }
}

/// The row with the given id and inner text.
fn parse_row(id: &[char], row: &[char]) -> (r: Option<SearchRow>)
    ensures
        match r {
            Some(s) => row_of(id@, row@) == seq![s@],
            None => row_of(id@, row@) == Seq::<RowView>::empty(),
        },
{
    let title = match extract_after(row, "tLink", '>') {
        Some(t) => match extract_until(t, "</a>") {
            Some(u) => html_decode(u),
            None => String::new(),
        },
        None => String::new(),
    };
    let seeders = match extract_after(row, "seedmed", '>') {
        Some(t) => match text_behind(t, "<b>") {
            Some(u) => match extract_until(u, "</b>") {
                Some(w) => match parse_natural(trim_both(w), 0xffff_ffff) {
                    Some(n) => Some(n as u32),
                    None => None,
                },
                None => None,
            },
            None => None,
        },
        None => None,
    };
    let size_bytes = match text_behind(row, "data-ts_text=\"") {
        Some(t) => match extract_until(t, "\"") {
            Some(u) => parse_natural(u, u64::MAX),
            None => None,
        },
        None => None,
    };
    if title.as_str().is_empty() || id.len() == 0 {
        return None;
    }
    Some(SearchRow { topic_id: to_text(id), title, seeders, size_bytes })
}

/// The rows of a page of results.
pub fn parse_search_html(html: &str) -> (r: Vec<SearchRow>)
    ensures
        views(r@) == rows_of(html@),
{
    proof {
        reveal_strlit("<tr id=\"trs-tr-");
        reveal_strlit("</tr>");
    }
    let chars = to_chars(html);
    let mut rest: &[char] = chars.as_slice();
    let mut rows: Vec<SearchRow> = Vec::new();
    assert(views(rows@) + rows_of(rest@) =~= rows_of(html@));
    loop
        invariant
            views(rows@) + rows_of(rest@) == rows_of(html@),
            "</tr>"@.len() == 5,
            "<tr id=\"trs-tr-"@.len() > 0,
        decreases rest@.len(),
    {
        let a = match text_behind(rest, "<tr id=\"trs-tr-") {
            Some(a) => a,
            None => {
                assert(views(rows@) + rows_of(rest@) =~= views(rows@));
                return rows;
            },
        };
        proof {
            lemma_has(rest@, "<tr id=\"trs-tr-"@);
        }
        let p: usize = match find_one(a, '"') {
            Some(p) => p,
            None => {
                assert(views(rows@) + rows_of(rest@) =~= views(rows@));
                return rows;
            },
        };
        let b = skip_to(a, p);
        let q: usize = match find_text(b, "</tr>") {
            Some(q) => q,
            None => {
                assert(views(rows@) + rows_of(rest@) =~= views(rows@));
                return rows;
            },
        };
        let ghost before = views(rows@);
        let ghost found = row_of(a@.take(p as int), b@.take(q as int));
        if let Some(row) = parse_row(take_to(a, p), take_to(b, q)) {
            rows.push(row);
            assert(views(rows@) =~= before + found);
        } else {
            assert(views(rows@) =~= before + found);
        }
        let len: usize = b.len();
        let tail = skip_to(b, q + 5);
        proof {
            assert(tail@ =~= a@.skip(p + q + 5));
            assert((before + found) + rows_of(tail@) =~= before + (found + rows_of(tail@)));
        }
        rest = tail;
    }
}

/// The magnet link on the page of a topic.
pub open spec fn magnet_in(html: Seq<char>) -> Option<Seq<char>> {
    match find(html, "href=\"magnet:"@) {
        Some(i) => match find_char(html.skip(i + 6), '"') {
            Some(j) => Some(html.skip(i + 6).take(j)),
            None => None,
        },
        None => None,
    }
}

/// The magnet link on the page of a topic.
pub fn extract_magnet(html: &str) -> (r: Option<String>)
    ensures
        opt(r) == magnet_in(html@),
{
    proof {
        reveal_strlit("href=\"magnet:");
    }
    let chars = to_chars(html);
    match find_text(chars.as_slice(), "href=\"magnet:") {
        Some(i) => {
            let end: usize = chars.len();
            let tail = skip_to(chars.as_slice(), i + 6);
            match find_one(tail, '"') {
                Some(j) => Some(to_text(take_to(tail, j))),
                None => None,
            }
        },
        None => None,
    }
}

/// The page is one to log in on: it has the form for it, or speaks of it and
/// has no results.
pub open spec fn asks_to_log_in(html: Seq<char>) -> bool {
    occurs(html, "name=\"login_username\""@) || (occurs(html, "login.php"@) && !occurs(
        html,
        "class=\"hl-tr\""@,
    ))
}

/// The first half of a request for streams: it answers at once, or a page is
/// fetched with a cookie.
#[derive(Debug)]
pub enum SearchStep {
    Answer(StreamsAnswer),
    Fetch { url: String, cookie: String },
}

/// What comes of the page of results: the answer, or the topics whose pages
/// are fetched next.
#[derive(Debug)]
pub enum TopicStep {
    Answer(StreamsAnswer),
    Topics(Vec<SearchRow>),
}

/// The address of the page of results.
pub open spec fn search_url(cache: Map<Seq<char>, String>, query: Seq<char>) -> Seq<char> {
    trim_end_char(base_url(cache), '/') + "/forum/tracker.php?nm="@ + encoded(query)
}

/// The stream that a topic is, given its page: the magnet link on it with
/// what the row tells. None where the page could not be had or holds no link.
pub open spec fn stream_of(topic: (SearchRow, Option<String>)) -> Option<StreamView> {
    match topic.1 {
        Some(html) => match magnet_in(html@) {
            Some(m) => Some(
                released(
                    m,
                    topic.0.title@,
                    "RuTracker"@,
                    topic.0.seeders,
                    topic.0.size_bytes,
                ),
            ),
            None => None,
        },
        None => None,
    }
}

/// `stream_of` as a function.
pub open spec fn stream_maker() -> spec_fn((SearchRow, Option<String>)) -> Option<StreamView> {
    |topic: (SearchRow, Option<String>)| stream_of(topic)
}

impl RuTrackerProvider {
    /// The provider with its manifest.
    pub fn new(manifest: PluginManifest) -> (r: Self)
        ensures
            r.manifest == manifest,
    {
        RuTrackerProvider { manifest }
    }

    /// Searches are not offered.
    pub fn search(&self, _req: &SearchRequest) -> (r: SearchAnswer)
        ensures
            r@ == Err::<(Seq<EntryView>, u32), (Seq<char>, Seq<char>)>(
                (
                    "UNSUPPORTED"@,
                    "rutracker is wired for streams only — auth-required text search is heavy"@,
                ),
            ),
    {
        PluginResult::err(
            "UNSUPPORTED",
            "rutracker is wired for streams only — auth-required text search is heavy",
        )
    }

    /// Begins a request for streams: the page of results to fetch with the
    /// session as a cookie, or the answer where there is no session or no title.
    pub fn find_streams(&self, cache: &Table<String>, req: &FindStreamsRequest) -> (r: SearchStep)
        ensures
            match r {
                SearchStep::Answer(a) => (session(cache@).len() == 0 && a@ == Err::<
                    Seq<StreamView>,
                    (Seq<char>, Seq<char>),
                >(("CONFIG_ERROR"@, no_session()))) || (session(cache@).len() > 0 && query_of(
                    *req,
                ).len() == 0 && a@ == Ok::<Seq<StreamView>, (Seq<char>, Seq<char>)>(seq![])),
                SearchStep::Fetch { url, cookie } => session(cache@).len() > 0 && query_of(
                    *req,
                ).len() > 0 && url@ == search_url(cache@, query_of(*req)) && cookie@
                    == "bb_session="@ + session(cache@),
            },
    {
        let cfg = match Config::load(cache) {
            Ok(c) => c,
            Err(e) => {
                return SearchStep::Answer(PluginResult::err("CONFIG_ERROR", e.as_str()));
            },
        };
        let query = build_query(req);
        if query.as_str().is_empty() {
            let streams: Vec<Stream> = Vec::new();
            assert(views(streams@) =~= seq![]);
            return SearchStep::Answer(PluginResult::ok(FindStreamsResponse { streams }));
        }
        let base = to_chars(cfg.base_url.as_str());
        SearchStep::Fetch {
            url: cat3(
                to_text(trim_tail_char(base.as_slice(), '/')).as_str(),
                "/forum/tracker.php?nm=",
                url_encode(query.as_str()).as_str(),
            ),
            cookie: cat("bb_session=", cfg.bb_session.as_str()),
        }
    }

    /// Goes on with the page of results: the topics to fetch, as many as the
    /// settings allow, or the error where the page could not be had or asks to
    /// log in.
    pub fn search_page(&self, cfg: &Config, page: Result<String, String>) -> (r: TopicStep)
        ensures
            match r {
                TopicStep::Answer(a) => match page {
                    Err(e) => a@ == Err::<Seq<StreamView>, (Seq<char>, Seq<char>)>(
                        ("HTTP_ERROR"@, e@),
                    ),
                    Ok(html) => asks_to_log_in(html@) && a@ == Err::<
                        Seq<StreamView>,
                        (Seq<char>, Seq<char>),
                    >(
                        (
                            "AUTH_ERROR"@,
                            "rutracker session expired — re-paste the bb_session cookie from a logged-in browser"@,
                        ),
                    ),
                },
                TopicStep::Topics(rows) => page matches Ok(html) && !asks_to_log_in(html@)
                    && views(rows@) == rows_of(html@).take(
                    if rows_of(html@).len() < cfg.max_results {
                        rows_of(html@).len() as int
                    } else {
                        cfg.max_results as int
                    },
                ),
            },
    {
        let html = match page {
            Ok(b) => b,
            Err(e) => {
                return TopicStep::Answer(PluginResult::err("HTTP_ERROR", e.as_str()));
            },
        };
        let chars = to_chars(html.as_str());
        let cs = chars.as_slice();
        if has_text(cs, "name=\"login_username\"") || (has_text(cs, "login.php") && !has_text(
            cs,
            "class=\"hl-tr\"",
        )) {
            return TopicStep::Answer(
                PluginResult::err(
                    "AUTH_ERROR",
                    "rutracker session expired — re-paste the bb_session cookie from a logged-in browser",
                ),
            );
        }
        let mut rows = parse_search_html(html.as_str());
        let ghost all = views(rows@);
        if rows.len() > cfg.max_results {
            rows.truncate(cfg.max_results);
        }
        proof {
            let n = if all.len() < cfg.max_results {
                all.len() as int
            } else {
                cfg.max_results as int
            };
            assert(views(rows@) =~= all.take(n));
        }
        TopicStep::Topics(rows)
    }

    /// The address of a topic's page.
    pub fn topic_url(cfg: &Config, row: &SearchRow) -> (r: String)
        ensures
            r@ == trim_end_char(cfg.base_url@, '/') + "/forum/viewtopic.php?t="@ + row.topic_id@,
    {
        let base = to_chars(cfg.base_url.as_str());
        cat3(
            to_text(trim_tail_char(base.as_slice(), '/')).as_str(),
            "/forum/viewtopic.php?t=",
            row.topic_id.as_str(),
        )
    }

    /// Ends a request for streams: the topics, each with its page, that hold
    /// a magnet link. A page that could not be had is passed over.
    pub fn topic_pages(&self, topics: Vec<(SearchRow, Option<String>)>) -> (r: StreamsAnswer)
        ensures
            r@ == Ok::<Seq<StreamView>, (Seq<char>, Seq<char>)>(
                collect_some(topics@, stream_maker()),
            ),
    {
        let ghost all = topics@;
        let mut streams: Vec<Stream> = Vec::new();
        for topic in it: topics
            invariant
                it.seq() == all,
                views(streams@) == collect_some(all.take(it.index() as int), stream_maker()),
        {
            proof {
                lemma_collect_step(all, stream_maker(), it.index() as int);
            }
            let ghost before = views(streams@);
            let (row, page) = topic;
            if let Some(html) = page {
                if let Some(m) = extract_magnet(html.as_str()) {
                    let s = release_stream(
                        m,
                        row.title.as_str(),
                        "RuTracker".to_owned(),
                        row.seeders,
                        row.size_bytes,
                    );
                    streams.push(s);
                    assert(views(streams@) =~= before.push(s@));
                }
            }
        }
        assert(all.take(all.len() as int) =~= all);
        PluginResult::ok(FindStreamsResponse { streams })
    }
}

/// No more streams are found than topics were looked at.
pub proof fn streams_within_topics(topics: Seq<(SearchRow, Option<String>)>)
    ensures
        collect_some(topics, stream_maker()).len() <= topics.len(),
{
    lemma_collect_len(topics, stream_maker());
}

/// At least one and at most fifty releases are looked at.
pub proof fn results_are_limited(cache: Map<Seq<char>, String>)
    ensures
        1 <= max_results(cache) <= 50,
{
}

/// Every row has the id of its topic and a title.
pub proof fn rows_have_id_and_title(html: Seq<char>, k: int)
    requires
        0 <= k < rows_of(html).len(),
    ensures
        rows_of(html)[k].topic_id.len() > 0,
        rows_of(html)[k].title.len() > 0,
    decreases html.len(),
{
    let a = behind(html, "<tr id=\"trs-tr-"@).unwrap();
    let p = find_char(a, '"').unwrap();
    let q = find(a.skip(p), "</tr>"@).unwrap();
    let first = row_of(a.take(p), a.skip(p).take(q));
    if k >= first.len() {
        reveal_strlit("<tr id=\"trs-tr-");
        lemma_has(html, "<tr id=\"trs-tr-"@);
        reveal_strlit("</tr>");
        lemma_find_char(a, '"');
        lemma_has(a.skip(p), "</tr>"@);
        rows_have_id_and_title(a.skip(p + q + 5), k - first.len());
    }
}

/// A topic whose page holds a magnet link is handed out with that link, under
/// its title and with exactly the seeders and the size of its row. One whose
/// page could not be had, or holds no link, is not handed out.
pub proof fn streams_tell_what_the_row_tells(row: SearchRow, page: Option<String>)
    ensures
        stream_maker()((row, page)) == stream_of((row, page)),
        stream_of((row, page)) is Some <==> (page matches Some(html) && magnet_in(html@) is Some),
        stream_of((row, page)) matches Some(s) ==> {
            &&& magnet_in(page->0@) == Some(s.url)
            &&& s.title == row.title@
            &&& s.provider == "RuTracker"@
            &&& s.seeders == row.seeders
            &&& s.size_bytes == row.size_bytes
            &&& s.quality == quality_of(uppercase(row.title@))
            &&& s.codec == codec_of(uppercase(row.title@))
            &&& s.source == source_of(uppercase(row.title@))
            &&& s.hdr == hdr_of(uppercase(row.title@))
        },
{
}

/// Every topic that can be handed out is, in the order in which they came.
pub proof fn no_topic_is_lost(topics: Seq<(SearchRow, Option<String>)>)
    ensures
        picks(topics, stream_maker(), collect_some(topics, stream_maker())),
{
    collected_is_picked(topics, stream_maker());
}

/// The year narrows the search for a movie and no other; without a title
/// nothing is searched for.
pub proof fn only_movies_are_searched_with_the_year(req: FindStreamsRequest)
    ensures
        trim(req.title@).len() == 0 ==> query_of(req).len() == 0,
        req.kind != EntryKind::Movie || req.year is None ==> query_of(req) == trim(req.title@),
        trim(req.title@).len() > 0 && req.kind == EntryKind::Movie ==> (req.year matches Some(y)
            ==> query_of(req) == trim(req.title@) + " "@ + decimal(y as nat)),
{
}

/// The number of releases is the one that is set, but at least one and at
/// most fifty; it is eight where none, or none that can be read, is set.
pub proof fn set_number_of_releases_counts(
    cache: Map<Seq<char>, String>,
    value: String,
    n: nat,
)
    requires
        n <= usize::MAX,
    ensures
        value@ == decimal(n) ==> max_results(
            cache.insert("__env:"@ + "RUTRACKER_MAX_RESULTS"@, value),
        ) == if n == 0 {
            1
        } else if n >= 50 {
            50
        } else {
            n
        },
        natural(value@, usize::MAX as nat) is None ==> max_results(
            cache.insert("__env:"@ + "RUTRACKER_MAX_RESULTS"@, value),
        ) == 8,
        !cache.contains_key("__env:"@ + "RUTRACKER_MAX_RESULTS"@) ==> max_results(cache) == 8,
{
    lemma_natural_decimal(n, usize::MAX as nat);
    reveal_strlit("8");
    lemma_natural_decimal(8, usize::MAX as nat);
    assert(decimal(8) =~= "8"@);
}

/// Tracker and session are those that are set.
pub proof fn settings_are_used(cache: Map<Seq<char>, String>, value: String)
    ensures
        base_url(cache.insert("__env:"@ + "RUTRACKER_BASE_URL"@, value)) == value@,
        session(cache.insert("__env:"@ + "RUTRACKER_BB_SESSION"@, value)) == value@,
        !cache.contains_key("__env:"@ + "RUTRACKER_BASE_URL"@) ==> base_url(cache)
            == "https://rutracker.org"@,
        !cache.contains_key("__env:"@ + "RUTRACKER_BB_SESSION"@) ==> session(cache).len() == 0,
{
    reveal_strlit("");
}

/// The page of results is asked for on the tracker, with the query encoded.
pub proof fn results_are_asked_for_on_the_tracker(cache: Map<Seq<char>, String>, query: Seq<char>)
    ensures
        begins(search_url(cache, query), trim_end_char(base_url(cache), '/')),
        ends(search_url(cache, query), "/forum/tracker.php?nm="@ + encoded(query)),
{
    let base = trim_end_char(base_url(cache), '/');
    let rest = "/forum/tracker.php?nm="@ + encoded(query);
    assert(search_url(cache, query) =~= base + rest);
    lemma_ends_of(base, rest);
}

/// A page with the form to log in asks to log in, whatever else it holds; one
/// that speaks of a login does where it has no results; no other does.
pub proof fn login_pages_are_told_apart(html: Seq<char>)
    ensures
        occurs(html, "name=\"login_username\""@) ==> asks_to_log_in(html),
        !occurs(html, "login.php"@) && !occurs(html, "name=\"login_username\""@)
            ==> !asks_to_log_in(html),
        occurs(html, "login.php"@) && !occurs(html, "class=\"hl-tr\""@) ==> asks_to_log_in(html),
        occurs(html, "class=\"hl-tr\""@) && !occurs(html, "name=\"login_username\""@)
            ==> !asks_to_log_in(html),
{
}

/// Between texts without `&`, each of the known names becomes its character,
/// and every other name stays; the white space around the whole is cut. An
/// ampersand is decoded likewise where nothing behind it can make a name of it.
pub proof fn named_characters_are_decoded(a: Seq<char>, x: Seq<char>, b: Seq<char>)
    requires
        find_char(a, '&') is None,
        find_char(b, '&') is None,
        entity(x),
    ensures
        x == "&amp;"@ && find_char(b, ';') is None ==> html_decoded(a + x + b) == trim(a + "&"@ + b),
        x == "&lt;"@ ==> html_decoded(a + x + b) == trim(a + "<"@ + b),
        x == "&gt;"@ ==> html_decoded(a + x + b) == trim(a + ">"@ + b),
        x == "&quot;"@ ==> html_decoded(a + x + b) == trim(a + "\""@ + b),
        x == "&#039;"@ ==> html_decoded(a + x + b) == trim(a + "'"@ + b),
        x == "&nbsp;"@ ==> html_decoded(a + x + b) == trim(a + " "@ + b),
        x == "&laquo;"@ ==> html_decoded(a + x + b) == trim(a + "«"@ + b),
        x == "&raquo;"@ ==> html_decoded(a + x + b) == trim(a + "»"@ + b),
        x == "&mdash;"@ ==> html_decoded(a + x + b) == trim(a + "—"@ + b),
        x == "&ndash;"@ ==> html_decoded(a + x + b) == trim(a + "–"@ + b),
        x != "&amp;"@ && x != "&lt;"@ && x != "&gt;"@ && x != "&quot;"@ && x != "&#039;"@ && x != "&nbsp;"@ && x != "&laquo;"@ && x != "&raquo;"@ && x != "&mdash;"@ && x != "&ndash;"@ ==> html_decoded(a + x + b) == trim(a + x + b),
{
    reveal_strlit("&amp;");
    reveal_strlit("&");
    reveal_strlit("&lt;");
    reveal_strlit("<");
    reveal_strlit("&gt;");
    reveal_strlit(">");
    reveal_strlit("&quot;");
    reveal_strlit("\"");
    reveal_strlit("&#039;");
    reveal_strlit("'");
    reveal_strlit("&nbsp;");
    reveal_strlit(" ");
    reveal_strlit("&laquo;");
    reveal_strlit("«");
    reveal_strlit("&raquo;");
    reveal_strlit("»");
    reveal_strlit("&mdash;");
    reveal_strlit("—");
    reveal_strlit("&ndash;");
    reveal_strlit("–");
    assert(entity("&amp;"@));
    assert(entity("&lt;"@));
    assert(entity("&gt;"@));
    assert(entity("&quot;"@));
    assert(entity("&#039;"@));
    assert(entity("&nbsp;"@));
    assert(entity("&laquo;"@));
    assert(entity("&raquo;"@));
    assert(entity("&mdash;"@));
    assert(entity("&ndash;"@));
    assert("&gt;"@[1] == 'g');
    assert("&lt;"@[1] == 'l');
    assert("&#039;"@[1] == '#');
    assert("&nbsp;"@[1] == 'n');
    assert("&quot;"@[1] == 'q');
    assert("&laquo;"@[1] == 'l');
    assert("&mdash;"@[1] == 'm');
    assert("&ndash;"@[1] == 'n');
    assert("&raquo;"@[1] == 'r');
    lemma_find_char("<"@, '&');
    lemma_find_char(">"@, '&');
    lemma_find_char("\""@, '&');
    lemma_find_char("'"@, '&');
    lemma_find_char(" "@, '&');
    lemma_find_char("«"@, '&');
    lemma_find_char("»"@, '&');
    lemma_find_char("—"@, '&');
    lemma_find_char("–"@, '&');
    if x != "&amp;"@ || find_char(b, ';') is None {
        let m0 = x;
        lemma_entity(a, m0, b, "&amp;"@, "&"@);
        let m1 = if m0 == "&amp;"@ {
            "&"@
        } else {
            m0
        };
        assert("&"@ =~= seq!['&']);
        lemma_entity(a, m1, b, "&lt;"@, "<"@);
        let m2 = if m1 == "&lt;"@ {
            "<"@
        } else {
            m1
        };
        lemma_entity(a, m2, b, "&gt;"@, ">"@);
        let m3 = if m2 == "&gt;"@ {
            ">"@
        } else {
            m2
        };
        lemma_entity(a, m3, b, "&quot;"@, "\""@);
        let m4 = if m3 == "&quot;"@ {
            "\""@
        } else {
            m3
        };
        lemma_entity(a, m4, b, "&#039;"@, "'"@);
        let m5 = if m4 == "&#039;"@ {
            "'"@
        } else {
            m4
        };
        lemma_entity(a, m5, b, "&nbsp;"@, " "@);
        let m6 = if m5 == "&nbsp;"@ {
            " "@
        } else {
            m5
        };
        lemma_entity(a, m6, b, "&laquo;"@, "«"@);
        let m7 = if m6 == "&laquo;"@ {
            "«"@
        } else {
            m6
        };
        lemma_entity(a, m7, b, "&raquo;"@, "»"@);
        let m8 = if m7 == "&raquo;"@ {
            "»"@
        } else {
            m7
        };
        lemma_entity(a, m8, b, "&mdash;"@, "—"@);
        let m9 = if m8 == "&mdash;"@ {
            "—"@
        } else {
            m8
        };
        lemma_entity(a, m9, b, "&ndash;"@, "–"@);
        let m10 = if m9 == "&ndash;"@ {
            "–"@
        } else {
            m9
        };
    }
}

/// The title of a row is the text of its link, up to the end of that.
pub proof fn titles_stand_in_their_link(
    front: Seq<char>,
    attrs: Seq<char>,
    text: Seq<char>,
    rest: Seq<char>,
)
    requires
        find(front + "tLink"@ + (attrs + seq!['>'] + (text + "</a>"@ + rest)), "tLink"@) == Some(
            front.len() as int,
        ),
        find_char(attrs, '>') is None,
        find(text + "</a>"@ + rest, "</a>"@) == Some(text.len() as int),
    ensures
        row_title(front + "tLink"@ + (attrs + seq!['>'] + (text + "</a>"@ + rest)))
            == html_decoded(text),
{
    let u = text + "</a>"@ + rest;
    let t = attrs + seq!['>'] + u;
    lemma_behind_at(front, "tLink"@, t);
    lemma_cut(attrs, '>', u);
    lemma_behind_at(text, "</a>"@, rest);
}

/// The seeders of a row are the number in bold in their cell: the cell `t`
/// stands behind its class, its text `u` behind the tag, and the number in it
/// between the marks for bold.
pub proof fn seeders_stand_in_their_cell(
    row: Seq<char>,
    front: Seq<char>,
    t: Seq<char>,
    attrs: Seq<char>,
    u: Seq<char>,
    before: Seq<char>,
    v: Seq<char>,
    n: nat,
    rest: Seq<char>,
)
    requires
        n <= u32::MAX,
        row == front + "seedmed"@ + t && find(row, "seedmed"@) == Some(front.len() as int),
        t == attrs + seq!['>'] + u && find_char(attrs, '>') is None,
        u == before + "<b>"@ + v && find(u, "<b>"@) == Some(before.len() as int),
        v == decimal(n) + "</b>"@ + rest && find(v, "</b>"@) == Some(decimal(n).len() as int),
    ensures
        row_seeders(row) == Some(n as u32),
{
    assert(after(row, "seedmed"@, '>') == Some(u)) by {
        lemma_behind_at(front, "seedmed"@, t);
        lemma_cut(attrs, '>', u);
    }
    assert(behind(u, "<b>"@) == Some(v)) by {
        lemma_behind_at(before, "<b>"@, v);
    }
    assert(until(v, "</b>"@) == Some(decimal(n))) by {
        lemma_behind_at(decimal(n), "</b>"@, rest);
    }
    lemma_number_is_trimmed(n);
    lemma_natural_decimal(n, u32::MAX as nat);
}

/// The size of a row is the number in the attribute of its cell.
pub proof fn sizes_stand_in_their_attribute(front: Seq<char>, n: nat, rest: Seq<char>)
    requires
        n <= u64::MAX,
        find(front + "data-ts_text=\""@ + (decimal(n) + "\""@ + rest), "data-ts_text=\""@) == Some(
            front.len() as int,
        ),
        find(decimal(n) + "\""@ + rest, "\""@) == Some(decimal(n).len() as int),
    ensures
        row_size(front + "data-ts_text=\""@ + (decimal(n) + "\""@ + rest)) == Some(n as u64),
{
    lemma_behind_at(front, "data-ts_text=\""@, decimal(n) + "\""@ + rest);
    lemma_behind_at(decimal(n), "\""@, rest);
    lemma_natural_decimal(n, u64::MAX as nat);
}

/// A row counts where it has an id and a title, and tells what stands in it.
pub proof fn rows_need_id_and_title(id: Seq<char>, row: Seq<char>)
    ensures
        id.len() == 0 || row_title(row).len() == 0 ==> row_of(id, row).len() == 0,
        id.len() > 0 && row_title(row).len() > 0 ==> {
            let r = row_of(id, row);
            &&& r.len() == 1
            &&& r[0].topic_id == id && r[0].title == row_title(row)
            &&& r[0].seeders == row_seeders(row) && r[0].size_bytes == row_size(row)
        },
{
}

/// A row of the page stands between its opening tag, which names the topic, and
/// the next closing one, and the others follow in their order.
pub proof fn rows_follow_one_another(
    front: Seq<char>,
    id: Seq<char>,
    inner: Seq<char>,
    rest: Seq<char>,
)
    requires
        find(
            front + "<tr id=\"trs-tr-"@ + (id + (seq!['"'] + inner + "</tr>"@ + rest)),
            "<tr id=\"trs-tr-"@,
        ) == Some(front.len() as int),
        find_char(id, '"') is None,
        find(seq!['"'] + inner + "</tr>"@ + rest, "</tr>"@) == Some(inner.len() as int + 1),
    ensures
        rows_of(front + "<tr id=\"trs-tr-"@ + (id + (seq!['"'] + inner + "</tr>"@ + rest)))
            == row_of(id, seq!['"'] + inner) + rows_of(rest),
{
    reveal_strlit("</tr>");
    let tail = seq!['"'] + inner + "</tr>"@ + rest;
    let a = id + tail;
    let html = front + "<tr id=\"trs-tr-"@ + a;
    assert(html.skip(front.len() as int + "<tr id=\"trs-tr-"@.len()) =~= a);
    assert(a =~= id + seq!['"'] + (inner + "</tr>"@ + rest));
    lemma_cut(id, '"', inner + "</tr>"@ + rest);
    let p = id.len() as int;
    assert(a.skip(p) =~= tail);
    assert(a.take(p) =~= id);
    let q = inner.len() as int + 1;
    assert(tail.take(q) =~= seq!['"'] + inner);
    assert(a.skip(p + q + 5) =~= rest);
}

/// A page without a row lists nothing.
pub proof fn pages_without_rows_list_nothing(html: Seq<char>)
    requires
        !occurs(html, "<tr id=\"trs-tr-"@),
    ensures
        rows_of(html).len() == 0,
{
}

/// The link of a topic is the first magnet link on its page, up to the quote
/// that ends it.
pub proof fn magnet_link_is_found(front: Seq<char>, link: Seq<char>, rest: Seq<char>, none: Seq<char>)
    requires
        begins(link, "magnet:"@),
        find_char(link, '"') is None,
        find(front + "href=\""@ + (link + seq!['"'] + rest), "href=\"magnet:"@) == Some(
            front.len() as int,
        ),
        !occurs(none, "href=\"magnet:"@),
    ensures
        magnet_in(front + "href=\""@ + (link + seq!['"'] + rest)) == Some(link),
        magnet_in(none) is None,
{
    reveal_strlit("href=\"");
    let t = link + seq!['"'] + rest;
    let html = front + "href=\""@ + t;
    assert(html.skip(front.len() as int + 6) =~= t);
    lemma_cut(link, '"', rest);
}

/// What stands behind and before a part of a text.
proof fn lemma_behind_at(front: Seq<char>, marker: Seq<char>, rest: Seq<char>)
    ensures
        (front + marker + rest).skip(front.len() as int + marker.len()) == rest,
        (front + marker + rest).take(front.len() as int) == front,
{
    assert((front + marker + rest).skip(front.len() as int + marker.len()) =~= rest);
    assert((front + marker + rest).take(front.len() as int) =~= front);
}

/// A number has no white space around it.
proof fn lemma_number_is_trimmed(n: nat)
    ensures
        trim(decimal(n)) == decimal(n),
{
    lemma_decimal(n);
    let d = decimal(n);
    assert(digit(d[0]) && digit(d[d.len() - 1]));
    assert(trim_start(d) == d);
    assert(trim_end(d) == d);
}

/// What is seen of a row is what its fields hold.
pub proof fn rows_are_seen_in_full(row: SearchRow)
    ensures
        row@.topic_id == row.topic_id@ && row@.title == row.title@,
        row@.seeders == row.seeders && row@.size_bytes == row.size_bytes,
{
}

} // verus!
