//! Searches a Prowlarr server, which asks all its indexers at once.

use vstd::prelude::*;

use crate::env::{env_or, env_value};
use crate::magnet::{bare_magnet, bare_magnet_of};
use crate::providers::common::{
    filled, filled_text, or_empty, release_stream, released, text_or_empty, Reply, SearchAnswer,
    Step, StepView, StreamsAnswer,
};
use crate::providers::jackett::{kind_for, lemma_categories, scope_kind, thousands};
use crate::release::{codec_of, extract_quality, hdr_of, quality_of, source_of};
use crate::sdk::kinds::{EntryKind, SearchScope};
use crate::sdk::manifest::PluginManifest;
use crate::sdk::plugin::Plugin;
use crate::sdk::result::{views, PluginResult};
use crate::sdk::types::{
    blank_entry, EntryView, FindStreamsRequest, FindStreamsResponse, PluginEntry, SearchRequest,
    SearchResponse, Stream, StreamView,
};
use crate::size::{humanize_bytes, humanized};
use crate::text::case::uppercase;
use crate::text::cat::{cat, cat3, cat4, cat5};
use crate::text::chars::{skip_to, take_to, texts, to_chars, to_text};
use crate::text::find::{begins, find_char, find_one, lemma_find_char};
use crate::text::list::{
    collect_some, collected_is_picked, lemma_collect_from, lemma_collect_step, picks,
};
use crate::text::number::{decimal, decimal_text, padded, padded_text, signed, signed_text};
use crate::text::percent::{encoded, url_encode};
use crate::text::split::{join, join_texts, lemma_join_behind, slices, split, split_at_char};
use crate::text::table::Table;
use crate::text::trim::{trim, trim_both};

verus! {

/// The provider.
pub struct ProwlarrProvider {
    pub manifest: PluginManifest,
}

impl Plugin for ProwlarrProvider {
    fn manifest(&self) -> (r: &PluginManifest)
        ensures
            *r == self.manifest,
    {
        &self.manifest
    }
}

/// Where the server is, and the key that it wants.
#[derive(Debug)]
pub struct Config {
    pub base_url: String,
    pub api_key: String,
}

/// Why there is no configuration.
pub open spec fn no_key() -> Seq<char> {
    "PROWLARR_API_KEY is not set. Add it to ~/.config/stui/config.toml or set the env var."@
}

/// The server's address in the host's settings.
pub open spec fn base_url(cache: Map<Seq<char>, String>) -> Seq<char> {
    env_value(cache, "PROWLARR_URL"@, "http://localhost:9696"@)
}

/// The server's key in the host's settings.
pub open spec fn api_key(cache: Map<Seq<char>, String>) -> Seq<char> {
    env_value(cache, "PROWLARR_API_KEY"@, ""@)
}

impl Config {
    /// Reads the settings. The key has to be there.
    pub fn load(cache: &Table<String>) -> (r: Result<Config, String>)
        ensures
            match r {
                Ok(c) => api_key(cache@).len() > 0 && c.base_url@ == base_url(cache@)
                    && c.api_key@ == api_key(cache@),
                Err(e) => api_key(cache@).len() == 0 && e@ == no_key(),
            },
    {
        let base_url = env_or(cache, "PROWLARR_URL", "http://localhost:9696");
        let api_key = env_or(cache, "PROWLARR_API_KEY", "");
        if api_key.as_str().is_empty() {
            return Err(
                "PROWLARR_API_KEY is not set. Add it to ~/.config/stui/config.toml or set the env var.".to_owned(),
            );
        }
        Ok(Config { base_url, api_key })
    }
}

/// One result of a search.
#[derive(Debug, Clone)]
pub struct ProwlarrResult {
    pub title: String,
    /// In bytes.
    pub size: u64,
    pub seeders: i32,
    pub leechers: i32,
    pub indexer: Option<String>,
    /// `torrent` or `usenet`.
    pub protocol: Option<String>,
    pub download_url: Option<String>,
    pub magnet_url: Option<String>,
    pub info_url: Option<String>,
    pub info_hash: Option<String>,
    pub imdb_id: Option<i64>,
    pub tmdb_id: Option<i64>,
}

/// What a result is played from: its magnet link, or its torrent file, or a
/// magnet link made of its hash.
pub open spec fn url_of(item: ProwlarrResult) -> Option<Seq<char>> {
    match filled(item.magnet_url) {
        Some(m) => Some(m),
        None => match filled(item.download_url) {
            Some(u) => Some(u),
            None => match filled(item.info_hash) {
                Some(h) => Some(bare_magnet(h, item.title@)),
                None => None,
            },
        },
    }
}

/// The stream that a result is, where it can be played.
pub open spec fn stream_of(item: ProwlarrResult, fallback: Seq<char>) -> Option<StreamView> {
    match url_of(item) {
        Some(url) => Some(
            released(
                url,
                item.title@,
                match filled(item.indexer) {
                    Some(i) => i,
                    None => fallback,
                },
                if item.seeders >= 0 {
                    Some(item.seeders as u32)
                } else {
                    None
                },
                if item.size > 0 {
                    Some(item.size)
                } else {
                    None
                },
            ),
        ),
        None => None,
    }
}

/// `stream_of` with its fallback.
pub open spec fn stream_maker(fallback: Seq<char>) -> spec_fn(ProwlarrResult) -> Option<StreamView> {
    |item: ProwlarrResult| stream_of(item, fallback)
}

/// What is said of a result below its title.
pub open spec fn meta_of(item: ProwlarrResult) -> Seq<char> {
    humanized(item.size as nat) + "  ↑"@ + signed(item.seeders as int) + " ↓"@ + signed(
        item.leechers as int,
    ) + "  "@ + or_empty(item.indexer)
}

/// How and from where a result was found.
pub open spec fn tail_of(item: ProwlarrResult) -> Seq<char> {
    "Protocol: "@ + or_empty(item.protocol) + "  InfoURL: "@ + or_empty(item.info_url)
}

/// The entry that a result is. Its id holds its hash and the address of its
/// torrent file, with `|` between them.
pub open spec fn entry_of(item: ProwlarrResult, kind: EntryKind) -> EntryView {
    EntryView {
        id: or_empty(item.info_hash) + "|"@ + or_empty(item.download_url),
        kind,
        title: item.title@,
        description: match quality_of(uppercase(item.title@)) {
            Some(q) => Some(q + " · "@ + meta_of(item) + " · "@ + tail_of(item)),
            None => Some(meta_of(item) + " · "@ + tail_of(item)),
        },
        imdb_id: match item.imdb_id {
            Some(i) => if i > 0 {
                Some("tt"@ + padded(i as nat, 7))
            } else {
                None
            },
            None => None,
        },
        ..blank_entry()
    }
}

impl ProwlarrResult {
    /// What the result is played from.
    fn url(&self) -> (r: Option<String>)
        ensures
            match r {
                Some(u) => url_of(*self) == Some(u@),
                None => url_of(*self) is None,
            },
    {
        if let Some(m) = filled_text(&self.magnet_url) {
            return Some(m);
        }
        if let Some(u) = filled_text(&self.download_url) {
            return Some(u);
        }
        match filled_text(&self.info_hash) {
            Some(h) => Some(bare_magnet_of(h.as_str(), self.title.as_str())),
            None => None,
        }
    }

    /// The stream that the result is; none where it has nothing to be played from.
    pub fn into_stream(self, provider: &str) -> (r: Option<Stream>)
        ensures
            match r {
                Some(s) => stream_of(self, provider@) == Some(s@),
                None => stream_of(self, provider@) is None,
            },
    {
        let url = match self.url() {
            Some(u) => u,
            None => {
                return None;
            },
        };
        let label = match filled_text(&self.indexer) {
            Some(i) => i,
            None => provider.to_owned(),
        };
        let seeders = if self.seeders >= 0 {
            Some(self.seeders as u32)
        } else {
            None
        };
        let size_bytes = if self.size > 0 {
            Some(self.size)
        } else {
            None
        };
        Some(release_stream(url, self.title.as_str(), label, seeders, size_bytes))
    }

    /// The entry that the result is.
    pub fn into_entry(self, kind: EntryKind) -> (r: PluginEntry)
        ensures
            r@ == entry_of(self, kind),
    {
        let mut meta = cat5(
            humanize_bytes(self.size).as_str(),
            "  ↑",
            signed_text(self.seeders as i64).as_str(),
            " ↓",
            signed_text(self.leechers as i64).as_str(),
        );
        meta.append("  ");
        meta.append(text_or_empty(&self.indexer).as_str());
        let tail = cat4(
            "Protocol: ",
            text_or_empty(&self.protocol).as_str(),
            "  InfoURL: ",
            text_or_empty(&self.info_url).as_str(),
        );
        let description = match extract_quality(self.title.as_str()) {
            Some(q) => cat5(q.as_str(), " · ", meta.as_str(), " · ", tail.as_str()),
            None => cat3(meta.as_str(), " · ", tail.as_str()),
        };
        let mut r = PluginEntry::default();
        r.id = cat3(
            text_or_empty(&self.info_hash).as_str(),
            "|",
            text_or_empty(&self.download_url).as_str(),
        );
        r.kind = kind;
        r.imdb_id = match self.imdb_id {
            Some(i) => if i > 0 {
                Some(cat("tt", padded_text(i as u64, 7).as_str()))
            } else {
                None
            },
            None => None,
        };
        r.title = self.title;
        r.description = Some(description);
        assert(r@ =~= entry_of(self, kind));
        r
    }
}

/// The hash and the address that an entry's id holds.
pub open spec fn entry_parts(id: Seq<char>) -> (Seq<char>, Seq<char>) {
    match find_char(id, '|') {
        Some(i) => (id.take(i), id.skip(i + 1)),
        None => (id, seq![]),
    }
}

/// Takes an entry's id apart into the hash and the address that it holds.
pub fn parse_entry_id(id: &str) -> (r: (String, String))
    ensures
        (r.0@, r.1@) == entry_parts(id@),
{
    let cs = to_chars(id);
    let end: usize = cs.len();
    match find_one(cs.as_slice(), '|') {
        Some(i) => (
            to_text(take_to(cs.as_slice(), i)),
            to_text(skip_to(cs.as_slice(), i + 1)),
        ),
        None => (id.to_owned(), String::new()),
    }
}

/// The id of an entry gives back the hash and the address of the result that
/// it was made of, where the hash is free of the separator.
pub proof fn entry_id_round_trips(item: ProwlarrResult, kind: EntryKind)
    requires
        find_char(or_empty(item.info_hash), '|') is None,
    ensures
        entry_parts(entry_of(item, kind).id) == (
            or_empty(item.info_hash),
            or_empty(item.download_url),
        ),
{
    let hash = or_empty(item.info_hash);
    let id = entry_of(item, kind).id;
    reveal_strlit("|");
    lemma_find_char(hash, '|');
    lemma_find_char(id, '|');
    assert(id[hash.len() as int] == '|');
    let i = find_char(id, '|').unwrap();
    if i < hash.len() {
        assert(hash[i] == '|');
    }
    assert(id.take(i) =~= hash);
    assert(id.skip(i + 1) =~= or_empty(item.download_url));
}

/// The parameters for the categories, one for each.
pub open spec fn cat_params(cats: Seq<char>) -> Seq<char> {
    let parts = split(cats, ',');
    join(Seq::new(parts.len(), |i: int| "categories="@ + trim(parts[i])), "&"@)
}

/// The parameters for the categories in a list with commas between them.
pub fn build_cat_params(cats: &str) -> (r: String)
    ensures
        r@ == cat_params(cats@),
{
    let cs = to_chars(cats);
    let parts = split_at_char(cs.as_slice(), ',');
    let mut out: Vec<String> = Vec::new();
    for i in 0..parts.len()
        invariant
            out@.len() == i,
            forall|k: int|
                0 <= k < i ==> (#[trigger] out@[k])@ == "categories="@ + trim(slices(parts@)[k]),
    {
        assert(slices(parts@)[i as int] == parts@[i as int]@);
        out.push(cat("categories=", to_text(trim_both(parts[i])).as_str()));
    }
    assert(texts(out@) =~= Seq::new(
        split(cats@, ',').len(),
        |i: int| "categories="@ + trim(split(cats@, ',')[i]),
    ));
    join_texts(&out, "&")
}

/// What is searched for: the title with the season and the episode, or else
/// with the year.
pub open spec fn query_of(req: FindStreamsRequest) -> Seq<char> {
    match (req.season, req.episode) {
        (Some(s), Some(e)) => req.title@ + " S"@ + padded(s as nat, 2) + "E"@ + padded(
            e as nat,
            2,
        ),
        (Some(s), None) => req.title@ + " S"@ + padded(s as nat, 2),
        _ => match req.year {
            Some(y) => req.title@ + " "@ + decimal(y as nat),
            None => req.title@,
        },
    }
}

/// What is searched for.
pub fn build_query(req: &FindStreamsRequest) -> (r: String)
    ensures
        r@ == query_of(*req),
{
    match (req.season, req.episode) {
        (Some(s), Some(e)) => cat5(
            req.title.as_str(),
            " S",
            padded_text(s as u64, 2).as_str(),
            "E",
            padded_text(e as u64, 2).as_str(),
        ),
        (Some(s), None) => cat3(req.title.as_str(), " S", padded_text(s as u64, 2).as_str()),
        _ => match req.year {
            Some(y) => cat3(req.title.as_str(), " ", decimal_text(y as u64).as_str()),
            None => req.title.clone(),
        },
    }
}

/// The address of a search on the server, among all of its indexers.
pub open spec fn search_url(
    base_url: Seq<char>,
    api_key: Seq<char>,
    query: Seq<char>,
    cats: Seq<char>,
) -> Seq<char> {
    base_url + "/api/v1/search?query="@ + encoded(query) + "&indexerIds=-1&"@ + cat_params(cats)
        + "&type=search"@ + "&apikey="@ + api_key
}

/// Builds the address of a search on the server.
fn build_url(cfg: &Config, query: &str, cats: &str) -> (r: String)
    ensures
        r@ == search_url(cfg.base_url@, cfg.api_key@, query@, cats@),
{
    let mut url = cat5(
        cfg.base_url.as_str(),
        "/api/v1/search?query=",
        url_encode(query).as_str(),
        "&indexerIds=-1&",
        build_cat_params(cats).as_str(),
    );
    url.append("&type=search");
    url.append("&apikey=");
    url.append(cfg.api_key.as_str());
    url
}

/// The categories for a scope.
pub open spec fn scope_cats(scope: SearchScope) -> Seq<char> {
    match scope {
        SearchScope::Movie => "2000,2010,2020,2030"@,
        SearchScope::Series | SearchScope::Episode => "5000,5020,5040,5070,5080"@,
        SearchScope::Track | SearchScope::Artist | SearchScope::Album => "3000,3010,3020,3040"@,
    }
}

/// The categories for a kind.
pub open spec fn kind_cats(kind: EntryKind) -> Seq<char> {
    match kind {
        EntryKind::Movie => "2000,2010,2020,2030"@,
        EntryKind::Series | EntryKind::Episode => "5000,5020,5040,5070,5080"@,
        _ => "2000,5000"@,
    }
}

/// The page that a search is answered from.
pub open spec fn search_step(cache: Map<Seq<char>, String>, req: SearchRequest) -> StepView<
    Result<(Seq<EntryView>, u32), (Seq<char>, Seq<char>)>,
> {
    if api_key(cache).len() == 0 {
        StepView::Answer(Err(("CONFIG_ERROR"@, no_key())))
    } else {
        StepView::Fetch(
            search_url(base_url(cache), api_key(cache), req.query@, scope_cats(req.scope)),
        )
    }
}

/// The page that a request for streams is answered from.
pub open spec fn streams_step(cache: Map<Seq<char>, String>, req: FindStreamsRequest) -> StepView<
    Result<Seq<StreamView>, (Seq<char>, Seq<char>)>,
> {
    if api_key(cache).len() == 0 {
        StepView::Answer(Err(("CONFIG_ERROR"@, no_key())))
    } else {
        StepView::Fetch(
            search_url(base_url(cache), api_key(cache), query_of(req), kind_cats(req.kind)),
        )
    }
}

/// What a search answers to a reply: an entry for each result, up to the limit.
pub open spec fn search_outcome(
    reply: Reply<Vec<ProwlarrResult>>,
    scope: SearchScope,
    limit: u32,
) -> Result<(Seq<EntryView>, u32), (Seq<char>, Seq<char>)> {
    match reply {
        Reply::HttpError(e) => Err(("HTTP_ERROR"@, e@)),
        Reply::ParseError(e) => Err(("PARSE_ERROR"@, e@)),
        Reply::Parsed(items) => {
            let n = if items@.len() < limit {
                items@.len()
            } else {
                limit as nat
            };
            Ok((Seq::new(n, |i: int| entry_of(items@[i], scope_kind(scope))), n as u32))
        },
    }
}

/// What a request for streams answers to a reply: the items that can be
/// played.
pub open spec fn streams_outcome(reply: Reply<Vec<ProwlarrResult>>, name: Seq<char>) -> Result<
    Seq<StreamView>,
    (Seq<char>, Seq<char>),
> {
    match reply {
        Reply::HttpError(e) => Err(("HTTP_ERROR"@, e@)),
        Reply::ParseError(e) => Err(("PARSE_ERROR"@, e@)),
        Reply::Parsed(items) => Ok(collect_some(items@, stream_maker(name))),
    }
}

impl ProwlarrProvider {
    /// The provider with its manifest.
    pub fn new(manifest: PluginManifest) -> (r: Self)
        ensures
            r.manifest == manifest,
    {
        ProwlarrProvider { manifest }
    }

    /// Begins a search: the page to fetch, or the error that the key is missing.
    pub fn search(&self, cache: &Table<String>, req: &SearchRequest) -> (r: Step<SearchAnswer>)
        ensures
            r@ == search_step(cache@, *req),
    {
        let cfg = match Config::load(cache) {
            Ok(c) => c,
            Err(e) => {
                return Step::Answer(PluginResult::err("CONFIG_ERROR", e.as_str()));
            },
        };
        let cats = match req.scope {
            SearchScope::Movie => "2000,2010,2020,2030",
            SearchScope::Series | SearchScope::Episode => "5000,5020,5040,5070,5080",
            SearchScope::Track | SearchScope::Artist | SearchScope::Album => "3000,3010,3020,3040",
        };
        Step::Fetch(build_url(&cfg, req.query.as_str(), cats))
    }

    /// Ends a search: an entry for each result, up to the limit.
    pub fn search_reply(
        &self,
        reply: Reply<Vec<ProwlarrResult>>,
        scope: SearchScope,
        limit: u32,
    ) -> (r: SearchAnswer)
        ensures
            r@ == search_outcome(reply, scope, limit),
    {
        match reply {
            Reply::HttpError(e) => PluginResult::err("HTTP_ERROR", e.as_str()),
            Reply::ParseError(e) => PluginResult::err("PARSE_ERROR", e.as_str()),
            Reply::Parsed(items) => {
                let kind = kind_for(scope);
                let ghost all = items@;
                let mut out: Vec<PluginEntry> = Vec::new();
                for item in it: items
                    invariant
                        it.seq() == all,
                        kind == scope_kind(scope),
                        out@.len() <= limit,
                        out@.len() <= it.index(),
                        out@.len() == it.index() || out@.len() == limit,
                        forall|k: int|
                            0 <= k < out@.len() ==> (#[trigger] out@[k])@ == entry_of(
                                all[k],
                                kind,
                            ),
                {
                    if (out.len() as u64) < limit as u64 {
                        out.push(item.into_entry(kind));
                    }
                }
                let total = out.len() as u32;
                proof {
                    let n = if all.len() < limit {
                        all.len()
                    } else {
                        limit as nat
                    };
                    assert(views(out@) =~= Seq::new(n, |i: int| entry_of(all[i], scope_kind(scope))));
                }
                PluginResult::ok(SearchResponse { items: out, total })
            },
        }
    }

    /// Begins a request for streams: the page to fetch, or the error that the
    /// key is missing.
    pub fn find_streams(&self, cache: &Table<String>, req: &FindStreamsRequest) -> (r: Step<
        StreamsAnswer,
    >)
        ensures
            r@ == streams_step(cache@, *req),
    {
        let cfg = match Config::load(cache) {
            Ok(c) => c,
            Err(e) => {
                return Step::Answer(PluginResult::err("CONFIG_ERROR", e.as_str()));
            },
        };
        let cats = match req.kind {
            EntryKind::Movie => "2000,2010,2020,2030",
            EntryKind::Series | EntryKind::Episode => "5000,5020,5040,5070,5080",
            _ => "2000,5000",
        };
        Step::Fetch(build_url(&cfg, build_query(req).as_str(), cats))
    }

    /// Ends a request for streams: the items that can be played.
    pub fn find_streams_reply(&self, reply: Reply<Vec<ProwlarrResult>>) -> (r: StreamsAnswer)
        ensures
            r@ == streams_outcome(reply, self.manifest.plugin.name@),
    {
        let name = self.manifest.plugin.name.as_str();
        match reply {
            Reply::HttpError(e) => PluginResult::err("HTTP_ERROR", e.as_str()),
            Reply::ParseError(e) => PluginResult::err("PARSE_ERROR", e.as_str()),
            Reply::Parsed(items) => {
                let ghost all = items@;
                let mut streams: Vec<Stream> = Vec::new();
                for item in it: items
                    invariant
                        it.seq() == all,
                        views(streams@) == collect_some(
                            all.take(it.index() as int),
                            stream_maker(name@),
                        ),
                {
                    proof {
                        lemma_collect_step(all, stream_maker(name@), it.index() as int);
                    }
                    let ghost before = views(streams@);
                    if let Some(s) = item.into_stream(name) {
                        streams.push(s);
                        assert(views(streams@) =~= before.push(s@));
                    }
                }
                assert(all.take(all.len() as int) =~= all);
                PluginResult::ok(FindStreamsResponse { streams })
            },
        }
    }
}

/// A search lists no more entries than it was asked for, and its total is
/// their number.
pub proof fn search_keeps_the_limit(reply: Reply<Vec<ProwlarrResult>>, scope: SearchScope, limit: u32)
    ensures
        search_outcome(reply, scope, limit) matches Ok((items, total)) ==> items.len() <= limit
            && total == items.len(),
{
}

/// Every stream that is handed out can be played: its address is not empty.
pub proof fn streams_have_addresses(items: Seq<ProwlarrResult>, name: Seq<char>, k: int)
    requires
        0 <= k < collect_some(items, stream_maker(name)).len(),
    ensures
        collect_some(items, stream_maker(name))[k].url.len() > 0,
{
    lemma_collect_from(items, stream_maker(name), k);
    let j = choose|j: int|
        0 <= j < items.len() && stream_maker(name)(#[trigger] items[j]) == Some(
            collect_some(items, stream_maker(name))[k],
        );
    assert(stream_of(items[j], name) is Some);
    reveal_strlit("magnet:?xt=urn:btih:");
}

/// The categories of a search are those of its scope alone: series and
/// episodes from five to six thousand, movies from two to three thousand,
/// music from three to four thousand.
pub proof fn searches_keep_to_their_scope(cache: Map<Seq<char>, String>, req: SearchRequest)
    requires
        env_value(cache, "PROWLARR_API_KEY"@, ""@).len() > 0,
    ensures
        ({
            let cats = scope_cats(req.scope);
            &&& search_step(cache, req) == StepView::<
                Result<(Seq<EntryView>, u32), (Seq<char>, Seq<char>)>,
            >::Fetch(
                env_value(cache, "PROWLARR_URL"@, "http://localhost:9696"@)
                    + "/api/v1/search?query="@ + encoded(req.query@) + "&indexerIds=-1&"@
                    + cat_params(cats) + "&type=search"@ + "&apikey="@ + env_value(
                    cache,
                    "PROWLARR_API_KEY"@,
                    ""@,
                ),
            )
            &&& req.scope == SearchScope::Series || req.scope == SearchScope::Episode ==> thousands(
                cats,
                '5',
            ) && cats == "5000,5020,5040,5070,5080"@
            &&& req.scope == SearchScope::Movie ==> thousands(cats, '2') && cats
                == "2000,2010,2020,2030"@
            &&& req.scope == SearchScope::Track || req.scope == SearchScope::Artist || req.scope
                == SearchScope::Album ==> thousands(cats, '3') && cats == "3000,3010,3020,3040"@
        }),
{
    lemma_categories();
}

/// Streams are asked for in the categories of their kind: movies from two
/// thousand, series and episodes from five thousand, others in both.
pub proof fn streams_are_asked_for_by_kind(cache: Map<Seq<char>, String>, req: FindStreamsRequest)
    requires
        env_value(cache, "PROWLARR_API_KEY"@, ""@).len() > 0,
    ensures
        ({
            let cats = match req.kind {
                EntryKind::Movie => "2000,2010,2020,2030"@,
                EntryKind::Series | EntryKind::Episode => "5000,5020,5040,5070,5080"@,
                _ => "2000,5000"@,
            };
            streams_step(cache, req) == StepView::<
                Result<Seq<StreamView>, (Seq<char>, Seq<char>)>,
            >::Fetch(
                env_value(cache, "PROWLARR_URL"@, "http://localhost:9696"@)
                    + "/api/v1/search?query="@ + encoded(query_of(req)) + "&indexerIds=-1&"@
                    + cat_params(cats) + "&type=search"@ + "&apikey="@ + env_value(
                    cache,
                    "PROWLARR_API_KEY"@,
                    ""@,
                ),
            )
        }),
{
}

/// What is searched for begins with the title. Season and episode stand
/// behind it with two digits each, or the season alone; the year does only
/// where there is no season.
pub proof fn queries_name_the_episode(req: FindStreamsRequest)
    ensures
        begins(query_of(req), req.title@),
        req.season matches Some(s) ==> (req.episode matches Some(e) ==> query_of(req) == req.title@
            + " S"@ + padded(s as nat, 2) + "E"@ + padded(e as nat, 2)),
        req.season matches Some(s) ==> (req.episode is None ==> query_of(req) == req.title@ + " S"@
            + padded(s as nat, 2)),
        req.season is None ==> (req.year matches Some(y) ==> query_of(req) == req.title@ + " "@
            + decimal(y as nat)),
        req.season is None && req.year is None ==> query_of(req) == req.title@,
{
    assert(query_of(req).subrange(0, req.title@.len() as int) =~= req.title@);
}

/// Each category of a list becomes a parameter of its own, in the same order.
pub proof fn each_category_is_a_parameter(one: Seq<char>, rest: Seq<char>)
    requires
        find_char(one, ',') is None,
    ensures
        cat_params(one) == "categories="@ + trim(one),
        cat_params(one + seq![','] + rest) == "categories="@ + trim(one) + "&"@ + cat_params(rest),
{
    lemma_find_char(one, ',');
    let s = one + seq![','] + rest;
    lemma_find_char(s, ',');
    assert(s[one.len() as int] == ',');
    let p = find_char(s, ',').unwrap();
    if p < one.len() {
        assert(one[p] == ',');
    }
    assert(s.take(p) =~= one);
    assert(s.skip(p + 1) =~= rest);
    let param = |t: Seq<char>| "categories="@ + trim(t);
    let a = split(one, ',');
    assert(a =~= seq![one]);
    let va = Seq::new(a.len(), |i: int| "categories="@ + trim(a[i]));
    assert(va =~= seq![param(one)]);
    reveal_with_fuel(join, 2);
    let b = split(rest, ',');
    let c = split(s, ',');
    assert(c =~= seq![one] + b);
    let vb = Seq::new(b.len(), |i: int| "categories="@ + trim(b[i]));
    let vc = Seq::new(c.len(), |i: int| "categories="@ + trim(c[i]));
    assert(vc =~= seq![param(one)] + vb);
    lemma_join_behind(param(one), vb, "&"@);
}

/// Without a key nothing is asked, and the answer says so.
pub proof fn key_is_needed(
    cache: Map<Seq<char>, String>,
    search: SearchRequest,
    streams: FindStreamsRequest,
)
    requires
        env_value(cache, "PROWLARR_API_KEY"@, ""@).len() == 0,
    ensures
        search_step(cache, search) matches StepView::Answer(Err(e)) && e == (
            "CONFIG_ERROR"@,
            "PROWLARR_API_KEY is not set. Add it to ~/.config/stui/config.toml or set the env var."@,
        ),
        streams_step(cache, streams) matches StepView::Answer(Err(e)) && e == (
            "CONFIG_ERROR"@,
            "PROWLARR_API_KEY is not set. Add it to ~/.config/stui/config.toml or set the env var."@,
        ),
{
}

/// A stream is played from the magnet link of the item, or else from its
/// download, or else from a magnet link made of its hash and title; an item
/// with none of these is not handed out. The stream has the title of the item,
/// the name of its tracker, and its seeders and bytes where they are known.
pub proof fn streams_tell_what_items_tell(item: ProwlarrResult, fallback: Seq<char>)
    ensures
        stream_maker(fallback)(item) == stream_of(item, fallback),
        ({
            let named = item.magnet_url matches Some(m) && m@.len() > 0;
            let linked = item.download_url matches Some(u) && u@.len() > 0;
            let hashed = item.info_hash matches Some(h) && h@.len() > 0;
            &&& stream_of(item, fallback) is Some <==> named || linked || hashed
            &&& stream_of(item, fallback) matches Some(s) ==> {
                &&& named ==> s.url == item.magnet_url->0@
                &&& !named && linked ==> s.url == item.download_url->0@
                &&& !named && !linked ==> s.url == "magnet:?xt=urn:btih:"@ + item.info_hash->0@
                    + "&dn="@ + encoded(item.title@)
                &&& s.title == item.title@
                &&& (item.indexer matches Some(i) && i@.len() > 0) ==> s.provider
                    == item.indexer->0@
                &&& item.indexer is None || item.indexer->0@.len() == 0 ==> s.provider == fallback
                &&& item.seeders >= 0 ==> s.seeders == Some(item.seeders as u32)
                &&& item.seeders < 0 ==> s.seeders is None
                &&& item.size > 0 ==> s.size_bytes == Some(item.size)
                &&& item.size == 0 ==> s.size_bytes is None
                &&& s.quality == quality_of(uppercase(item.title@))
                &&& s.codec == codec_of(uppercase(item.title@))
                &&& s.source == source_of(uppercase(item.title@))
                &&& s.hdr == hdr_of(uppercase(item.title@))
            }
        }),
{
}

/// Every item that can be played is handed out, in the order in which they
/// came, and what went wrong is told by its code.
pub proof fn no_item_is_lost(items: Vec<ProwlarrResult>, name: Seq<char>, e: String)
    ensures
        streams_outcome(Reply::Parsed(items), name) matches Ok(s) && picks(
            items@,
            stream_maker(name),
            s,
        ),
        streams_outcome(Reply::HttpError(e), name) == Err::<
            Seq<StreamView>,
            (Seq<char>, Seq<char>),
        >(("HTTP_ERROR"@, e@)),
        streams_outcome(Reply::ParseError(e), name) == Err::<
            Seq<StreamView>,
            (Seq<char>, Seq<char>),
        >(("PARSE_ERROR"@, e@)),
{
    collected_is_picked(items@, stream_maker(name));
}

/// Entries are the first items of the answer, as many as are asked for and
/// there are, each in its place and of the kind of the scope.
pub proof fn entries_are_the_first_items(
    items: Vec<ProwlarrResult>,
    scope: SearchScope,
    limit: u32,
    e: String,
)
    ensures
        search_outcome(Reply::Parsed(items), scope, limit) matches Ok((entries, total)) && {
            &&& entries.len() == total
            &&& entries.len() <= limit && entries.len() <= items@.len()
            &&& entries.len() == limit || entries.len() == items@.len()
            &&& forall|i: int|
                0 <= i < entries.len() ==> #[trigger] entries[i] == entry_of(
                    items@[i],
                    scope_kind(scope),
                )
        },
        search_outcome(Reply::HttpError(e), scope, limit) == Err::<
            (Seq<EntryView>, u32),
            (Seq<char>, Seq<char>),
        >(("HTTP_ERROR"@, e@)),
        search_outcome(Reply::ParseError(e), scope, limit) == Err::<
            (Seq<EntryView>, u32),
            (Seq<char>, Seq<char>),
        >(("PARSE_ERROR"@, e@)),
{
}

/// An entry is found again by its hash and its download, and tells title, kind
/// and IMDb id of the item. Its description begins with the quality that the
/// title names, where it names one, and goes on with size, seeders, leechers,
/// tracker, protocol and page.
pub proof fn entries_tell_what_items_tell(
    item: ProwlarrResult,
    kind: EntryKind,
    hash: String,
    url: String,
    tracker: String,
    protocol: String,
    page: String,
)
    requires
        item.info_hash == Some(hash),
        item.download_url == Some(url),
        item.indexer == Some(tracker),
        item.protocol == Some(protocol),
        item.info_url == Some(page),
    ensures
        ({
            let entry = entry_of(item, kind);
            let meta = humanized(item.size as nat) + "  ↑"@ + signed(item.seeders as int) + " ↓"@
                + signed(item.leechers as int) + "  "@ + tracker@;
            let more = "Protocol: "@ + protocol@ + "  InfoURL: "@ + page@;
            &&& entry.title == item.title@
            &&& entry.kind == kind
            &&& entry.id == hash@ + "|"@ + url@
            &&& quality_of(uppercase(item.title@)) matches Some(q) ==> entry.description == Some(
                q + " · "@ + meta + " · "@ + more,
            )
            &&& quality_of(uppercase(item.title@)) is None ==> entry.description == Some(
                meta + " · "@ + more,
            )
            &&& entry.year is None && entry.poster_url is None && entry.genre is None
        }),
{
}

/// The IMDb id of an entry is written with seven digits at least; none, or
/// one that is not positive, is not told. What an item does not tell is left
/// empty.
pub proof fn ids_are_written_in_full(item: ProwlarrResult, kind: EntryKind)
    ensures
        item.imdb_id matches Some(i) && i > 0 ==> entry_of(item, kind).imdb_id == Some(
            "tt"@ + padded(item.imdb_id->0 as nat, 7),
        ),
        item.imdb_id is None || item.imdb_id->0 <= 0 ==> entry_of(item, kind).imdb_id is None,
        item.info_hash is None && item.download_url is None ==> entry_of(item, kind).id == "|"@,
{
    assert(Seq::<char>::empty() + "|"@ + Seq::<char>::empty() =~= "|"@);
}

/// An entry's id gives hash and address back.
pub proof fn id_gives_hash_and_address_back(hash: Seq<char>, url: Seq<char>)
    requires
        find_char(hash, '|') is None,
    ensures
        entry_parts(hash + seq!['|'] + url) == (hash, url),
        entry_parts(hash) == (hash, Seq::<char>::empty()),
{
    let s = hash + seq!['|'] + url;
    lemma_find_char(hash, '|');
    lemma_find_char(s, '|');
    assert(s[hash.len() as int] == '|');
    let p = find_char(s, '|').unwrap();
    if p < hash.len() {
        assert(hash[p] == '|');
    }
    assert(s.take(p) =~= hash);
    assert(s.skip(p + 1) =~= url);
}

} // verus!
