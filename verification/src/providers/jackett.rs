//! Searches a Jackett server, which asks all its trackers at once.

use vstd::prelude::*;

use crate::env::{env_or, env_value};
use crate::magnet::{bare_magnet, bare_magnet_of};
use crate::providers::common::{
    filled, filled_text, not_negative, or_empty, release_stream, released, text_or_empty, Reply,
    SearchAnswer, Step, StepView, StreamsAnswer,
};
use crate::release::{codec_of, extract_quality, hdr_of, quality_of, source_of};
use crate::sdk::kinds::{EntryKind, SearchScope};
use crate::sdk::manifest::PluginManifest;
use crate::sdk::plugin::Plugin;
use crate::sdk::result::{views, PluginResult};
use crate::sdk::types::{
    blank_entry, EntryView, FindStreamsRequest, FindStreamsResponse, PluginEntry, SearchRequest,
    SearchResponse, Stream, StreamView,
};
use crate::size::{humanize_bytes, humanized};
use crate::text::case::uppercase;
use crate::text::cat::{cat, cat3, cat5};
use crate::text::chars::{digit, opt, same_text, to_chars};
use crate::text::find::{begins, begins_with, lemma_ends_of};
use crate::text::list::{
    collect_some, collected_is_picked, lemma_collect_from, lemma_collect_step, picks,
};
use crate::text::number::{
    decimal, decimal_text, integer, lemma_natural_decimal, natural, parse_i32, parse_u64, signed,
    signed_reads_back, signed_text,
};
use crate::text::percent::{encoded, url_encode};
use crate::text::table::Table;

verus! {

/// The provider.
pub struct JackettProvider {
    pub manifest: PluginManifest,
}

impl Plugin for JackettProvider {
    fn manifest(&self) -> (r: &PluginManifest)
        ensures
            *r == self.manifest,
    {
        &self.manifest
    }
}

/// Where the server is, and the key that it wants.
#[derive(Debug)]
pub struct Config {
    pub base_url: String,
    pub api_key: String,
}

/// Why there is no configuration.
pub open spec fn no_key() -> Seq<char> {
    "JACKETT_API_KEY is not set. Add it to ~/.config/stui/config.toml or set the env var."@
}

/// The server's address in the host's settings.
pub open spec fn base_url(cache: Map<Seq<char>, String>) -> Seq<char> {
    env_value(cache, "JACKETT_URL"@, "http://localhost:9117"@)
}

/// The server's key in the host's settings.
pub open spec fn api_key(cache: Map<Seq<char>, String>) -> Seq<char> {
    env_value(cache, "JACKETT_API_KEY"@, ""@)
}

impl Config {
    /// Reads the settings. The key has to be there.
    pub fn load(cache: &Table<String>) -> (r: Result<Config, String>)
        ensures
            match r {
                Ok(c) => api_key(cache@).len() > 0 && c.base_url@ == base_url(cache@)
                    && c.api_key@ == api_key(cache@),
                Err(e) => api_key(cache@).len() == 0 && e@ == no_key(),
            },
    {
        let base_url = env_or(cache, "JACKETT_URL", "http://localhost:9117");
        let api_key = env_or(cache, "JACKETT_API_KEY", "");
        if api_key.as_str().is_empty() {
            return Err(
                "JACKETT_API_KEY is not set. Add it to ~/.config/stui/config.toml or set the env var.".to_owned(),
            );
        }
        Ok(Config { base_url, api_key })
    }
}

/// An attribute of an item.
#[derive(Debug, Clone)]
pub struct TorznabAttr {
    pub name: String,
    pub value: String,
}

/// The tracker that an item comes from.
#[derive(Debug, Clone)]
pub struct JackettIndexer {
    pub name: String,
}

/// One item of the server's answer.
#[derive(Debug, Clone)]
pub struct TorznabItem {
    pub title: String,
    /// Where the torrent file is.
    pub link: Option<String>,
    /// In bytes.
    pub size: Option<u64>,
    pub jackettindexer: Option<JackettIndexer>,
    pub attrs: Vec<TorznabAttr>,
}

/// The value of the first attribute from `i` on that has the given name.
pub open spec fn attr_from(attrs: Seq<TorznabAttr>, name: Seq<char>, i: int) -> Option<Seq<char>>
    decreases attrs.len() - i,
{
    if i < 0 || i >= attrs.len() {
        None
    } else if attrs[i].name@ == name {
        Some(attrs[i].value@)
    } else {
        attr_from(attrs, name, i + 1)
    }
}

impl TorznabItem {
    /// The value of the first attribute with the given name.
    pub open spec fn attr_value(self, name: Seq<char>) -> Option<Seq<char>> {
        attr_from(self.attrs@, name, 0)
    }

    /// The value of the first attribute with the given name, where it is a
    /// whole number from zero up.
    pub open spec fn attr_number(self, name: Seq<char>) -> Option<u64> {
        match self.attr_value(name) {
            Some(s) => match natural(s, u64::MAX as nat) {
                Some(n) => Some(n as u64),
                None => None,
            },
            None => None,
        }
    }

    /// The value of the first attribute with the given name, where it is a
    /// whole number.
    pub open spec fn attr_integer(self, name: Seq<char>) -> Option<int> {
        match self.attr_value(name) {
            Some(s) => integer(s, 0x7fff_ffff),
            None => None,
        }
    }

    /// The size, as the item or else as an attribute gives it.
    pub open spec fn bytes(self) -> Option<u64> {
        match self.size {
            Some(n) => Some(n),
            None => self.attr_number("size"@),
        }
    }

    /// The value of the first attribute with the given name.
    pub fn attr(&self, name: &str) -> (r: Option<String>)
        ensures
            opt(r) == self.attr_value(name@),
    {
        let mut i: usize = 0;
        while i < self.attrs.len()
            invariant
                i <= self.attrs@.len(),
                attr_from(self.attrs@, name@, 0) == attr_from(self.attrs@, name@, i as int),
            decreases self.attrs@.len() - i,
        {
            if same_text(self.attrs[i].name.as_str(), name) {
                return Some(self.attrs[i].value.clone());
            }
            i += 1;
        }
        None
    }

    /// The value of the first attribute with the given name, where it is a
    /// whole number from zero up.
    pub fn attr_u64(&self, name: &str) -> (r: Option<u64>)
        ensures
            r == self.attr_number(name@),
    {
        match self.attr(name) {
            Some(s) => parse_u64(s.as_str()),
            None => None,
        }
    }

    /// The value of the first attribute with the given name, where it is a
    /// whole number.
    pub fn attr_i32(&self, name: &str) -> (r: Option<i32>)
        ensures
            match r {
                Some(n) => self.attr_integer(name@) == Some(n as int),
                None => self.attr_integer(name@) is None,
            },
    {
        match self.attr(name) {
            Some(s) => parse_i32(s.as_str()),
            None => None,
        }
    }

    /// The size, as the item or else as an attribute gives it.
    fn size_or_attr(&self) -> (r: Option<u64>)
        ensures
            r == self.bytes(),
    {
        match self.size {
            Some(n) => Some(n),
            None => self.attr_u64("size"),
        }
    }
}

/// The attribute of the given name, where it is not empty.
pub open spec fn filled_attr(item: TorznabItem, name: Seq<char>) -> Option<Seq<char>> {
    match item.attr_value(name) {
        Some(s) => if s.len() > 0 {
            Some(s)
        } else {
            None
        },
        None => None,
    }
}

/// What an item is played from: its magnet link, or one made of its hash, or
/// its torrent file.
pub open spec fn url_of(item: TorznabItem) -> Option<Seq<char>> {
    match filled_attr(item, "magneturl"@) {
        Some(m) => Some(m),
        None => match filled_attr(item, "infohash"@) {
            Some(h) => Some(bare_magnet(h, item.title@)),
            None => filled(item.link),
        },
    }
}

/// The tracker's name, or the fallback where it has none.
pub open spec fn label_of(item: TorznabItem, fallback: Seq<char>) -> Seq<char> {
    match item.jackettindexer {
        Some(j) => if j.name@.len() > 0 {
            j.name@
        } else {
            fallback
        },
        None => fallback,
    }
}

/// The stream that an item is, where it can be played.
pub open spec fn stream_of(item: TorznabItem, fallback: Seq<char>) -> Option<StreamView> {
    match url_of(item) {
        Some(url) => Some(
            released(
                url,
                item.title@,
                label_of(item, fallback),
                not_negative(item.attr_integer("seeders"@)),
                match item.bytes() {
                    Some(n) => if n > 0 {
                        Some(n)
                    } else {
                        None
                    },
                    None => None,
                },
            ),
        ),
        None => None,
    }
}

/// `stream_of` with its fallback.
pub open spec fn stream_maker(fallback: Seq<char>) -> spec_fn(TorznabItem) -> Option<StreamView> {
    |item: TorznabItem| stream_of(item, fallback)
}

/// The number, or zero.
pub open spec fn or_zero(n: Option<int>) -> int {
    match n {
        Some(i) => i,
        None => 0,
    }
}

/// What is said of an item below its title.
pub open spec fn meta_of(item: TorznabItem) -> Seq<char> {
    let size = match item.bytes() {
        Some(n) => n as nat,
        None => 0nat,
    };
    let seeders = or_zero(item.attr_integer("seeders"@));
    let peers = or_zero(item.attr_integer("peers"@));
    let leechers = if peers - seeders < 0 {
        0
    } else {
        peers - seeders
    };
    humanized(size) + "  ↑"@ + signed(seeders) + " ↓"@ + signed(leechers) + "  "@ + (
    match item.jackettindexer {
        Some(j) => j.name@,
        None => seq![],
    })
}

/// The attribute of the given name, or the empty text.
pub open spec fn attr_or_empty(item: TorznabItem, name: Seq<char>) -> Seq<char> {
    match item.attr_value(name) {
        Some(s) => s,
        None => seq![],
    }
}

/// The IMDb id of an item, with `tt` at its head.
pub open spec fn imdb_of(item: TorznabItem) -> Option<Seq<char>> {
    let raw = match item.attr_value("imdbid"@) {
        Some(s) => Some(s),
        None => item.attr_value("imdb"@),
    };
    match raw {
        Some(s) => if s.len() == 0 {
            None
        } else if begins(s, "tt"@) {
            Some(s)
        } else {
            Some("tt"@ + s)
        },
        None => None,
    }
}

/// The entry that an item is. Its id holds the three things that it can be
/// played from, with `|` between them.
pub open spec fn entry_of(item: TorznabItem, kind: EntryKind) -> EntryView {
    EntryView {
        id: attr_or_empty(item, "infohash"@) + "|"@ + attr_or_empty(item, "magneturl"@) + "|"@
            + or_empty(item.link),
        kind,
        title: item.title@,
        description: match quality_of(uppercase(item.title@)) {
            Some(q) => Some(q + " · "@ + meta_of(item)),
            None => Some(meta_of(item)),
        },
        imdb_id: imdb_of(item),
        ..blank_entry()
    }
}

impl TorznabItem {
    /// The attribute of the given name, or the empty text.
    fn attr_text(&self, name: &str) -> (r: String)
        ensures
            r@ == attr_or_empty(*self, name@),
    {
        match self.attr(name) {
            Some(s) => s,
            None => String::new(),
        }
    }

    /// What the item is played from.
    fn url(&self) -> (r: Option<String>)
        ensures
            opt(r) == url_of(*self),
    {
        if let Some(m) = self.attr("magneturl") {
            if !m.as_str().is_empty() {
                return Some(m);
            }
        }
        if let Some(h) = self.attr("infohash") {
            if !h.as_str().is_empty() {
                return Some(bare_magnet_of(h.as_str(), self.title.as_str()));
            }
        }
        filled_text(&self.link)
    }

    /// The stream that the item is; none where it has nothing to be played from.
    pub fn into_stream(self, fallback_provider: &str) -> (r: Option<Stream>)
        ensures
            match r {
                Some(s) => stream_of(self, fallback_provider@) == Some(s@),
                None => stream_of(self, fallback_provider@) is None,
            },
    {
        let url = match self.url() {
            Some(u) => u,
            None => {
                return None;
            },
        };
        let seeders = match self.attr_i32("seeders") {
            Some(n) => Some(
                if n < 0 {
                    0
                } else {
                    n as u32
                },
            ),
            None => None,
        };
        let size_bytes = match self.size_or_attr() {
            Some(n) => if n > 0 {
                Some(n)
            } else {
                None
            },
            None => None,
        };
        let label = match &self.jackettindexer {
            Some(j) => if j.name.as_str().is_empty() {
                fallback_provider.to_owned()
            } else {
                j.name.clone()
            },
            None => fallback_provider.to_owned(),
        };
        Some(release_stream(url, self.title.as_str(), label, seeders, size_bytes))
    }

    /// What is said of the item below its title.
    fn meta(&self) -> (r: String)
        ensures
            r@ == meta_of(*self),
    {
        let size = match self.size_or_attr() {
            Some(n) => n,
            None => 0,
        };
        let seeders: i64 = match self.attr_i32("seeders") {
            Some(n) => n as i64,
            None => 0,
        };
        let peers: i64 = match self.attr_i32("peers") {
            Some(n) => n as i64,
            None => 0,
        };
        let leechers: i64 = if peers - seeders < 0 {
            0
        } else {
            peers - seeders
        };
        let mut out = cat5(
            humanize_bytes(size).as_str(),
            "  ↑",
            signed_text(seeders).as_str(),
            " ↓",
            signed_text(leechers).as_str(),
        );
        out.append("  ");
        match &self.jackettindexer {
            Some(j) => {
                out.append(j.name.as_str());
            },
            None => {
                assert(out@ + Seq::<char>::empty() =~= out@);
            },
        }
        out
    }

    /// The IMDb id of the item, with `tt` at its head.
    fn imdb(&self) -> (r: Option<String>)
        ensures
            opt(r) == imdb_of(*self),
    {
        let raw = match self.attr("imdbid") {
            Some(s) => Some(s),
            None => self.attr("imdb"),
        };
        match raw {
            Some(s) => if s.as_str().is_empty() {
                None
            } else if begins_with(to_chars(s.as_str()).as_slice(), "tt") {
                Some(s)
            } else {
                Some(cat("tt", s.as_str()))
            },
            None => None,
        }
    }

    /// The entry that the item is.
    pub fn into_entry(self, kind: EntryKind) -> (r: PluginEntry)
        ensures
            r@ == entry_of(self, kind),
    {
        let meta = self.meta();
        let description = match extract_quality(self.title.as_str()) {
            Some(q) => cat3(q.as_str(), " · ", meta.as_str()),
            None => meta,
        };
        let id = cat5(
            self.attr_text("infohash").as_str(),
            "|",
            self.attr_text("magneturl").as_str(),
            "|",
            text_or_empty(&self.link).as_str(),
        );
        let mut r = PluginEntry::default();
        r.id = id;
        r.kind = kind;
        r.imdb_id = self.imdb();
        r.title = self.title;
        r.description = Some(description);
        assert(r@ =~= entry_of(self, kind));
        r
    }
}

/// The address of a search on the server.
pub open spec fn torznab_url(
    base_url: Seq<char>,
    api_key: Seq<char>,
    t: Seq<char>,
    q: Seq<char>,
    season: Option<u32>,
    ep: Option<u32>,
    cats: Seq<char>,
) -> Seq<char> {
    let url = base_url + "/api/v2.0/indexers/all/results/torznab/api?apikey="@ + api_key + "&t="@
        + t + "&q="@ + encoded(q) + "&cat="@ + cats;
    let url = match season {
        Some(s) => url + ("&season="@ + decimal(s as nat)),
        None => url,
    };
    match ep {
        Some(e) => url + ("&ep="@ + decimal(e as nat)),
        None => url,
    }
}

/// Builds the address of a search on the server. `t` is the operation, `cats`
/// a list of categories with commas between them.
pub fn build_torznab_url(
    base_url: &str,
    api_key: &str,
    t: &str,
    q: &str,
    season: Option<u32>,
    ep: Option<u32>,
    cats: &str,
) -> (r: String)
    ensures
        r@ == torznab_url(base_url@, api_key@, t@, q@, season, ep, cats@),
{
    let mut url = cat5(
        base_url,
        "/api/v2.0/indexers/all/results/torznab/api?apikey=",
        api_key,
        "&t=",
        t,
    );
    url.append("&q=");
    url.append(url_encode(q).as_str());
    url.append("&cat=");
    url.append(cats);
    if let Some(s) = season {
        url.append(cat("&season=", decimal_text(s as u64).as_str()).as_str());
    }
    if let Some(e) = ep {
        url.append(cat("&ep=", decimal_text(e as u64).as_str()).as_str());
    }
    url
}

/// The operation and the categories for a scope.
pub open spec fn scope_search(scope: SearchScope) -> (Seq<char>, Seq<char>) {
    match scope {
        SearchScope::Movie => ("movie"@, "2000,2010,2020,2030"@),
        SearchScope::Series | SearchScope::Episode => ("tvsearch"@, "5000,5020,5040,5070,5080"@),
        SearchScope::Track | SearchScope::Artist | SearchScope::Album => (
            "music"@,
            "3000,3010,3020,3040"@,
        ),
    }
}

/// The kind of the entries for a scope.
pub open spec fn scope_kind(scope: SearchScope) -> EntryKind {
    match scope {
        SearchScope::Series | SearchScope::Episode => EntryKind::Series,
        SearchScope::Track | SearchScope::Artist | SearchScope::Album => EntryKind::Track,
        SearchScope::Movie => EntryKind::Movie,
    }
}

/// The kind of the entries for a scope.
pub fn kind_for(scope: SearchScope) -> (r: EntryKind)
    ensures
        r == scope_kind(scope),
{
    match scope {
        SearchScope::Series | SearchScope::Episode => EntryKind::Series,
        SearchScope::Track | SearchScope::Artist | SearchScope::Album => EntryKind::Track,
        SearchScope::Movie => EntryKind::Movie,
    }
}

/// The operation and the categories for a kind.
pub open spec fn kind_search(kind: EntryKind) -> (Seq<char>, Seq<char>) {
    match kind {
        EntryKind::Movie => ("movie"@, "2000,2010,2020,2030"@),
        EntryKind::Series | EntryKind::Episode => ("tvsearch"@, "5000,5020,5040,5070,5080"@),
        _ => ("search"@, "2000,5000"@),
    }
}

/// What is searched for: the title, and the year of a movie.
pub open spec fn movie_query(req: FindStreamsRequest) -> Seq<char> {
    if req.kind == EntryKind::Movie && req.year is Some {
        req.title@ + " "@ + decimal(req.year->0 as nat)
    } else {
        req.title@
    }
}

/// The answer that the settings lack the key.
pub open spec fn config_error<T>() -> Result<T, (Seq<char>, Seq<char>)> {
    Err(("CONFIG_ERROR"@, no_key()))
}

/// The page that a search is answered from.
pub open spec fn search_step(cache: Map<Seq<char>, String>, req: SearchRequest) -> StepView<
    Result<(Seq<EntryView>, u32), (Seq<char>, Seq<char>)>,
> {
    if api_key(cache).len() == 0 {
        StepView::Answer(config_error())
    } else {
        let (t, cats) = scope_search(req.scope);
        StepView::Fetch(
            torznab_url(base_url(cache), api_key(cache), t, req.query@, None, None, cats),
        )
    }
}

/// The page that a request for streams is answered from.
pub open spec fn streams_step(cache: Map<Seq<char>, String>, req: FindStreamsRequest) -> StepView<
    Result<Seq<StreamView>, (Seq<char>, Seq<char>)>,
> {
    if api_key(cache).len() == 0 {
        StepView::Answer(config_error())
    } else {
        let (t, cats) = kind_search(req.kind);
        StepView::Fetch(
            torznab_url(
                base_url(cache),
                api_key(cache),
                t,
                movie_query(req),
                req.season,
                req.episode,
                cats,
            ),
        )
    }
}

/// What a search answers to a reply: an entry for each item, up to the limit.
pub open spec fn search_outcome(
    reply: Reply<Vec<TorznabItem>>,
    scope: SearchScope,
    limit: u32,
) -> Result<(Seq<EntryView>, u32), (Seq<char>, Seq<char>)> {
    match reply {
        Reply::HttpError(e) => Err(("HTTP_ERROR"@, e@)),
        Reply::ParseError(e) => Err(("PARSE_ERROR"@, e@)),
        Reply::Parsed(items) => {
            let n = if items@.len() < limit {
                items@.len()
            } else {
                limit as nat
            };
            Ok((Seq::new(n, |i: int| entry_of(items@[i], scope_kind(scope))), n as u32))
        },
    }
}

/// What a request for streams answers to a reply: the items that can be
/// played.
pub open spec fn streams_outcome(
    reply: Reply<Vec<TorznabItem>>,
    name: Seq<char>,
) -> Result<Seq<StreamView>, (Seq<char>, Seq<char>)> {
    match reply {
        Reply::HttpError(e) => Err(("HTTP_ERROR"@, e@)),
        Reply::ParseError(e) => Err(("PARSE_ERROR"@, e@)),
        Reply::Parsed(items) => Ok(collect_some(items@, stream_maker(name))),
    }
}

impl JackettProvider {
    /// The provider with its manifest.
    pub fn new(manifest: PluginManifest) -> (r: Self)
        ensures
            r.manifest == manifest,
    {
        JackettProvider { manifest }
    }

    /// Begins a search: the page to fetch, or the error that the key is missing.
    pub fn search(&self, cache: &Table<String>, req: &SearchRequest) -> (r: Step<SearchAnswer>)
        ensures
            r@ == search_step(cache@, *req),
    {
        let cfg = match Config::load(cache) {
            Ok(c) => c,
            Err(e) => {
                return Step::Answer(PluginResult::err("CONFIG_ERROR", e.as_str()));
            },
        };
        let (t, cats) = match req.scope {
            SearchScope::Movie => ("movie", "2000,2010,2020,2030"),
            SearchScope::Series | SearchScope::Episode => ("tvsearch", "5000,5020,5040,5070,5080"),
            SearchScope::Track | SearchScope::Artist | SearchScope::Album => (
                "music",
                "3000,3010,3020,3040",
            ),
        };
        Step::Fetch(
            build_torznab_url(
                cfg.base_url.as_str(),
                cfg.api_key.as_str(),
                t,
                req.query.as_str(),
                None,
                None,
                cats,
            ),
        )
    }

    /// Ends a search: an entry for each item, up to the limit.
    pub fn search_reply(
        &self,
        reply: Reply<Vec<TorznabItem>>,
        scope: SearchScope,
        limit: u32,
    ) -> (r: SearchAnswer)
        ensures
            r@ == search_outcome(reply, scope, limit),
    {
        match reply {
            Reply::HttpError(e) => PluginResult::err("HTTP_ERROR", e.as_str()),
            Reply::ParseError(e) => PluginResult::err("PARSE_ERROR", e.as_str()),
            Reply::Parsed(items) => {
                let kind = kind_for(scope);
                let ghost all = items@;
                let mut out: Vec<PluginEntry> = Vec::new();
                for item in it: items
                    invariant
                        it.seq() == all,
                        kind == scope_kind(scope),
                        out@.len() <= limit,
                        out@.len() <= it.index(),
                        out@.len() == it.index() || out@.len() == limit,
                        forall|k: int|
                            0 <= k < out@.len() ==> (#[trigger] out@[k])@ == entry_of(
                                all[k],
                                kind,
                            ),
                {
                    if (out.len() as u64) < limit as u64 {
                        out.push(item.into_entry(kind));
                    }
                }
                let total = out.len() as u32;
                proof {
                    let n = if all.len() < limit {
                        all.len()
                    } else {
                        limit as nat
                    };
                    assert(views(out@) =~= Seq::new(n, |i: int| entry_of(all[i], scope_kind(scope))));
                }
                PluginResult::ok(SearchResponse { items: out, total })
            },
        }
    }

    /// Begins a request for streams: the page to fetch, or the error that the
    /// key is missing.
    pub fn find_streams(&self, cache: &Table<String>, req: &FindStreamsRequest) -> (r: Step<
        StreamsAnswer,
    >)
        ensures
            r@ == streams_step(cache@, *req),
    {
        let cfg = match Config::load(cache) {
            Ok(c) => c,
            Err(e) => {
                return Step::Answer(PluginResult::err("CONFIG_ERROR", e.as_str()));
            },
        };
        let (t, cats) = match req.kind {
            EntryKind::Movie => ("movie", "2000,2010,2020,2030"),
            EntryKind::Series | EntryKind::Episode => ("tvsearch", "5000,5020,5040,5070,5080"),
            _ => ("search", "2000,5000"),
        };
        let q = match (req.kind, req.year) {
            (EntryKind::Movie, Some(y)) => cat3(
                req.title.as_str(),
                " ",
                decimal_text(y as u64).as_str(),
            ),
            _ => req.title.clone(),
        };
        Step::Fetch(
            build_torznab_url(
                cfg.base_url.as_str(),
                cfg.api_key.as_str(),
                t,
                q.as_str(),
                req.season,
                req.episode,
                cats,
            ),
        )
    }

    /// Ends a request for streams: the items that can be played.
    pub fn find_streams_reply(&self, reply: Reply<Vec<TorznabItem>>) -> (r: StreamsAnswer)
        ensures
            r@ == streams_outcome(reply, self.manifest.plugin.name@),
    {
        let name = self.manifest.plugin.name.as_str();
        match reply {
            Reply::HttpError(e) => PluginResult::err("HTTP_ERROR", e.as_str()),
            Reply::ParseError(e) => PluginResult::err("PARSE_ERROR", e.as_str()),
            Reply::Parsed(items) => {
                let ghost all = items@;
                let mut streams: Vec<Stream> = Vec::new();
                for item in it: items
                    invariant
                        it.seq() == all,
                        views(streams@) == collect_some(
                            all.take(it.index() as int),
                            stream_maker(name@),
                        ),
                {
                    proof {
                        lemma_collect_step(all, stream_maker(name@), it.index() as int);
                    }
                    let ghost before = views(streams@);
                    if let Some(s) = item.into_stream(name) {
                        streams.push(s);
                        assert(views(streams@) =~= before.push(s@));
                    }
                }
                assert(all.take(all.len() as int) =~= all);
                PluginResult::ok(FindStreamsResponse { streams })
            },
        }
    }
}

/// A search lists no more entries than it was asked for, and its total is
/// their number.
pub proof fn search_keeps_the_limit(reply: Reply<Vec<TorznabItem>>, scope: SearchScope, limit: u32)
    ensures
        search_outcome(reply, scope, limit) matches Ok((items, total)) ==> items.len() <= limit
            && total == items.len(),
{
}

/// Every stream that is handed out can be played: its address is not empty.
pub proof fn streams_have_addresses(items: Seq<TorznabItem>, name: Seq<char>, k: int)
    requires
        0 <= k < collect_some(items, stream_maker(name)).len(),
    ensures
        collect_some(items, stream_maker(name))[k].url.len() > 0,
{
    lemma_collect_from(items, stream_maker(name), k);
    let j = choose|j: int|
        0 <= j < items.len() && stream_maker(name)(#[trigger] items[j]) == Some(
            collect_some(items, stream_maker(name))[k],
        );
    assert(stream_of(items[j], name) is Some);
    reveal_strlit("magnet:?xt=urn:btih:");
}

/// A list of numbers of four digits, the first of which is `d`, with commas
/// between them.
pub open spec fn thousands(cats: Seq<char>, d: char) -> bool {
    cats.len() % 5 == 4 && forall|i: int|
        0 <= i < cats.len() ==> if i % 5 == 0 {
            #[trigger] cats[i] == d
        } else if i % 5 == 4 {
            cats[i] == ','
        } else {
            digit(cats[i])
        }
}

/// The categories of movies, of series and of music are those from two, five
/// and three thousand.
pub proof fn lemma_categories()
    ensures
        thousands("2000,2010,2020,2030"@, '2'),
        thousands("5000,5020,5040,5070,5080"@, '5'),
        thousands("3000,3010,3020,3040"@, '3'),
{
    reveal_strlit("2000,2010,2020,2030");
    reveal_strlit("5000,5020,5040,5070,5080");
    reveal_strlit("3000,3010,3020,3040");
    let m = "2000,2010,2020,2030"@;
    assert forall|i: int| 0 <= i < m.len() implies if i % 5 == 0 {
        #[trigger] m[i] == '2'
    } else if i % 5 == 4 {
        m[i] == ','
    } else {
        digit(m[i])
    } by {
        assert(i == 0 || i == 1 || i == 2 || i == 3 || i == 4 || i == 5 || i == 6 || i == 7 || i
            == 8 || i == 9 || i == 10 || i == 11 || i == 12 || i == 13 || i == 14 || i == 15 || i
            == 16 || i == 17 || i == 18);
    }
    let s = "5000,5020,5040,5070,5080"@;
    assert forall|i: int| 0 <= i < s.len() implies if i % 5 == 0 {
        #[trigger] s[i] == '5'
    } else if i % 5 == 4 {
        s[i] == ','
    } else {
        digit(s[i])
    } by {
        assert(i == 0 || i == 1 || i == 2 || i == 3 || i == 4 || i == 5 || i == 6 || i == 7 || i
            == 8 || i == 9 || i == 10 || i == 11 || i == 12 || i == 13 || i == 14 || i == 15 || i
            == 16 || i == 17 || i == 18 || i == 19 || i == 20 || i == 21 || i == 22 || i == 23);
    }
    let t = "3000,3010,3020,3040"@;
    assert forall|i: int| 0 <= i < t.len() implies if i % 5 == 0 {
        #[trigger] t[i] == '3'
    } else if i % 5 == 4 {
        t[i] == ','
    } else {
        digit(t[i])
    } by {
        assert(i == 0 || i == 1 || i == 2 || i == 3 || i == 4 || i == 5 || i == 6 || i == 7 || i
            == 8 || i == 9 || i == 10 || i == 11 || i == 12 || i == 13 || i == 14 || i == 15 || i
            == 16 || i == 17 || i == 18);
    }
}

/// A search asks the server and with the key that are set, for the query and
/// in the categories of its scope alone: series and episodes with `tvsearch`
/// from five to six thousand, movies with `movie` from two to three thousand,
/// music with `music` from three to four thousand.
pub proof fn searches_keep_to_their_scope(cache: Map<Seq<char>, String>, req: SearchRequest)
    requires
        env_value(cache, "JACKETT_API_KEY"@, ""@).len() > 0,
    ensures
        ({
            let (t, cats) = scope_search(req.scope);
            &&& search_step(cache, req) == StepView::<
                Result<(Seq<EntryView>, u32), (Seq<char>, Seq<char>)>,
            >::Fetch(
                env_value(cache, "JACKETT_URL"@, "http://localhost:9117"@)
                    + "/api/v2.0/indexers/all/results/torznab/api?apikey="@ + env_value(
                    cache,
                    "JACKETT_API_KEY"@,
                    ""@,
                ) + "&t="@ + t + "&q="@ + encoded(req.query@) + "&cat="@ + cats,
            )
            &&& req.scope == SearchScope::Series || req.scope == SearchScope::Episode ==> t
                == "tvsearch"@ && thousands(cats, '5') && cats == "5000,5020,5040,5070,5080"@
            &&& req.scope == SearchScope::Movie ==> t == "movie"@ && thousands(cats, '2') && cats
                == "2000,2010,2020,2030"@
            &&& req.scope == SearchScope::Track || req.scope == SearchScope::Artist || req.scope
                == SearchScope::Album ==> t == "music"@ && thousands(cats, '3') && cats
                == "3000,3010,3020,3040"@
        }),
{
    lemma_categories();
}

/// Streams are asked for in the same way: those of a movie with its year and
/// in the categories of movies, those of a series or an episode in the
/// categories of series, and others in both; season and episode are named
/// wherever the request names them.
pub proof fn streams_are_asked_for_by_kind(cache: Map<Seq<char>, String>, req: FindStreamsRequest)
    requires
        env_value(cache, "JACKETT_API_KEY"@, ""@).len() > 0,
    ensures
        ({
            let head = env_value(cache, "JACKETT_URL"@, "http://localhost:9117"@)
                + "/api/v2.0/indexers/all/results/torznab/api?apikey="@ + env_value(
                cache,
                "JACKETT_API_KEY"@,
                ""@,
            );
            let asked = match req.kind {
                EntryKind::Movie => head + "&t="@ + "movie"@ + "&q="@ + encoded(
                    match req.year {
                        Some(y) => req.title@ + " "@ + decimal(y as nat),
                        None => req.title@,
                    },
                ) + "&cat="@ + "2000,2010,2020,2030"@,
                EntryKind::Series | EntryKind::Episode => head + "&t="@ + "tvsearch"@ + "&q="@
                    + encoded(req.title@) + "&cat="@ + "5000,5020,5040,5070,5080"@,
                _ => head + "&t="@ + "search"@ + "&q="@ + encoded(req.title@) + "&cat="@
                    + "2000,5000"@,
            };
            let seasoned = match req.season {
                Some(s) => asked + ("&season="@ + decimal(s as nat)),
                None => asked,
            };
            streams_step(cache, req) == StepView::<
                Result<Seq<StreamView>, (Seq<char>, Seq<char>)>,
            >::Fetch(
                match req.episode {
                    Some(e) => seasoned + ("&ep="@ + decimal(e as nat)),
                    None => seasoned,
                },
            )
        }),
{
}

/// Without a key nothing is asked, and the answer says so.
pub proof fn key_is_needed(
    cache: Map<Seq<char>, String>,
    search: SearchRequest,
    streams: FindStreamsRequest,
)
    requires
        env_value(cache, "JACKETT_API_KEY"@, ""@).len() == 0,
    ensures
        search_step(cache, search) matches StepView::Answer(Err(e)) && e == (
            "CONFIG_ERROR"@,
            "JACKETT_API_KEY is not set. Add it to ~/.config/stui/config.toml or set the env var."@,
        ),
        streams_step(cache, streams) matches StepView::Answer(Err(e)) && e == (
            "CONFIG_ERROR"@,
            "JACKETT_API_KEY is not set. Add it to ~/.config/stui/config.toml or set the env var."@,
        ),
{
}

/// An attribute is found exactly where an item has one of the name, and the
/// first of them counts.
pub proof fn first_attribute_counts(item: TorznabItem, name: Seq<char>, i: int)
    requires
        0 <= i < item.attrs@.len(),
        item.attrs@[i].name@ == name,
        forall|j: int| 0 <= j < i ==> (#[trigger] item.attrs@[j]).name@ != name,
    ensures
        item.attr_value(name) == Some(item.attrs@[i].value@),
{
    lemma_attr(item.attrs@, name, 0, i);
}

/// An attribute that no item of the list has is not found.
pub proof fn missing_attribute_is_not_found(item: TorznabItem, name: Seq<char>)
    requires
        forall|j: int| 0 <= j < item.attrs@.len() ==> (#[trigger] item.attrs@[j]).name@ != name,
    ensures
        item.attr_value(name) is None,
{
    lemma_attr(item.attrs@, name, 0, item.attrs@.len() as int);
}

/// The search for an attribute goes on up to the first of the name.
proof fn lemma_attr(attrs: Seq<TorznabAttr>, name: Seq<char>, from: int, i: int)
    requires
        0 <= from <= i <= attrs.len(),
        forall|j: int| from <= j < i ==> (#[trigger] attrs[j]).name@ != name,
    ensures
        i == attrs.len() ==> attr_from(attrs, name, from) is None,
        i < attrs.len() && attrs[i].name@ == name ==> attr_from(attrs, name, from) == Some(
            attrs[i].value@,
        ),
    decreases i - from,
{
    if from < i {
        assert(attrs[from].name@ != name);
        lemma_attr(attrs, name, from + 1, i);
    }
}

/// A stream is played from the magnet link that the item names, or else from
/// one made of its hash and title, or else from its torrent file; an item with
/// none of these is not handed out. The stream has the title of the item, the
/// name of its tracker, and its seeders and bytes where they are told.
pub proof fn streams_tell_what_items_tell(item: TorznabItem, fallback: Seq<char>)
    ensures
        stream_maker(fallback)(item) == stream_of(item, fallback),
        ({
            let magnet = item.attr_value("magneturl"@);
            let hash = item.attr_value("infohash"@);
            let linked = item.link matches Some(l) && l@.len() > 0;
            let named = magnet matches Some(m) && m.len() > 0;
            let hashed = hash matches Some(h) && h.len() > 0;
            &&& stream_of(item, fallback) is Some <==> named || hashed || linked
            &&& stream_of(item, fallback) matches Some(s) ==> {
                &&& named ==> Some(s.url) == magnet
                &&& !named && hashed ==> s.url == "magnet:?xt=urn:btih:"@ + hash->0 + "&dn="@
                    + encoded(item.title@)
                &&& !named && !hashed ==> s.url == item.link->0@
                &&& s.title == item.title@
                &&& (item.jackettindexer matches Some(j) && j.name@.len() > 0) ==> s.provider
                    == item.jackettindexer->0.name@
                &&& item.jackettindexer is None ==> s.provider == fallback
                &&& (item.jackettindexer matches Some(j) && j.name@.len() == 0) ==> s.provider
                    == fallback
                &&& s.seeders == match item.attr_value("seeders"@) {
                    Some(t) => match integer(t, 0x7fff_ffff) {
                        Some(n) => Some(
                            if n < 0 {
                                0u32
                            } else {
                                n as u32
                            },
                        ),
                        None => None,
                    },
                    None => None,
                }
                &&& (item.size matches Some(n) && n > 0) ==> s.size_bytes == item.size
                &&& item.size == Some(0u64) ==> s.size_bytes is None
                &&& item.size is None && item.attr_value("size"@) is None ==> s.size_bytes is None
                &&& item.size is None ==> (item.attr_value("size"@) matches Some(t) ==> (natural(
                    t,
                    u64::MAX as nat,
                ) matches Some(n) ==> s.size_bytes == if n > 0 {
                    Some(n as u64)
                } else {
                    None
                }))
                &&& s.quality == quality_of(uppercase(item.title@))
                &&& s.codec == codec_of(uppercase(item.title@))
                &&& s.source == source_of(uppercase(item.title@))
                &&& s.hdr == hdr_of(uppercase(item.title@))
            }
        }),
{
}

/// Every item that can be played is handed out, in the order in which they
/// came, and what went wrong is told by its code.
pub proof fn no_item_is_lost(items: Vec<TorznabItem>, name: Seq<char>, e: String)
    ensures
        streams_outcome(Reply::Parsed(items), name) matches Ok(s) && picks(
            items@,
            stream_maker(name),
            s,
        ),
        streams_outcome(Reply::HttpError(e), name) == Err::<
            Seq<StreamView>,
            (Seq<char>, Seq<char>),
        >(("HTTP_ERROR"@, e@)),
        streams_outcome(Reply::ParseError(e), name) == Err::<
            Seq<StreamView>,
            (Seq<char>, Seq<char>),
        >(("PARSE_ERROR"@, e@)),
{
    collected_is_picked(items@, stream_maker(name));
}

/// A scope lists entries of its own kind: those of an episode are series, and
/// everything in music is a track.
pub proof fn scopes_list_their_kind(scope: SearchScope)
    ensures
        scope == SearchScope::Movie <==> scope_kind(scope) == EntryKind::Movie,
        scope == SearchScope::Series || scope == SearchScope::Episode <==> scope_kind(scope)
            == EntryKind::Series,
        scope == SearchScope::Track || scope == SearchScope::Artist || scope == SearchScope::Album
            <==> scope_kind(scope) == EntryKind::Track,
{
}

/// Entries are the first items of the answer, as many as are asked for and
/// there are, each in its place and of the kind of the scope.
pub proof fn entries_are_the_first_items(
    items: Vec<TorznabItem>,
    scope: SearchScope,
    limit: u32,
    e: String,
)
    ensures
        search_outcome(Reply::Parsed(items), scope, limit) matches Ok((entries, total)) && {
            &&& entries.len() == total
            &&& entries.len() <= limit && entries.len() <= items@.len()
            &&& entries.len() == limit || entries.len() == items@.len()
            &&& forall|i: int|
                0 <= i < entries.len() ==> #[trigger] entries[i] == entry_of(
                    items@[i],
                    scope_kind(scope),
                )
        },
        search_outcome(Reply::HttpError(e), scope, limit) == Err::<
            (Seq<EntryView>, u32),
            (Seq<char>, Seq<char>),
        >(("HTTP_ERROR"@, e@)),
        search_outcome(Reply::ParseError(e), scope, limit) == Err::<
            (Seq<EntryView>, u32),
            (Seq<char>, Seq<char>),
        >(("PARSE_ERROR"@, e@)),
{
}

/// An entry tells title and kind of the item. Its description begins with the
/// quality that the title names, where it names one, and goes on with size,
/// seeders, leechers and tracker.
pub proof fn entries_tell_what_items_tell(
    item: TorznabItem,
    kind: EntryKind,
    size: u64,
    seeders: int,
    peers: int,
)
    requires
        item.size == Some(size),
        item.attr_value("seeders"@) == Some(signed(seeders)),
        item.attr_value("peers"@) == Some(signed(peers)),
        -0x8000_0000 <= seeders <= 0x7fff_ffff,
        -0x8000_0000 <= peers <= 0x7fff_ffff,
    ensures
        ({
            let entry = entry_of(item, kind);
            let leechers = if peers > seeders {
                peers - seeders
            } else {
                0
            };
            let tracker = match item.jackettindexer {
                Some(j) => j.name@,
                None => seq![],
            };
            let meta = humanized(size as nat) + "  ↑"@ + signed(seeders) + " ↓"@ + signed(leechers)
                + "  "@ + tracker;
            &&& entry.title == item.title@
            &&& entry.kind == kind
            &&& quality_of(uppercase(item.title@)) matches Some(q) ==> entry.description == Some(
                q + " · "@ + meta,
            )
            &&& quality_of(uppercase(item.title@)) is None ==> entry.description == Some(meta)
            &&& entry.year is None && entry.poster_url is None && entry.genre is None
        }),
{
    signed_reads_back(seeders, 0x7fff_ffff);
    signed_reads_back(peers, 0x7fff_ffff);
}

/// An entry is found again by its hash, its magnet link and its torrent file,
/// as far as the item has them, with a bar between them.
pub proof fn entries_are_found_again(item: TorznabItem, kind: EntryKind)
    ensures
        ({
            let hash = match item.attr_value("infohash"@) {
                Some(h) => h,
                None => seq![],
            };
            let magnet = match item.attr_value("magneturl"@) {
                Some(m) => m,
                None => seq![],
            };
            let link = match item.link {
                Some(l) => l@,
                None => seq![],
            };
            entry_of(item, kind).id == hash + "|"@ + magnet + "|"@ + link
        }),
{
}

/// The IMDb id of an item is told with `tt` before it, whether the item writes
/// it so or not; the attribute `imdbid` counts before `imdb`.
pub proof fn ids_begin_with_letters(item: TorznabItem, kind: EntryKind)
    ensures
        ({
            let given = if item.attr_value("imdbid"@) is Some {
                item.attr_value("imdbid"@)
            } else {
                item.attr_value("imdb"@)
            };
            let id = entry_of(item, kind).imdb_id;
            &&& id is Some <==> (given matches Some(s) && s.len() > 0)
            &&& id matches Some(i) ==> begins(i, "tt"@) && (i == given->0 || i == "tt"@
                + given->0)
            &&& id matches Some(i) ==> begins(given->0, "tt"@) ==> i == given->0
        }),
{
    if let Some(s) = item.attr_value("imdbid"@) {
        lemma_ends_of("tt"@, s);
    }
    if let Some(s) = item.attr_value("imdb"@) {
        lemma_ends_of("tt"@, s);
    }
}

/// What an item does not tell counts as zero in the description.
pub proof fn missing_counts_are_zero(item: TorznabItem, kind: EntryKind)
    requires
        item.size is None,
        item.attr_value("size"@) is None,
        item.attr_value("seeders"@) is None,
        item.attr_value("peers"@) is None,
        item.jackettindexer is None,
        quality_of(uppercase(item.title@)) is None,
    ensures
        entry_of(item, kind).description == Some(
            humanized(0) + "  ↑"@ + signed(0) + " ↓"@ + signed(0) + "  "@,
        ),
{
    let meta = humanized(0) + "  ↑"@ + signed(0) + " ↓"@ + signed(0) + "  "@;
    assert(meta + Seq::<char>::empty() =~= meta);
}

/// Where an item does not tell its size itself, the attribute does.
pub proof fn attribute_tells_the_size(item: TorznabItem, n: nat)
    requires
        n <= u64::MAX,
    ensures
        item.size is Some ==> item.bytes() == item.size,
        item.size is None && item.attr_value("size"@) == Some(decimal(n)) ==> item.bytes() == Some(
            n as u64,
        ),
        item.size is None && item.attr_value("size"@) is None ==> item.bytes() is None,
{
    lemma_natural_decimal(n, u64::MAX as nat);
}

} // verus!
