//! Finds releases through TorAPI, which asks several trackers at once.

use vstd::prelude::*;

use crate::env::{env_or, env_value};
use crate::magnet::{links_hold_what_they_are_made_of, magnet, synth_magnet};
use crate::providers::common::{
    count_of, filled, filled_text, parse_count, release_stream, released, Reply, SearchAnswer, Step,
    StepView, StreamsAnswer,
};
use crate::release::{codec_of, hdr_of, quality_of, source_of};
use crate::sdk::manifest::PluginManifest;
use crate::sdk::plugin::Plugin;
use crate::sdk::result::{views, PluginResult};
use crate::sdk::types::{
    EntryView, FindStreamsRequest, FindStreamsResponse, SearchRequest, Stream, StreamView,
};
use crate::text::case::uppercase;
use crate::text::cat::{cat3, cat5};
use crate::text::chars::{to_chars, to_text};
use crate::text::find::begins;
use crate::text::list::{
    collect_some, collected_is_picked, lemma_collect_from, lemma_collect_step, picks,
};
use crate::text::number::{decimal, decimal_text};
use crate::text::percent::{encoded, url_encode};
use crate::text::table::Table;
use crate::text::trim::{trim, trim_end_char, trim_tail_char, trim_text};

verus! {

/// The provider.
pub struct TorApiProvider {
    pub manifest: PluginManifest,
}

impl Plugin for TorApiProvider {
    fn manifest(&self) -> (r: &PluginManifest)
        ensures
            *r == self.manifest,
    {
        &self.manifest
    }
}

/// Where the service is, and how many results are asked of it.
#[derive(Debug)]
pub struct Config {
    pub base_url: String,
    pub limit: String,
}

/// The service's address in the host's settings.
pub open spec fn base_url(cache: Map<Seq<char>, String>) -> Seq<char> {
    env_value(cache, "TORAPI_BASE_URL"@, "https://torapi.vercel.app"@)
}

/// The limit in the host's settings.
pub open spec fn limit(cache: Map<Seq<char>, String>) -> Seq<char> {
    env_value(cache, "TORAPI_LIMIT"@, "20"@)
}

impl Config {
    /// Reads the settings.
    pub fn load(cache: &Table<String>) -> (r: Config)
        ensures
            r.base_url@ == base_url(cache@),
            r.limit@ == limit(cache@),
    {
        Config {
            base_url: env_or(cache, "TORAPI_BASE_URL", "https://torapi.vercel.app"),
            limit: env_or(cache, "TORAPI_LIMIT", "20"),
        }
    }
}

/// What is searched for: the title and the year. Nothing where there is no title.
pub open spec fn query_of(req: FindStreamsRequest) -> Seq<char> {
    let title = trim(req.title@);
    if title.len() == 0 {
        seq![]
    } else {
        match req.year {
            Some(y) => title + " "@ + decimal(y as nat),
            None => title,
        }
    }
}

/// What is searched for.
pub fn build_query(req: &FindStreamsRequest) -> (r: String)
    ensures
        r@ == query_of(*req),
{
    let title = trim_text(req.title.as_str());
    if title.as_str().is_empty() {
        return String::new();
    }
    match req.year {
        Some(y) => cat3(title.as_str(), " ", decimal_text(y as u64).as_str()),
        None => title,
    }
}

/// One result of a tracker.
#[derive(Debug, Clone)]
pub struct TorApiItem {
    pub name: String,
    /// Only some trackers give it.
    pub hash: Option<String>,
    /// Where the torrent file is.
    pub torrent: Option<String>,
    /// The written size in bytes.
    pub size_bytes: Option<u64>,
    pub seeds: Option<String>,
    pub peers: Option<String>,
}

/// The results of the trackers.
#[derive(Debug, Clone)]
pub struct TorApiResponse {
    pub rutracker: Vec<TorApiItem>,
    pub kinozal: Vec<TorApiItem>,
    pub rutor: Vec<TorApiItem>,
    pub nonameclub: Vec<TorApiItem>,
}

/// What a result is played from: a magnet link made of its hash, or its
/// torrent file.
pub open spec fn url_of(item: TorApiItem) -> Option<Seq<char>> {
    match filled(item.hash) {
        Some(h) => Some(magnet(h, encoded(item.name@))),
        None => filled(item.torrent),
    }
}

/// The stream that a result is, where it can be played.
pub open spec fn stream_of(item: TorApiItem, label: Seq<char>) -> Option<StreamView> {
    match url_of(item) {
        Some(url) => Some(
            released(url, item.name@, label, count_of(item.seeds), item.size_bytes),
        ),
        None => None,
    }
}

/// `stream_of` with the name of its tracker.
pub open spec fn stream_maker(label: Seq<char>) -> spec_fn(TorApiItem) -> Option<StreamView> {
    |item: TorApiItem| stream_of(item, label)
}

impl TorApiItem {
    /// The stream that the result is; none where it has nothing to be played from.
    pub fn into_stream(self, provider_label: &str) -> (r: Option<Stream>)
        ensures
            match r {
                Some(s) => stream_of(self, provider_label@) == Some(s@),
                None => stream_of(self, provider_label@) is None,
            },
    {
        let url = match filled_text(&self.hash) {
            Some(h) => synth_magnet(h.as_str(), url_encode(self.name.as_str()).as_str()),
            None => match filled_text(&self.torrent) {
                Some(t) => t,
                None => {
                    return None;
                },
            },
        };
        let seeders = parse_count(&self.seeds);
        let label = provider_label.to_owned();
        Some(release_stream(url, self.name.as_str(), label, seeders, self.size_bytes))
    }
}

/// The streams of all trackers but RuTracker, whose torrent files cannot be
/// had without an account.
pub open spec fn streams_of(resp: TorApiResponse) -> Seq<StreamView> {
    collect_some(resp.rutor@, stream_maker("RuTor"@)) + collect_some(
        resp.kinozal@,
        stream_maker("Kinozal"@),
    ) + collect_some(resp.nonameclub@, stream_maker("NoNameClub"@))
}

/// Appends the streams of one tracker.
fn push_streams(streams: &mut Vec<Stream>, items: Vec<TorApiItem>, label: &str)
    ensures
        views(final(streams)@) == views(old(streams)@) + collect_some(
            items@,
            stream_maker(label@),
        ),
{
    let ghost all = items@;
    let ghost first = views(streams@);
    assert(first + collect_some(all.take(0), stream_maker(label@)) =~= first);
    for item in it: items
        invariant
            it.seq() == all,
            views(streams@) == first + collect_some(
                all.take(it.index() as int),
                stream_maker(label@),
            ),
    {
        proof {
            lemma_collect_step(all, stream_maker(label@), it.index() as int);
        }
        let ghost before = views(streams@);
        let ghost so_far = collect_some(all.take(it.index() as int), stream_maker(label@));
        if let Some(s) = item.into_stream(label) {
            streams.push(s);
            assert(views(streams@) =~= before.push(s@));
            assert((first + so_far).push(s@) =~= first + so_far.push(s@));
        }
    }
    assert(all.take(all.len() as int) =~= all);
}

/// The address of a search.
pub open spec fn search_url(cache: Map<Seq<char>, String>, query: Seq<char>) -> Seq<char> {
    trim_end_char(base_url(cache), '/') + "/api/search/title/all?query="@ + encoded(query)
        + "&limit="@ + limit(cache)
}

/// The page that a request for streams is answered from. Nothing is found
/// where there is no title.
pub open spec fn streams_step(cache: Map<Seq<char>, String>, req: FindStreamsRequest) -> StepView<
    Result<Seq<StreamView>, (Seq<char>, Seq<char>)>,
> {
    if query_of(req).len() == 0 {
        StepView::Answer(Ok(seq![]))
    } else {
        StepView::Fetch(search_url(cache, query_of(req)))
    }
}

/// What a request for streams answers to a reply: the results that can be
/// played.
pub open spec fn streams_outcome(reply: Reply<TorApiResponse>) -> Result<
    Seq<StreamView>,
    (Seq<char>, Seq<char>),
> {
    match reply {
        Reply::HttpError(e) => Err(("HTTP_ERROR"@, e@)),
        Reply::ParseError(e) => Err(("PARSE_ERROR"@, e@)),
        Reply::Parsed(resp) => Ok(streams_of(resp)),
    }
}

impl TorApiProvider {
    /// The provider with its manifest.
    pub fn new(manifest: PluginManifest) -> (r: Self)
        ensures
            r.manifest == manifest,
    {
        TorApiProvider { manifest }
    }

    /// Searches are not offered.
    pub fn search(&self, _req: &SearchRequest) -> (r: SearchAnswer)
        ensures
            r@ == Err::<(Seq<EntryView>, u32), (Seq<char>, Seq<char>)>(
                ("UNSUPPORTED"@, "torapi is wired for streams only — use anilist/jackett for catalog browse"@),
            ),
    {
        PluginResult::err("UNSUPPORTED", "torapi is wired for streams only — use anilist/jackett for catalog browse")
    }

    /// Begins a request for streams: the page to fetch, or the empty answer.
    pub fn find_streams(&self, cache: &Table<String>, req: &FindStreamsRequest) -> (r: Step<
        StreamsAnswer,
    >)
        ensures
            r@ == streams_step(cache@, *req),
    {
        let cfg = Config::load(cache);
        let query = build_query(req);
        if query.as_str().is_empty() {
            let streams: Vec<Stream> = Vec::new();
            assert(views(streams@) =~= seq![]);
            return Step::Answer(PluginResult::ok(FindStreamsResponse { streams }));
        }
        let base = to_chars(cfg.base_url.as_str());
        Step::Fetch(
            cat5(
                to_text(trim_tail_char(base.as_slice(), '/')).as_str(),
                "/api/search/title/all?query=",
                url_encode(query.as_str()).as_str(),
                "&limit=",
                cfg.limit.as_str(),
            ),
        )
    }

    /// Ends a request for streams: the results that can be played.
    pub fn find_streams_reply(&self, reply: Reply<TorApiResponse>) -> (r: StreamsAnswer)
        ensures
            r@ == streams_outcome(reply),
    {
        match reply {
            Reply::HttpError(e) => PluginResult::err("HTTP_ERROR", e.as_str()),
            Reply::ParseError(e) => PluginResult::err("PARSE_ERROR", e.as_str()),
            Reply::Parsed(resp) => {
                let mut streams: Vec<Stream> = Vec::new();
                assert(views(streams@) =~= seq![]);
                push_streams(&mut streams, resp.rutor, "RuTor");
                push_streams(&mut streams, resp.kinozal, "Kinozal");
                push_streams(&mut streams, resp.nonameclub, "NoNameClub");
                assert(views(streams@) =~= streams_of(resp));
                PluginResult::ok(FindStreamsResponse { streams })
            },
        }
    }
}

/// Every stream of a tracker can be played: its address is not empty.
pub proof fn streams_have_addresses(items: Seq<TorApiItem>, label: Seq<char>, k: int)
    requires
        0 <= k < collect_some(items, stream_maker(label)).len(),
    ensures
        collect_some(items, stream_maker(label))[k].url.len() > 0,
{
    lemma_collect_from(items, stream_maker(label), k);
    let j = choose|j: int|
        0 <= j < items.len() && stream_maker(label)(#[trigger] items[j]) == Some(
            collect_some(items, stream_maker(label))[k],
        );
    assert(stream_of(items[j], label) is Some);
    reveal_strlit("magnet:?xt=urn:btih:");
}

/// A stream is played from a magnet link made of the item's hash and name, or
/// else from its torrent file; an item with neither is not handed out. The
/// stream has the name of the item, that of its tracker, and the seeders and
/// the size that the item tells.
pub proof fn streams_tell_what_items_tell(item: TorApiItem, label: Seq<char>)
    ensures
        stream_maker(label)(item) == stream_of(item, label),
        ({
            let hashed = item.hash matches Some(h) && h@.len() > 0;
            let linked = item.torrent matches Some(l) && l@.len() > 0;
            &&& stream_of(item, label) is Some <==> hashed || linked
            &&& stream_of(item, label) matches Some(s) ==> {
                &&& hashed ==> begins(
                    s.url,
                    "magnet:?xt=urn:btih:"@ + item.hash->0@ + "&dn="@ + encoded(item.name@),
                )
                &&& !hashed ==> s.url == item.torrent->0@
                &&& s.title == item.name@
                &&& s.provider == label
                &&& s.seeders == count_of(item.seeds)
                &&& s.size_bytes == item.size_bytes
                &&& s.quality == quality_of(uppercase(item.name@))
                &&& s.codec == codec_of(uppercase(item.name@))
                &&& s.source == source_of(uppercase(item.name@))
                &&& s.hdr == hdr_of(uppercase(item.name@))
            }
        }),
{
    if let Some(h) = item.hash {
        links_hold_what_they_are_made_of(h@, encoded(item.name@));
    }
}

/// Every item of RuTor, of Kinozal and of NoNameClub that can be played is
/// handed out under the name of its tracker, and none of RuTracker: first those
/// of RuTor, then those of Kinozal, then those of NoNameClub, each in the order
/// in which they came. What went wrong is told by its code.
pub proof fn three_trackers_are_handed_out(resp: TorApiResponse, e: String)
    ensures
        streams_outcome(Reply::Parsed(resp)) matches Ok(s) && exists|
            x: Seq<StreamView>,
            y: Seq<StreamView>,
            z: Seq<StreamView>,
        |
            s == x + y + z && #[trigger] picks(resp.rutor@, stream_maker("RuTor"@), x)
                && #[trigger] picks(resp.kinozal@, stream_maker("Kinozal"@), y)
                && #[trigger] picks(resp.nonameclub@, stream_maker("NoNameClub"@), z),
        streams_outcome(Reply::HttpError(e)) == Err::<Seq<StreamView>, (Seq<char>, Seq<char>)>(
            ("HTTP_ERROR"@, e@),
        ),
        streams_outcome(Reply::ParseError(e)) == Err::<Seq<StreamView>, (Seq<char>, Seq<char>)>(
            ("PARSE_ERROR"@, e@),
        ),
{
    collected_is_picked(resp.rutor@, stream_maker("RuTor"@));
    collected_is_picked(resp.kinozal@, stream_maker("Kinozal"@));
    collected_is_picked(resp.nonameclub@, stream_maker("NoNameClub"@));
}

/// The title is searched for, with the year behind it where the request names
/// one; without a title nothing is asked.
pub proof fn titles_are_searched_with_the_year(
    cache: Map<Seq<char>, String>,
    req: FindStreamsRequest,
)
    ensures
        ({
            let title = trim(req.title@);
            let query = match req.year {
                Some(y) => title + " "@ + decimal(y as nat),
                None => title,
            };
            if title.len() == 0 {
                streams_step(cache, req) matches StepView::Answer(Ok(s)) && s.len() == 0
            } else {
                streams_step(cache, req) matches StepView::Fetch(u) && u == trim_end_char(
                    env_value(cache, "TORAPI_BASE_URL"@, "https://torapi.vercel.app"@),
                    '/',
                ) + "/api/search/title/all?query="@ + encoded(query) + "&limit="@ + env_value(
                    cache,
                    "TORAPI_LIMIT"@,
                    "20"@,
                )
            }
        }),
{
    reveal_strlit(" ");
}

} // verus!
