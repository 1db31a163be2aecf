//! Finds anime releases in Nyaa's feed.

use vstd::prelude::*;

use crate::env::{env_or, env_value};
use crate::magnet::{
    group_of, links_hold_what_they_are_made_of, magnet, parse_release_group, synth_magnet,
};
use crate::providers::common::{
    count_of, filled, filled_text, parse_count, release_stream, released, Reply, SearchAnswer, Step,
    StepView, StreamsAnswer,
};
use crate::release::{codec_of, hdr_of, quality_of, source_of};
use crate::sdk::manifest::PluginManifest;
use crate::sdk::plugin::Plugin;
use crate::sdk::result::{views, PluginResult};
use crate::sdk::types::{
    EntryView, FindStreamsRequest, FindStreamsResponse, SearchRequest, Stream, StreamView,
};
use crate::text::case::uppercase;
use crate::text::cat::{cat3, cat5};
use crate::text::chars::{to_chars, to_text};
use crate::text::find::begins;
use crate::text::list::{
    collect_some, collected_is_picked, lemma_collect_from, lemma_collect_step, picks,
};
use crate::text::number::{padded, padded_text};
use crate::text::percent::{encoded, url_encode};
use crate::text::table::Table;
use crate::text::trim::{trim, trim_end_char, trim_tail_char, trim_text};

verus! {

/// The provider.
pub struct NyaaProvider {
    pub manifest: PluginManifest,
}

impl Plugin for NyaaProvider {
    fn manifest(&self) -> (r: &PluginManifest)
        ensures
            *r == self.manifest,
    {
        &self.manifest
    }
}

/// Where the feed is, and what is asked of it.
#[derive(Debug)]
pub struct Config {
    pub base_url: String,
    pub category: String,
    pub filter: String,
}

/// The feed's address in the host's settings.
pub open spec fn base_url(cache: Map<Seq<char>, String>) -> Seq<char> {
    env_value(cache, "NYAA_BASE_URL"@, "https://nyaa.si"@)
}

/// The category in the host's settings.
pub open spec fn category(cache: Map<Seq<char>, String>) -> Seq<char> {
    env_value(cache, "NYAA_CATEGORY"@, "1_0"@)
}

/// The filter in the host's settings.
pub open spec fn filter(cache: Map<Seq<char>, String>) -> Seq<char> {
    env_value(cache, "NYAA_FILTER"@, "0"@)
}

impl Config {
    /// Reads the settings.
    pub fn load(cache: &Table<String>) -> (r: Config)
        ensures
            r.base_url@ == base_url(cache@),
            r.category@ == category(cache@),
            r.filter@ == filter(cache@),
    {
        Config {
            base_url: env_or(cache, "NYAA_BASE_URL", "https://nyaa.si"),
            category: env_or(cache, "NYAA_CATEGORY", "1_0"),
            filter: env_or(cache, "NYAA_FILTER", "0"),
        }
    }
}

/// What is searched for: the title, and the number of an episode. Nothing
/// where there is no title.
pub open spec fn query_of(req: FindStreamsRequest) -> Seq<char> {
    let title = trim(req.title@);
    if title.len() == 0 {
        seq![]
    } else {
        match req.episode {
            Some(e) => title + " "@ + padded(e as nat, 2),
            None => title,
        }
    }
}

/// What is searched for. The season is left out, since most releases do not
/// name it.
pub fn build_query(req: &FindStreamsRequest) -> (r: String)
    ensures
        r@ == query_of(*req),
{
    let title = trim_text(req.title.as_str());
    if title.as_str().is_empty() {
        return String::new();
    }
    match req.episode {
        Some(e) => cat3(title.as_str(), " ", padded_text(e as u64, 2).as_str()),
        None => title,
    }
}

/// One item of the feed.
#[derive(Debug, Clone)]
pub struct NyaaItem {
    pub title: String,
    /// Where the torrent file is.
    pub link: Option<String>,
    pub seeders: Option<String>,
    pub leechers: Option<String>,
    pub info_hash: Option<String>,
    /// The written size in bytes.
    pub size_bytes: Option<u64>,
    pub trusted: Option<String>,
}

/// What an item is played from: a magnet link made of its hash, or its
/// torrent file.
pub open spec fn url_of(item: NyaaItem) -> Option<Seq<char>> {
    match filled(item.info_hash) {
        Some(h) => Some(magnet(h, encoded(item.title@))),
        None => filled(item.link),
    }
}

/// The stream that an item is, where it can be played.
pub open spec fn stream_of(item: NyaaItem, fallback: Seq<char>) -> Option<StreamView> {
    match url_of(item) {
        Some(url) => Some(
            released(
                url,
                item.title@,
                match group_of(item.title@) {
                    Some(g) => g,
                    None => fallback,
                },
                count_of(item.seeders),
                item.size_bytes,
            ),
        ),
        None => None,
    }
}

/// `stream_of` with its fallback.
pub open spec fn stream_maker(fallback: Seq<char>) -> spec_fn(NyaaItem) -> Option<StreamView> {
    |item: NyaaItem| stream_of(item, fallback)
}

impl NyaaItem {
    /// The stream that the item is; none where it has nothing to be played from.
    pub fn into_stream(self, fallback_provider: &str) -> (r: Option<Stream>)
        ensures
            match r {
                Some(s) => stream_of(self, fallback_provider@) == Some(s@),
                None => stream_of(self, fallback_provider@) is None,
            },
    {
        let url = match filled_text(&self.info_hash) {
            Some(h) => synth_magnet(h.as_str(), url_encode(self.title.as_str()).as_str()),
            None => match filled_text(&self.link) {
                Some(l) => l,
                None => {
                    return None;
                },
            },
        };
        let label = match parse_release_group(self.title.as_str()) {
            Some(g) => g,
            None => fallback_provider.to_owned(),
        };
        let seeders = parse_count(&self.seeders);
        Some(release_stream(url, self.title.as_str(), label, seeders, self.size_bytes))
    }
}

/// The address of a search in the feed.
pub open spec fn feed_url(cache: Map<Seq<char>, String>, query: Seq<char>) -> Seq<char> {
    trim_end_char(base_url(cache), '/') + "/?page=rss&q="@ + encoded(query) + "&c="@ + category(
        cache,
    ) + "&f="@ + filter(cache)
}

/// The page that a request for streams is answered from. Nothing is found
/// where there is no title.
pub open spec fn streams_step(cache: Map<Seq<char>, String>, req: FindStreamsRequest) -> StepView<
    Result<Seq<StreamView>, (Seq<char>, Seq<char>)>,
> {
    if query_of(req).len() == 0 {
        StepView::Answer(Ok(seq![]))
    } else {
        StepView::Fetch(feed_url(cache, query_of(req)))
    }
}

/// What a request for streams answers to a reply: the items that can be
/// played.
pub open spec fn streams_outcome(reply: Reply<Vec<NyaaItem>>, name: Seq<char>) -> Result<
    Seq<StreamView>,
    (Seq<char>, Seq<char>),
> {
    match reply {
        Reply::HttpError(e) => Err(("HTTP_ERROR"@, e@)),
        Reply::ParseError(e) => Err(("PARSE_ERROR"@, e@)),
        Reply::Parsed(items) => Ok(collect_some(items@, stream_maker(name))),
    }
}

impl NyaaProvider {
    /// The provider with its manifest.
    pub fn new(manifest: PluginManifest) -> (r: Self)
        ensures
            r.manifest == manifest,
    {
        NyaaProvider { manifest }
    }

    /// Searches are not offered.
    pub fn search(&self, _req: &SearchRequest) -> (r: SearchAnswer)
        ensures
            r@ == Err::<(Seq<EntryView>, u32), (Seq<char>, Seq<char>)>(
                ("UNSUPPORTED"@, "nyaa is wired for streams only — use anilist/jackett for catalog browse"@),
            ),
    {
        PluginResult::err("UNSUPPORTED", "nyaa is wired for streams only — use anilist/jackett for catalog browse")
    }

    /// Begins a request for streams: the page to fetch, or the empty answer.
    pub fn find_streams(&self, cache: &Table<String>, req: &FindStreamsRequest) -> (r: Step<
        StreamsAnswer,
    >)
        ensures
            r@ == streams_step(cache@, *req),
    {
        let cfg = Config::load(cache);
        let query = build_query(req);
        if query.as_str().is_empty() {
            let streams: Vec<Stream> = Vec::new();
            assert(views(streams@) =~= seq![]);
            return Step::Answer(PluginResult::ok(FindStreamsResponse { streams }));
        }
        let base = to_chars(cfg.base_url.as_str());
        let mut url = cat5(
            to_text(trim_tail_char(base.as_slice(), '/')).as_str(),
            "/?page=rss&q=",
            url_encode(query.as_str()).as_str(),
            "&c=",
            cfg.category.as_str(),
        );
        url.append("&f=");
        url.append(cfg.filter.as_str());
        Step::Fetch(url)
    }

    /// Ends a request for streams: the items that can be played.
    pub fn find_streams_reply(&self, reply: Reply<Vec<NyaaItem>>) -> (r: StreamsAnswer)
        ensures
            r@ == streams_outcome(reply, self.manifest.plugin.name@),
    {
        let name = self.manifest.plugin.name.as_str();
        match reply {
            Reply::HttpError(e) => PluginResult::err("HTTP_ERROR", e.as_str()),
            Reply::ParseError(e) => PluginResult::err("PARSE_ERROR", e.as_str()),
            Reply::Parsed(items) => {
                let ghost all = items@;
                let mut streams: Vec<Stream> = Vec::new();
                for item in it: items
                    invariant
                        it.seq() == all,
                        views(streams@) == collect_some(
                            all.take(it.index() as int),
                            stream_maker(name@),
                        ),
                {
                    proof {
                        lemma_collect_step(all, stream_maker(name@), it.index() as int);
                    }
                    let ghost before = views(streams@);
                    if let Some(s) = item.into_stream(name) {
                        streams.push(s);
                        assert(views(streams@) =~= before.push(s@));
                    }
                }
                assert(all.take(all.len() as int) =~= all);
                PluginResult::ok(FindStreamsResponse { streams })
            },
        }
    }
}

/// Every stream that is handed out can be played: its address is not empty.
pub proof fn streams_have_addresses(items: Seq<NyaaItem>, name: Seq<char>, k: int)
    requires
        0 <= k < collect_some(items, stream_maker(name)).len(),
    ensures
        collect_some(items, stream_maker(name))[k].url.len() > 0,
{
    lemma_collect_from(items, stream_maker(name), k);
    let j = choose|j: int|
        0 <= j < items.len() && stream_maker(name)(#[trigger] items[j]) == Some(
            collect_some(items, stream_maker(name))[k],
        );
    assert(stream_of(items[j], name) is Some);
    reveal_strlit("magnet:?xt=urn:btih:");
}

/// Every item that can be played is handed out, in the order in which they
/// came, and what went wrong is told by its code.
pub proof fn no_item_is_lost(items: Vec<NyaaItem>, name: Seq<char>, e: String)
    ensures
        streams_outcome(Reply::Parsed(items), name) matches Ok(s) && picks(
            items@,
            stream_maker(name),
            s,
        ),
        streams_outcome(Reply::HttpError(e), name) == Err::<
            Seq<StreamView>,
            (Seq<char>, Seq<char>),
        >(("HTTP_ERROR"@, e@)),
        streams_outcome(Reply::ParseError(e), name) == Err::<
            Seq<StreamView>,
            (Seq<char>, Seq<char>),
        >(("PARSE_ERROR"@, e@)),
{
    collected_is_picked(items@, stream_maker(name));
}

/// A stream is played from a magnet link made of the item's hash and title, or
/// else from its torrent file; an item with neither is not handed out. The
/// stream has the title of the item, the group that the title names, and the
/// seeders and the size that the item tells.
pub proof fn streams_tell_what_items_tell(item: NyaaItem, fallback: Seq<char>)
    ensures
        stream_maker(fallback)(item) == stream_of(item, fallback),
        ({
            let hashed = item.info_hash matches Some(h) && h@.len() > 0;
            let linked = item.link matches Some(l) && l@.len() > 0;
            &&& stream_of(item, fallback) is Some <==> hashed || linked
            &&& stream_of(item, fallback) matches Some(s) ==> {
                &&& hashed ==> begins(
                    s.url,
                    "magnet:?xt=urn:btih:"@ + item.info_hash->0@ + "&dn="@ + encoded(item.title@),
                )
                &&& !hashed ==> s.url == item.link->0@
                &&& s.title == item.title@
                &&& group_of(item.title@) matches Some(g) ==> s.provider == g
                &&& group_of(item.title@) is None ==> s.provider == fallback
                &&& s.seeders == count_of(item.seeders)
                &&& s.size_bytes == item.size_bytes
                &&& s.quality == quality_of(uppercase(item.title@))
                &&& s.codec == codec_of(uppercase(item.title@))
                &&& s.source == source_of(uppercase(item.title@))
                &&& s.hdr == hdr_of(uppercase(item.title@))
            }
        }),
{
    if let Some(h) = item.info_hash {
        links_hold_what_they_are_made_of(h@, encoded(item.title@));
    }
}

/// The title is searched for, and the episode behind it with two digits,
/// whatever the season; without a title nothing is asked.
pub proof fn episodes_are_searched_for(cache: Map<Seq<char>, String>, req: FindStreamsRequest)
    ensures
        ({
            let title = trim(req.title@);
            let query = match req.episode {
                Some(e) => title + " "@ + padded(e as nat, 2),
                None => title,
            };
            if title.len() == 0 {
                streams_step(cache, req) matches StepView::Answer(Ok(s)) && s.len() == 0
            } else {
                streams_step(cache, req) matches StepView::Fetch(u) && u == trim_end_char(
                    env_value(cache, "NYAA_BASE_URL"@, "https://nyaa.si"@),
                    '/',
                ) + "/?page=rss&q="@ + encoded(query) + "&c="@ + env_value(
                    cache,
                    "NYAA_CATEGORY"@,
                    "1_0"@,
                ) + "&f="@ + env_value(cache, "NYAA_FILTER"@, "0"@)
            }
        }),
{
    reveal_strlit(" ");
}

} // verus!
