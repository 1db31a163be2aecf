//! Finds anime releases in AnimeTosho's feed.

use vstd::prelude::*;

use crate::env::{env_or, env_value};
use crate::magnet::{
    group_of, links_hold_what_they_are_made_of, magnet, parse_release_group, synth_magnet,
};
use crate::providers::common::{
    filled, filled_text, release_stream, released, Reply, SearchAnswer, Step, StepView,
    StreamsAnswer,
};
use crate::release::{codec_of, hdr_of, quality_of, source_of};
use crate::sdk::manifest::PluginManifest;
use crate::sdk::plugin::Plugin;
use crate::sdk::result::{views, PluginResult};
use crate::sdk::types::{
    EntryView, FindStreamsRequest, FindStreamsResponse, SearchRequest, Stream, StreamView,
};
use crate::text::case::uppercase;
use crate::text::cat::{cat3, cat5};
use crate::text::chars::{to_chars, to_text};
use crate::text::find::begins;
use crate::text::list::{
    collect_some, collected_is_picked, lemma_collect_from, lemma_collect_step, picks,
};
use crate::text::number::{padded, padded_text};
use crate::text::percent::{encoded, url_encode};
use crate::text::table::Table;
use crate::text::trim::{trim, trim_end_char, trim_tail_char, trim_text};

verus! {

/// The provider.
pub struct AnimeToshoProvider {
    pub manifest: PluginManifest,
}

impl Plugin for AnimeToshoProvider {
    fn manifest(&self) -> (r: &PluginManifest)
        ensures
            *r == self.manifest,
    {
        &self.manifest
    }
}

/// Where the feed is, and how it is asked.
#[derive(Debug)]
pub struct Config {
    pub base_url: String,
    pub qx: String,
}

/// The feed's address in the host's settings.
pub open spec fn base_url(cache: Map<Seq<char>, String>) -> Seq<char> {
    env_value(cache, "ANIMETOSHO_BASE_URL"@, "https://animetosho.org"@)
}

/// The feed's search mode in the host's settings.
pub open spec fn search_mode(cache: Map<Seq<char>, String>) -> Seq<char> {
    env_value(cache, "ANIMETOSHO_QX"@, "1"@)
}

impl Config {
    /// Reads the settings.
    pub fn load(cache: &Table<String>) -> (r: Config)
        ensures
            r.base_url@ == base_url(cache@),
            r.qx@ == search_mode(cache@),
    {
        Config {
            base_url: env_or(cache, "ANIMETOSHO_BASE_URL", "https://animetosho.org"),
            qx: env_or(cache, "ANIMETOSHO_QX", "1"),
        }
    }
}

/// What is searched for: the title, and the number of an episode whose season
/// is known too. Nothing where there is no title.
pub open spec fn query_of(req: FindStreamsRequest) -> Seq<char> {
    let title = trim(req.title@);
    if title.len() == 0 {
        seq![]
    } else {
        match (req.season, req.episode) {
            (Some(_), Some(e)) => title + " "@ + padded(e as nat, 2),
            _ => title,
        }
    }
}

/// What is searched for.
pub fn build_query(req: &FindStreamsRequest) -> (r: String)
    ensures
        r@ == query_of(*req),
{
    let title = trim_text(req.title.as_str());
    if title.as_str().is_empty() {
        return String::new();
    }
    match (req.season, req.episode) {
        (Some(_), Some(e)) => cat3(title.as_str(), " ", padded_text(e as u64, 2).as_str()),
        _ => title,
    }
}

/// One entry of the feed.
#[derive(Debug, Clone)]
pub struct ToshoEntry {
    pub title: String,
    pub magnet_uri: Option<String>,
    pub torrent_url: Option<String>,
    pub info_hash: Option<String>,
    /// In bytes.
    pub total_size: Option<u64>,
    /// 1 for a good torrent, 2 for one to be encoded again, 4 for a dead one,
    /// 8 for one that was disabled. Only a good one is handed out; the feed
    /// may leave the flag out.
    pub status: Option<u32>,
    pub nyaa_id: Option<u64>,
    pub anidex_id: Option<u64>,
    pub nekobt_id: Option<u64>,
    pub seeders: Option<i32>,
}

/// What an entry is played from: its magnet link, or one made of its hash, or
/// its torrent file.
pub open spec fn url_of(item: ToshoEntry) -> Option<Seq<char>> {
    match filled(item.magnet_uri) {
        Some(m) => Some(m),
        None => match filled(item.info_hash) {
            Some(h) => Some(magnet(h, encoded(item.title@))),
            None => filled(item.torrent_url),
        },
    }
}

/// Who released an entry: the group that its title names, or else the tracker
/// that it is known on.
pub open spec fn label_of(item: ToshoEntry, fallback: Seq<char>) -> Seq<char> {
    match group_of(item.title@) {
        Some(g) => g,
        None => if item.nyaa_id is Some {
            "Nyaa"@
        } else if item.anidex_id is Some {
            "AniDex"@
        } else if item.nekobt_id is Some {
            "NekoBT"@
        } else {
            fallback
        },
    }
}

/// Whether an entry is marked as anything but good.
pub open spec fn marked_bad(item: ToshoEntry) -> bool {
    item.status is Some && item.status != Some(1u32)
}

/// The stream that an entry is, where it can be played and is not marked as
/// bad.
pub open spec fn stream_of(item: ToshoEntry, fallback: Seq<char>) -> Option<StreamView> {
    if marked_bad(item) {
        None
    } else {
        match url_of(item) {
            Some(url) => Some(
                released(
                    url,
                    item.title@,
                    label_of(item, fallback),
                    match item.seeders {
                        Some(n) => Some(
                            if n < 0 {
                                0
                            } else {
                                n as u32
                            },
                        ),
                        None => None,
                    },
                    match item.total_size {
                        Some(n) => if n > 0 {
                            Some(n)
                        } else {
                            None
                        },
                        None => None,
                    },
                ),
            ),
            None => None,
        }
    }
}

/// `stream_of` with its fallback.
pub open spec fn stream_maker(fallback: Seq<char>) -> spec_fn(ToshoEntry) -> Option<StreamView> {
    |item: ToshoEntry| stream_of(item, fallback)
}

impl ToshoEntry {
    /// What the entry is played from.
    fn url(&self) -> (r: Option<String>)
        ensures
            match r {
                Some(u) => url_of(*self) == Some(u@),
                None => url_of(*self) is None,
            },
    {
        if let Some(m) = filled_text(&self.magnet_uri) {
            return Some(m);
        }
        if let Some(h) = filled_text(&self.info_hash) {
            return Some(synth_magnet(h.as_str(), url_encode(self.title.as_str()).as_str()));
        }
        filled_text(&self.torrent_url)
    }

    /// Who released the entry.
    fn label(&self, fallback: &str) -> (r: String)
        ensures
            r@ == label_of(*self, fallback@),
    {
        if let Some(g) = parse_release_group(self.title.as_str()) {
            return g;
        }
        if self.nyaa_id.is_some() {
            "Nyaa".to_owned()
        } else if self.anidex_id.is_some() {
            "AniDex".to_owned()
        } else if self.nekobt_id.is_some() {
            "NekoBT".to_owned()
        } else {
            fallback.to_owned()
        }
    }

    /// The stream that the entry is; none where its status is given and is
    /// not that of a good torrent, or where it has nothing to be played from.
    pub fn into_stream(self, fallback_provider: &str) -> (r: Option<Stream>)
        ensures
            match r {
                Some(s) => stream_of(self, fallback_provider@) == Some(s@),
                None => stream_of(self, fallback_provider@) is None,
            },
    {
        if let Some(n) = self.status {
            if n != 1 {
                return None;
            }
        }
        let url = match self.url() {
            Some(u) => u,
            None => {
                return None;
            },
        };
        let seeders = match self.seeders {
            Some(n) => Some(
                if n < 0 {
                    0
                } else {
                    n as u32
                },
            ),
            None => None,
        };
        let size_bytes = match self.total_size {
            Some(n) => if n > 0 {
                Some(n)
            } else {
                None
            },
            None => None,
        };
        let label = self.label(fallback_provider);
        Some(release_stream(url, self.title.as_str(), label, seeders, size_bytes))
    }
}

/// The address of a search in the feed.
pub open spec fn feed_url(cache: Map<Seq<char>, String>, query: Seq<char>) -> Seq<char> {
    trim_end_char(base_url(cache), '/') + "/feed/json?q="@ + encoded(query) + "&qx="@
        + search_mode(cache)
}

/// The page that a request for streams is answered from. Nothing is found
/// where there is no title.
pub open spec fn streams_step(cache: Map<Seq<char>, String>, req: FindStreamsRequest) -> StepView<
    Result<Seq<StreamView>, (Seq<char>, Seq<char>)>,
> {
    if query_of(req).len() == 0 {
        StepView::Answer(Ok(seq![]))
    } else {
        StepView::Fetch(feed_url(cache, query_of(req)))
    }
}

/// What a request for streams answers to a reply: the items that can be
/// played.
pub open spec fn streams_outcome(reply: Reply<Vec<ToshoEntry>>, name: Seq<char>) -> Result<
    Seq<StreamView>,
    (Seq<char>, Seq<char>),
> {
    match reply {
        Reply::HttpError(e) => Err(("HTTP_ERROR"@, e@)),
        Reply::ParseError(e) => Err(("PARSE_ERROR"@, e@)),
        Reply::Parsed(items) => Ok(collect_some(items@, stream_maker(name))),
    }
}

impl AnimeToshoProvider {
    /// The provider with its manifest.
    pub fn new(manifest: PluginManifest) -> (r: Self)
        ensures
            r.manifest == manifest,
    {
        AnimeToshoProvider { manifest }
    }

    /// Searches are not offered.
    pub fn search(&self, _req: &SearchRequest) -> (r: SearchAnswer)
        ensures
            r@ == Err::<(Seq<EntryView>, u32), (Seq<char>, Seq<char>)>(
                ("UNSUPPORTED"@, "animetosho is wired for streams only — use anilist/jackett for catalog browse"@),
            ),
    {
        PluginResult::err("UNSUPPORTED", "animetosho is wired for streams only — use anilist/jackett for catalog browse")
    }

    /// Begins a request for streams: the page to fetch, or the empty answer.
    pub fn find_streams(&self, cache: &Table<String>, req: &FindStreamsRequest) -> (r: Step<
        StreamsAnswer,
    >)
        ensures
            r@ == streams_step(cache@, *req),
    {
        let cfg = Config::load(cache);
        let query = build_query(req);
        if query.as_str().is_empty() {
            let streams: Vec<Stream> = Vec::new();
            assert(views(streams@) =~= seq![]);
            return Step::Answer(PluginResult::ok(FindStreamsResponse { streams }));
        }
        let base = to_chars(cfg.base_url.as_str());
        Step::Fetch(
            cat5(
                to_text(trim_tail_char(base.as_slice(), '/')).as_str(),
                "/feed/json?q=",
                url_encode(query.as_str()).as_str(),
                "&qx=",
                cfg.qx.as_str(),
            ),
        )
    }

    /// Ends a request for streams: the items that can be played.
    pub fn find_streams_reply(&self, reply: Reply<Vec<ToshoEntry>>) -> (r: StreamsAnswer)
        ensures
            r@ == streams_outcome(reply, self.manifest.plugin.name@),
    {
        let name = self.manifest.plugin.name.as_str();
        match reply {
            Reply::HttpError(e) => PluginResult::err("HTTP_ERROR", e.as_str()),
            Reply::ParseError(e) => PluginResult::err("PARSE_ERROR", e.as_str()),
            Reply::Parsed(items) => {
                let ghost all = items@;
                let mut streams: Vec<Stream> = Vec::new();
                for item in it: items
                    invariant
                        it.seq() == all,
                        views(streams@) == collect_some(
                            all.take(it.index() as int),
                            stream_maker(name@),
                        ),
                {
                    proof {
                        lemma_collect_step(all, stream_maker(name@), it.index() as int);
                    }
                    let ghost before = views(streams@);
                    if let Some(s) = item.into_stream(name) {
                        streams.push(s);
                        assert(views(streams@) =~= before.push(s@));
                    }
                }
                assert(all.take(all.len() as int) =~= all);
                PluginResult::ok(FindStreamsResponse { streams })
            },
        }
    }
}

/// Every stream that is handed out can be played: its address is not empty.
pub proof fn streams_have_addresses(items: Seq<ToshoEntry>, name: Seq<char>, k: int)
    requires
        0 <= k < collect_some(items, stream_maker(name)).len(),
    ensures
        collect_some(items, stream_maker(name))[k].url.len() > 0,
{
    lemma_collect_from(items, stream_maker(name), k);
    let j = choose|j: int|
        0 <= j < items.len() && stream_maker(name)(#[trigger] items[j]) == Some(
            collect_some(items, stream_maker(name))[k],
        );
    assert(stream_of(items[j], name) is Some);
    reveal_strlit("magnet:?xt=urn:btih:");
}

/// A torrent that is dead, disabled or yet to be encoded again is not handed
/// out.
pub proof fn bad_torrents_are_dropped(item: ToshoEntry, name: Seq<char>)
    requires
        item.status == Some(2u32) || item.status == Some(4u32) || item.status == Some(8u32),
    ensures
        stream_of(item, name) is None,
{
}

/// Every item that can be played is handed out, in the order in which they
/// came, and what went wrong is told by its code.
pub proof fn no_item_is_lost(items: Vec<ToshoEntry>, name: Seq<char>, e: String)
    ensures
        streams_outcome(Reply::Parsed(items), name) matches Ok(s) && picks(
            items@,
            stream_maker(name),
            s,
        ),
        streams_outcome(Reply::HttpError(e), name) == Err::<
            Seq<StreamView>,
            (Seq<char>, Seq<char>),
        >(("HTTP_ERROR"@, e@)),
        streams_outcome(Reply::ParseError(e), name) == Err::<
            Seq<StreamView>,
            (Seq<char>, Seq<char>),
        >(("PARSE_ERROR"@, e@)),
{
    collected_is_picked(items@, stream_maker(name));
}

/// A stream is played from the item's magnet link, or else from one made of
/// its hash and title, or else from its torrent file. An item with none of
/// these, or one marked as anything but good, is not handed out. The stream
/// has the title of the item, the group that the title names or else the site
/// that it came from, and its seeders and bytes where they are known.
pub proof fn streams_tell_what_items_tell(item: ToshoEntry, fallback: Seq<char>)
    ensures
        stream_maker(fallback)(item) == stream_of(item, fallback),
        ({
            let named = item.magnet_uri matches Some(m) && m@.len() > 0;
            let hashed = item.info_hash matches Some(h) && h@.len() > 0;
            let linked = item.torrent_url matches Some(u) && u@.len() > 0;
            let good = item.status is None || item.status == Some(1u32);
            &&& stream_of(item, fallback) is Some <==> good && (named || hashed || linked)
            &&& stream_of(item, fallback) matches Some(s) ==> {
                &&& named ==> s.url == item.magnet_uri->0@
                &&& !named && hashed ==> begins(
                    s.url,
                    "magnet:?xt=urn:btih:"@ + item.info_hash->0@ + "&dn="@ + encoded(item.title@),
                )
                &&& !named && !hashed ==> s.url == item.torrent_url->0@
                &&& s.title == item.title@
                &&& group_of(item.title@) matches Some(g) ==> s.provider == g
                &&& group_of(item.title@) is None ==> {
                    &&& item.nyaa_id is Some ==> s.provider == "Nyaa"@
                    &&& item.nyaa_id is None && item.anidex_id is Some ==> s.provider == "AniDex"@
                    &&& item.nyaa_id is None && item.anidex_id is None && item.nekobt_id is Some
                        ==> s.provider == "NekoBT"@
                    &&& item.nyaa_id is None && item.anidex_id is None && item.nekobt_id is None
                        ==> s.provider == fallback
                }
                &&& item.seeders matches Some(n) ==> s.seeders == Some(
                    if n > 0 {
                        n as u32
                    } else {
                        0
                    },
                )
                &&& item.seeders is None ==> s.seeders is None
                &&& item.total_size matches Some(n) ==> s.size_bytes == if n > 0 {
                    Some(n)
                } else {
                    None
                }
                &&& item.total_size is None ==> s.size_bytes is None
                &&& s.quality == quality_of(uppercase(item.title@))
                &&& s.codec == codec_of(uppercase(item.title@))
                &&& s.source == source_of(uppercase(item.title@))
                &&& s.hdr == hdr_of(uppercase(item.title@))
            }
        }),
{
    if let Some(h) = item.info_hash {
        links_hold_what_they_are_made_of(h@, encoded(item.title@));
    }
}

/// The title is searched for, and the episode behind it with two digits where
/// the request names a season too; without a title nothing is asked.
pub proof fn episodes_are_searched_for(cache: Map<Seq<char>, String>, req: FindStreamsRequest)
    ensures
        ({
            let title = trim(req.title@);
            let query = if req.season is Some && req.episode is Some {
                title + " "@ + padded(req.episode->0 as nat, 2)
            } else {
                title
            };
            if title.len() == 0 {
                streams_step(cache, req) matches StepView::Answer(Ok(s)) && s.len() == 0
            } else {
                streams_step(cache, req) matches StepView::Fetch(u) && u == trim_end_char(
                    env_value(cache, "ANIMETOSHO_BASE_URL"@, "https://animetosho.org"@),
                    '/',
                ) + "/feed/json?q="@ + encoded(query) + "&qx="@ + env_value(
                    cache,
                    "ANIMETOSHO_QX"@,
                    "1"@,
                )
            }
        }),
{
    reveal_strlit(" ");
}

} // verus!
