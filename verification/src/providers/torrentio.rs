//! Finds streams through Torrentio, which knows titles by their IMDb id.

use vstd::prelude::*;

use crate::env::{env_or, env_value};
use crate::magnet::{links_hold_what_they_are_made_of, magnet, synth_magnet};
use crate::providers::common::{
    filled, filled_text, release_stream, released, Reply, SearchAnswer, Step, StepView,
    StreamsAnswer,
};
use crate::release::{codec_of, hdr_of, quality_of, source_of};
use crate::sdk::kinds::EntryKind;
use crate::sdk::manifest::PluginManifest;
use crate::sdk::plugin::Plugin;
use crate::sdk::result::{views, PluginResult};
use crate::sdk::types::{
    EntryView, FindStreamsRequest, FindStreamsResponse, SearchRequest, Stream, StreamView,
};
use crate::size::{opt_size, parse_size_token, size_in, WrittenSize};
use crate::text::case::uppercase;
use crate::text::cat::{cat, cat4, cat5};
use crate::text::chars::{digit, opt, sign, skip_to, take_to, to_chars, to_text};
use crate::text::class::{all, head, head_of, lemma_run_is, member, past, past_of, Class};
use crate::text::find::{
    begins, ends, find, find_char, find_one, find_text, lemma_ends_of, lemma_find_char, occurs,
};
use crate::text::list::{
    collect_some, collected_is_picked, lemma_collect_from, lemma_collect_step, picks,
};
use crate::text::number::{
    decimal, decimal_text, lemma_decimal, lemma_natural_decimal, natural, parse_natural,
};
use crate::text::percent::{encoded, url_encode};
use crate::text::replace::{lower, lower_of};
use crate::text::table::Table;
use crate::text::trim::{
    trim, trim_both, trim_end, trim_end_char, trim_start, trim_tail_char, trimmed,
};

verus! {

/// The provider.
pub struct TorrentioProvider {
    pub manifest: PluginManifest,
}

impl Plugin for TorrentioProvider {
    fn manifest(&self) -> (r: &PluginManifest)
        ensures
            *r == self.manifest,
    {
        &self.manifest
    }
}

/// Where the service is, and the part of the path that configures it.
#[derive(Debug)]
pub struct Config {
    pub base_url: String,
    pub config_segment: String,
}

/// The service's address in the host's settings.
pub open spec fn base_url(cache: Map<Seq<char>, String>) -> Seq<char> {
    env_value(cache, "TORRENTIO_BASE_URL"@, "https://torrentio.strem.fun"@)
}

/// The part of the path that configures the service: the trackers and the
/// debrid service in the host's settings, as far as they are there.
pub open spec fn config_segment(cache: Map<Seq<char>, String>) -> Seq<char> {
    let providers = env_value(cache, "TORRENTIO_PROVIDERS"@, ""@);
    let debrid = env_value(cache, "TORRENTIO_DEBRID"@, ""@);
    if providers.len() > 0 && debrid.len() > 0 {
        "providers="@ + providers + "|"@ + debrid
    } else if providers.len() > 0 {
        "providers="@ + providers
    } else {
        debrid
    }
}

impl Config {
    /// Reads the settings.
    pub fn load(cache: &Table<String>) -> (r: Config)
        ensures
            r.base_url@ == base_url(cache@),
            r.config_segment@ == config_segment(cache@),
    {
        let base_url = env_or(cache, "TORRENTIO_BASE_URL", "https://torrentio.strem.fun");
        let providers = env_or(cache, "TORRENTIO_PROVIDERS", "");
        let debrid = env_or(cache, "TORRENTIO_DEBRID", "");
        let config_segment = if providers.as_str().is_empty() {
            debrid
        } else if debrid.as_str().is_empty() {
            cat("providers=", providers.as_str())
        } else {
            cat4("providers=", providers.as_str(), "|", debrid.as_str())
        };
        Config { base_url, config_segment }
    }
}

/// One stream of the service's answer.
#[derive(Debug, Clone)]
pub struct TorrentioStream {
    pub name: String,
    /// The name of the release in the first line, then its seeders, size and
    /// tracker, each behind a sign of its own.
    pub title: String,
    pub info_hash: Option<String>,
    /// Where a debrid service streams from.
    pub url: Option<String>,
    /// The size that the title writes, in bytes.
    pub size_bytes: Option<u64>,
}

/// The first line of `s`, without white space around it.
pub open spec fn first_line_of(s: Seq<char>) -> Seq<char> {
    match find_char(s, '\n') {
        Some(i) => trim(s.take(i)),
        None => trim(s),
    }
}

/// The first line of a text, without white space around it.
pub fn first_line(s: &str) -> (r: String)
    ensures
        r@ == first_line_of(s@),
{
    let cs = to_chars(s);
    match find_one(cs.as_slice(), '\n') {
        Some(i) => to_text(trim_both(take_to(cs.as_slice(), i))),
        None => to_text(trim_both(cs.as_slice())),
    }
}

/// The name of the tracker that a title gives behind the gear: it reaches to
/// the next sign or to the end of the line.
pub open spec fn indexer_of(s: Seq<char>) -> Option<Seq<char>> {
    match find_char(s, '⚙') {
        Some(i) => {
            let name = trim(past(head(s.skip(i + 1), Class::Label), Class::SpaceOrSelector));
            if name.len() == 0 {
                None
            } else {
                Some(name)
            }
        },
        None => None,
    }
}

/// The name of the tracker that a title gives behind the gear.
pub fn parse_indexer(s: &str) -> (r: Option<String>)
    ensures
        opt(r) == indexer_of(s@),
{
    let cs = to_chars(s);
    let end: usize = cs.len();
    match find_one(cs.as_slice(), '⚙') {
        Some(i) => {
            let tail = skip_to(cs.as_slice(), i + 1);
            let name = trim_both(past_of(head_of(tail, Class::Label), Class::SpaceOrSelector));
            if name.len() == 0 {
                None
            } else {
                Some(to_text(name))
            }
        },
        None => None,
    }
}

/// `s` without its commas.
pub open spec fn without_commas(s: Seq<char>) -> Seq<char>
    decreases s.len(),
{
    if s.len() == 0 {
        s
    } else if s.last() == ',' {
        without_commas(s.drop_last())
    } else {
        without_commas(s.drop_last()).push(s.last())
    }
}

/// The first run of digits in `s` as a number.
pub open spec fn first_number(s: Seq<char>) -> Option<nat> {
    natural(head(past(s, Class::NotDigit), Class::Digit), u32::MAX as nat)
}

/// The first run of digits in `s`, with commas between them, as a number.
pub open spec fn first_grouped_number(s: Seq<char>) -> Option<nat> {
    natural(
        without_commas(head(past(s, Class::NotDigit), Class::DigitOrComma)),
        u32::MAX as nat,
    )
}

/// The number behind the first place where `s` holds the marker, in whatever case.
pub open spec fn number_behind(s: Seq<char>, marker: Seq<char>) -> Option<nat> {
    match find(lower(s), marker) {
        Some(i) => first_number(s.skip(i + marker.len())),
        None => None,
    }
}

/// The number of seeders that a title gives: behind the sign for people, or
/// else behind one of the words for seeders.
pub open spec fn seeders_of(s: Seq<char>) -> Option<nat> {
    let signed = match find_char(s, '👤') {
        Some(i) => first_grouped_number(s.skip(i + 1)),
        None => None,
    };
    if signed is Some {
        signed
    } else if number_behind(s, "seeds:"@) is Some {
        number_behind(s, "seeds:"@)
    } else if number_behind(s, "seed:"@) is Some {
        number_behind(s, "seed:"@)
    } else if number_behind(s, "seeders:"@) is Some {
        number_behind(s, "seeders:"@)
    } else {
        number_behind(s, "seeder:"@)
    }
}

/// The view of an optional number.
pub open spec fn opt_number(o: Option<u32>) -> Option<nat> {
    match o {
        Some(n) => Some(n as nat),
        None => None,
    }
}

/// The text without its commas.
fn drop_commas(s: &[char]) -> (r: Vec<char>)
    ensures
        r@ == without_commas(s@),
{
    let mut out: Vec<char> = Vec::new();
    for i in 0..s.len()
        invariant
            out@ == without_commas(s@.take(i as int)),
    {
        assert(s@.take(i + 1).drop_last() =~= s@.take(i as int));
        if s[i] != ',' {
            out.push(s[i]);
        }
    }
    assert(s@.take(s@.len() as int) =~= s@);
    out
}

/// The number behind the first place where the text holds the marker.
fn parse_behind(s: &[char], low: &[char], marker: &str) -> (r: Option<u32>)
    requires
        low@ == lower(s@),
    ensures
        opt_number(r) == number_behind(s@, marker@),
{
    match find_text(low, marker) {
        Some(i) => {
            let n: usize = to_chars(marker).len();
            let end: usize = low.len();
            let tail = skip_to(s, i + n);
            let digits = head_of(past_of(tail, Class::NotDigit), Class::Digit);
            match parse_natural(digits, 0xffff_ffff) {
                Some(v) => Some(v as u32),
                None => None,
            }
        },
        None => None,
    }
}

/// The number of seeders that a title gives.
pub fn parse_seeders(s: &str) -> (r: Option<u32>)
    ensures
        opt_number(r) == seeders_of(s@),
{
    let cs = to_chars(s);
    let cs = cs.as_slice();
    let end: usize = cs.len();
    if let Some(i) = find_one(cs, '👤') {
        let tail = skip_to(cs, i + 1);
        let digits = drop_commas(head_of(past_of(tail, Class::NotDigit), Class::DigitOrComma));
        if let Some(n) = parse_natural(digits.as_slice(), 0xffff_ffff) {
            return Some(n as u32);
        }
    }
    let low = lower_of(cs);
    let low = low.as_slice();
    if let Some(n) = parse_behind(cs, low, "seeds:") {
        return Some(n);
    }
    if let Some(n) = parse_behind(cs, low, "seed:") {
        return Some(n);
    }
    if let Some(n) = parse_behind(cs, low, "seeders:") {
        return Some(n);
    }
    parse_behind(cs, low, "seeder:")
}

/// The size that a title gives: behind the sign for a disk, or else anywhere.
pub open spec fn written_size_of(s: Seq<char>) -> Option<(Seq<char>, u64)> {
    let signed = match find_char(s, '💾') {
        Some(i) => size_in(s.skip(i + 1)),
        None => None,
    };
    if signed is Some {
        signed
    } else {
        size_in(s)
    }
}

/// The size that a title gives, as it is written.
pub fn parse_size(s: &str) -> (r: Option<WrittenSize>)
    ensures
        opt_size(r) == written_size_of(s@),
{
    let cs = to_chars(s);
    let cs = cs.as_slice();
    let end: usize = cs.len();
    if let Some(i) = find_one(cs, '💾') {
        if let Some(w) = parse_size_token(skip_to(cs, i + 1)) {
            return Some(w);
        }
    }
    parse_size_token(cs)
}

/// What a stream is played from: the debrid service, or a magnet link made of
/// its hash.
pub open spec fn url_of(item: TorrentioStream) -> Option<Seq<char>> {
    match filled(item.url) {
        Some(u) => Some(u),
        None => match filled(item.info_hash) {
            Some(h) => Some(magnet(h, encoded(first_line_of(item.title@)))),
            None => None,
        },
    }
}

/// The stream, where it can be played.
pub open spec fn stream_of(item: TorrentioStream, fallback: Seq<char>) -> Option<StreamView> {
    match url_of(item) {
        Some(url) => Some(
            released(
                url,
                first_line_of(item.title@),
                match indexer_of(item.title@) {
                    Some(i) => i,
                    None => fallback,
                },
                match seeders_of(item.title@) {
                    Some(n) => Some(n as u32),
                    None => None,
                },
                item.size_bytes,
            ),
        ),
        None => None,
    }
}

/// `stream_of` with its fallback.
pub open spec fn stream_maker(fallback: Seq<char>) -> spec_fn(TorrentioStream) -> Option<StreamView> {
    |item: TorrentioStream| stream_of(item, fallback)
}

impl TorrentioStream {
    /// The stream; none where it has nothing to be played from.
    pub fn into_stream(self, fallback_provider: &str) -> (r: Option<Stream>)
        ensures
            match r {
                Some(s) => stream_of(self, fallback_provider@) == Some(s@),
                None => stream_of(self, fallback_provider@) is None,
            },
    {
        let release = first_line(self.title.as_str());
        let url = match filled_text(&self.url) {
            Some(u) => u,
            None => match filled_text(&self.info_hash) {
                Some(h) => synth_magnet(h.as_str(), url_encode(release.as_str()).as_str()),
                None => {
                    return None;
                },
            },
        };
        let label = match parse_indexer(self.title.as_str()) {
            Some(i) => i,
            None => fallback_provider.to_owned(),
        };
        let seeders = parse_seeders(self.title.as_str());
        Some(release_stream(url, release.as_str(), label, seeders, self.size_bytes))
    }
}

/// The IMDb id that a request gives, in its own field or among the other ids.
pub open spec fn imdb_of(req: FindStreamsRequest) -> Option<Seq<char>> {
    match filled(req.imdb_id) {
        Some(i) => Some(i),
        None => if req.external_ids@.contains_key("imdb"@) && req.external_ids@["imdb"@]@.len()
            > 0 {
            Some(req.external_ids@["imdb"@]@)
        } else {
            None
        },
    }
}

/// The kind and the id under which the service knows what is asked for.
pub open spec fn stream_key(req: FindStreamsRequest, imdb: Seq<char>) -> Option<
    (Seq<char>, Seq<char>),
> {
    match req.kind {
        EntryKind::Movie => Some(("movie"@, imdb)),
        EntryKind::Series | EntryKind::Episode => match (req.season, req.episode) {
            (Some(s), Some(e)) => Some(
                ("series"@, imdb + ":"@ + decimal(s as nat) + ":"@ + decimal(e as nat)),
            ),
            _ => None,
        },
        _ => None,
    }
}

/// The address under which the service answers for a kind and an id.
pub open spec fn stream_url(cache: Map<Seq<char>, String>, key: (Seq<char>, Seq<char>)) -> Seq<
    char,
> {
    let base = trim_end_char(base_url(cache), '/');
    let path = "/stream/"@ + key.0 + "/"@ + key.1 + ".json"@;
    if config_segment(cache).len() == 0 {
        base + path
    } else {
        base + "/"@ + config_segment(cache) + path
    }
}

/// The page that a request for streams is answered from. Nothing is found
/// without an IMDb id, for a series without season and episode, or for music.
pub open spec fn streams_step(cache: Map<Seq<char>, String>, req: FindStreamsRequest) -> StepView<
    Result<Seq<StreamView>, (Seq<char>, Seq<char>)>,
> {
    match imdb_of(req) {
        Some(imdb) => match stream_key(req, imdb) {
            Some(key) => StepView::Fetch(stream_url(cache, key)),
            None => StepView::Answer(Ok(seq![])),
        },
        None => StepView::Answer(Ok(seq![])),
    }
}

/// What a request for streams answers to a reply: the items that can be
/// played.
pub open spec fn streams_outcome(reply: Reply<Vec<TorrentioStream>>, name: Seq<char>) -> Result<
    Seq<StreamView>,
    (Seq<char>, Seq<char>),
> {
    match reply {
        Reply::HttpError(e) => Err(("HTTP_ERROR"@, e@)),
        Reply::ParseError(e) => Err(("PARSE_ERROR"@, e@)),
        Reply::Parsed(items) => Ok(collect_some(items@, stream_maker(name))),
    }
}

/// The answer that nothing was found.
fn nothing() -> (r: Step<StreamsAnswer>)
    ensures
        r@ == StepView::<Result<Seq<StreamView>, (Seq<char>, Seq<char>)>>::Answer(Ok(seq![])),
{
    let streams: Vec<Stream> = Vec::new();
    assert(views(streams@) =~= seq![]);
    Step::Answer(PluginResult::ok(FindStreamsResponse { streams }))
}

/// The IMDb id that a request gives.
fn find_imdb(req: &FindStreamsRequest) -> (r: Option<String>)
    ensures
        opt(r) == imdb_of(*req),
{
    if let Some(i) = filled_text(&req.imdb_id) {
        return Some(i);
    }
    match req.external_ids.get("imdb") {
        Some(i) => if i.as_str().is_empty() {
            None
        } else {
            Some(i.clone())
        },
        None => None,
    }
}

impl TorrentioProvider {
    /// The provider with its manifest.
    pub fn new(manifest: PluginManifest) -> (r: Self)
        ensures
            r.manifest == manifest,
    {
        TorrentioProvider { manifest }
    }

    /// Searches are not offered.
    pub fn search(&self, _req: &SearchRequest) -> (r: SearchAnswer)
        ensures
            r@ == Err::<(Seq<EntryView>, u32), (Seq<char>, Seq<char>)>(
                ("UNSUPPORTED"@, "torrentio is IMDB-keyed only — no text search"@),
            ),
    {
        PluginResult::err("UNSUPPORTED", "torrentio is IMDB-keyed only — no text search")
    }

    /// Begins a request for streams: the page to fetch, or the empty answer.
    pub fn find_streams(&self, cache: &Table<String>, req: &FindStreamsRequest) -> (r: Step<
        StreamsAnswer,
    >)
        ensures
            r@ == streams_step(cache@, *req),
    {
        let cfg = Config::load(cache);
        let imdb = match find_imdb(req) {
            Some(i) => i,
            None => {
                return nothing();
            },
        };
        let (kind, id) = match (req.kind, req.season, req.episode) {
            (EntryKind::Movie, _, _) => ("movie", imdb),
            (EntryKind::Series, Some(s), Some(e)) | (EntryKind::Episode, Some(s), Some(e)) => (
                "series",
                cat5(
                    imdb.as_str(),
                    ":",
                    decimal_text(s as u64).as_str(),
                    ":",
                    decimal_text(e as u64).as_str(),
                ),
            ),
            _ => {
                return nothing();
            },
        };
        let base = to_chars(cfg.base_url.as_str());
        let mut url = to_text(trim_tail_char(base.as_slice(), '/'));
        if !cfg.config_segment.as_str().is_empty() {
            url.append("/");
            url.append(cfg.config_segment.as_str());
        }
        url.append(cat5("/stream/", kind, "/", id.as_str(), ".json").as_str());
        Step::Fetch(url)
    }

    /// Ends a request for streams: the items that can be played.
    pub fn find_streams_reply(&self, reply: Reply<Vec<TorrentioStream>>) -> (r: StreamsAnswer)
        ensures
            r@ == streams_outcome(reply, self.manifest.plugin.name@),
    {
        let name = self.manifest.plugin.name.as_str();
        match reply {
            Reply::HttpError(e) => PluginResult::err("HTTP_ERROR", e.as_str()),
            Reply::ParseError(e) => PluginResult::err("PARSE_ERROR", e.as_str()),
            Reply::Parsed(items) => {
                let ghost all = items@;
                let mut streams: Vec<Stream> = Vec::new();
                for item in it: items
                    invariant
                        it.seq() == all,
                        views(streams@) == collect_some(
                            all.take(it.index() as int),
                            stream_maker(name@),
                        ),
                {
                    proof {
                        lemma_collect_step(all, stream_maker(name@), it.index() as int);
                    }
                    let ghost before = views(streams@);
                    if let Some(s) = item.into_stream(name) {
                        streams.push(s);
                        assert(views(streams@) =~= before.push(s@));
                    }
                }
                assert(all.take(all.len() as int) =~= all);
                PluginResult::ok(FindStreamsResponse { streams })
            },
        }
    }
}

/// Every stream that is handed out can be played: its address is not empty.
pub proof fn streams_have_addresses(items: Seq<TorrentioStream>, name: Seq<char>, k: int)
    requires
        0 <= k < collect_some(items, stream_maker(name)).len(),
    ensures
        collect_some(items, stream_maker(name))[k].url.len() > 0,
{
    lemma_collect_from(items, stream_maker(name), k);
    let j = choose|j: int|
        0 <= j < items.len() && stream_maker(name)(#[trigger] items[j]) == Some(
            collect_some(items, stream_maker(name))[k],
        );
    assert(stream_of(items[j], name) is Some);
    reveal_strlit("magnet:?xt=urn:btih:");
}

/// An episode is asked for under the id of its series, its season and its
/// number, whether the request calls it a series or an episode; without the
/// two numbers nothing is asked for.
pub proof fn episodes_are_asked_for_by_number(
    cache: Map<Seq<char>, String>,
    req: FindStreamsRequest,
    id: String,
)
    requires
        req.kind == EntryKind::Series || req.kind == EntryKind::Episode,
        req.imdb_id == Some(id),
        id@.len() > 0,
    ensures
        match (req.season, req.episode) {
            (Some(s), Some(e)) => streams_step(cache, req) matches StepView::Fetch(u) && ends(
                u,
                "/stream/series/"@ + id@ + ":"@ + decimal(s as nat) + ":"@ + decimal(e as nat)
                    + ".json"@,
            ),
            _ => streams_step(cache, req) matches StepView::Answer(Ok(s)) && s.len() == 0,
        },
{
    if let (Some(s), Some(e)) = (req.season, req.episode) {
        reveal_strlit("/stream/series/");
        reveal_strlit("/stream/");
        reveal_strlit("series");
        reveal_strlit("/");
        let tail = "/stream/series/"@ + id@ + ":"@ + decimal(s as nat) + ":"@ + decimal(e as nat)
            + ".json"@;
        let path = "/stream/"@ + "series"@ + "/"@ + (id@ + ":"@ + decimal(s as nat) + ":"@
            + decimal(e as nat)) + ".json"@;
        assert(path =~= tail);
        let base = trim_end_char(base_url(cache), '/');
        lemma_ends_of(base, tail);
        lemma_ends_of(base + "/"@ + config_segment(cache), tail);
    }
}

/// Whether a request calls it a series or an episode makes no difference.
pub proof fn series_and_episodes_are_asked_for_alike(
    cache: Map<Seq<char>, String>,
    a: FindStreamsRequest,
    b: FindStreamsRequest,
)
    requires
        a.kind == EntryKind::Series,
        b.kind == EntryKind::Episode,
        a.imdb_id == b.imdb_id,
        a.external_ids == b.external_ids,
        a.season == b.season,
        a.episode == b.episode,
    ensures
        streams_step(cache, a) == streams_step(cache, b),
{
}

/// A movie is asked for under its id, whatever season and episode the request
/// names.
pub proof fn movies_are_asked_for_by_id(
    cache: Map<Seq<char>, String>,
    req: FindStreamsRequest,
    id: String,
)
    requires
        req.kind == EntryKind::Movie,
        req.imdb_id == Some(id),
        id@.len() > 0,
    ensures
        streams_step(cache, req) matches StepView::Fetch(u) && ends(
            u,
            "/stream/movie/"@ + id@ + ".json"@,
        ),
{
    reveal_strlit("/stream/movie/");
    reveal_strlit("/stream/");
    reveal_strlit("movie");
    reveal_strlit("/");
    let tail = "/stream/movie/"@ + id@ + ".json"@;
    assert("/stream/"@ + "movie"@ + "/"@ + id@ + ".json"@ =~= tail);
    let base = trim_end_char(base_url(cache), '/');
    lemma_ends_of(base, tail);
    lemma_ends_of(base + "/"@ + config_segment(cache), tail);
}

/// Nothing is asked for without an id, and nothing for music.
pub proof fn nothing_else_is_asked_for(cache: Map<Seq<char>, String>, req: FindStreamsRequest)
    requires
        imdb_of(req) is None || req.kind == EntryKind::Artist || req.kind == EntryKind::Album
            || req.kind == EntryKind::Track,
    ensures
        streams_step(cache, req) matches StepView::Answer(Ok(s)) && s.len() == 0,
{
}

/// The id is the one in its own field, or else the one among the other ids;
/// an empty one counts for nothing.
pub proof fn id_is_found(req: FindStreamsRequest)
    ensures
        req.imdb_id matches Some(s) && s@.len() > 0 ==> imdb_of(req) == Some(req.imdb_id->0@),
        (req.imdb_id is None || req.imdb_id->0@.len() == 0) ==> imdb_of(req) == (
        if req.external_ids@.contains_key("imdb"@) && req.external_ids@["imdb"@]@.len() > 0 {
            Some(req.external_ids@["imdb"@]@)
        } else {
            None
        }),
{
}

/// The service is asked at the address that is set, with the trackers and the
/// debrid service that are set in its path, where any is.
pub proof fn settings_stand_in_the_path(cache: Map<Seq<char>, String>, key: (Seq<char>, Seq<char>))
    ensures
        ({
            let base = trim_end_char(
                env_value(cache, "TORRENTIO_BASE_URL"@, "https://torrentio.strem.fun"@),
                '/',
            );
            let trackers = env_value(cache, "TORRENTIO_PROVIDERS"@, ""@);
            let debrid = env_value(cache, "TORRENTIO_DEBRID"@, ""@);
            let u = stream_url(cache, key);
            let path = "/stream/"@ + key.0 + "/"@ + key.1 + ".json"@;
            &&& trackers.len() == 0 && debrid.len() == 0 ==> u == base + path
            &&& trackers.len() > 0 && debrid.len() == 0 ==> u == base + "/providers="@ + trackers
                + path
            &&& trackers.len() == 0 && debrid.len() > 0 ==> u == base + "/"@ + debrid + path
            &&& trackers.len() > 0 && debrid.len() > 0 ==> u == base + "/providers="@ + trackers
                + "|"@ + debrid + path
        }),
{
    reveal_strlit("/providers=");
    reveal_strlit("/");
    reveal_strlit("providers=");
    assert("/providers="@ =~= "/"@ + "providers="@);
    let base = trim_end_char(base_url(cache), '/');
    let path = "/stream/"@ + key.0 + "/"@ + key.1 + ".json"@;
    let trackers = env_value(cache, "TORRENTIO_PROVIDERS"@, ""@);
    let debrid = env_value(cache, "TORRENTIO_DEBRID"@, ""@);
    let u = stream_url(cache, key);
    if trackers.len() > 0 && debrid.len() == 0 {
        assert(u =~= base + "/providers="@ + trackers + path);
    }
    if trackers.len() > 0 && debrid.len() > 0 {
        assert(u =~= base + "/providers="@ + trackers + "|"@ + debrid + path);
    }
}

/// A stream is played from the debrid service where that gives an address,
/// and else from a magnet link that begins with its hash; an item with neither
/// is not handed out. It is called by the first line of its title, and tells
/// the tracker, the seeders and the size that the item tells.
pub proof fn streams_tell_what_items_tell(item: TorrentioStream, fallback: Seq<char>)
    ensures
        stream_maker(fallback)(item) == stream_of(item, fallback),
        stream_of(item, fallback) is Some <==> filled(item.url) is Some || filled(
            item.info_hash,
        ) is Some,
        stream_of(item, fallback) matches Some(s) ==> {
            &&& filled(item.url) matches Some(u) ==> s.url == u
            &&& filled(item.url) is None ==> begins(
                s.url,
                "magnet:?xt=urn:btih:"@ + filled(item.info_hash)->0 + "&dn="@ + encoded(
                    first_line_of(item.title@),
                ),
            )
            &&& s.title == first_line_of(item.title@)
            &&& indexer_of(item.title@) matches Some(i) ==> s.provider == i
            &&& indexer_of(item.title@) is None ==> s.provider == fallback
            &&& seeders_of(item.title@) matches Some(n) ==> s.seeders == Some(n as u32)
            &&& seeders_of(item.title@) is None ==> s.seeders is None
            &&& s.size_bytes == item.size_bytes
            &&& s.quality == quality_of(uppercase(first_line_of(item.title@)))
            &&& s.codec == codec_of(uppercase(first_line_of(item.title@)))
            &&& s.source == source_of(uppercase(first_line_of(item.title@)))
            &&& s.hdr == hdr_of(uppercase(first_line_of(item.title@)))
        },
{
    if let Some(h) = filled(item.info_hash) {
        links_hold_what_they_are_made_of(h, encoded(first_line_of(item.title@)));
    }
}

/// Every item that can be played is handed out, in the order in which they
/// came, and what went wrong is told by its code.
pub proof fn no_item_is_lost(items: Vec<TorrentioStream>, name: Seq<char>, e: String)
    ensures
        streams_outcome(Reply::Parsed(items), name) matches Ok(s) && picks(
            items@,
            stream_maker(name),
            s,
        ),
        streams_outcome(Reply::HttpError(e), name) == Err::<
            Seq<StreamView>,
            (Seq<char>, Seq<char>),
        >(("HTTP_ERROR"@, e@)),
        streams_outcome(Reply::ParseError(e), name) == Err::<
            Seq<StreamView>,
            (Seq<char>, Seq<char>),
        >(("PARSE_ERROR"@, e@)),
{
    collected_is_picked(items@, stream_maker(name));
}

/// The first line of a text is what stands before the first line feed, and
/// all of it where there is none, without white space around it.
pub proof fn first_line_stands_first(line: Seq<char>, rest: Seq<char>)
    requires
        find_char(line, '\n') is None,
    ensures
        first_line_of(line + seq!['\n'] + rest) == trim(line),
        first_line_of(line) == trim(line),
{
    let s = line + seq!['\n'] + rest;
    lemma_find_char(line, '\n');
    lemma_find_char(s, '\n');
    assert(s[line.len() as int] == '\n');
    let p = find_char(s, '\n').unwrap();
    if p < line.len() {
        assert(line[p] == '\n');
    }
    assert(s.take(p) =~= line);
}

/// Behind the gear stands the tracker: up to the next sign or line feed, and
/// without white space around it. Without a gear none is named.
pub proof fn tracker_stands_behind_the_gear(head: Seq<char>, name: Seq<char>, rest: Seq<char>)
    requires
        find_char(head, '⚙') is None,
        name.len() > 0,
        trimmed(name),
        name[0] != '\u{fe0f}',
        all(name, Class::Label),
        rest.len() > 0 ==> rest[0] == '\n' || sign(rest[0]),
    ensures
        indexer_of(head + seq!['⚙', '\u{fe0f}', ' '] + name + rest) == Some(name),
        indexer_of(head) is None,
{
    let mark = seq!['⚙', '\u{fe0f}', ' '];
    let s = head + mark + name + rest;
    lemma_find_char(head, '⚙');
    lemma_find_char(s, '⚙');
    assert(s[head.len() as int] == '⚙');
    let p = find_char(s, '⚙').unwrap();
    if p < head.len() {
        assert(head[p] == '⚙');
    }
    let tail = s.skip(p + 1);
    let label = seq!['\u{fe0f}', ' '] + name;
    assert(tail =~= label + rest);
    assert forall|i: int| 0 <= i < label.len() implies member(Class::Label, tail[i]) by {
        if i >= 2 {
            assert(tail[i] == name[i - 2]);
        }
    }
    if rest.len() > 0 {
        assert(tail[label.len() as int] == rest[0]);
    }
    lemma_run_is(tail, Class::Label, label.len());
    assert(tail.take(label.len() as int) =~= label);
    assert(label[0] == '\u{fe0f}' && label[1] == ' ' && label[2] == name[0]);
    lemma_run_is(label, Class::SpaceOrSelector, 2);
    assert(label.skip(2) =~= name);
    assert(trim_start(name) == name);
    assert(trim_end(name) == name);
}

/// Behind the sign for people stands the number of seeders.
pub proof fn seeders_stand_behind_their_sign(head: Seq<char>, n: nat, rest: Seq<char>)
    requires
        find_char(head, '👤') is None,
        n <= u32::MAX,
        rest.len() > 0 ==> !digit(rest[0]) && rest[0] != ',',
    ensures
        seeders_of(head + seq!['👤', ' '] + decimal(n) + rest) == Some(n),
{
    let s = head + seq!['👤', ' '] + decimal(n) + rest;
    lemma_find_char(head, '👤');
    lemma_find_char(s, '👤');
    assert(s[head.len() as int] == '👤');
    let p = find_char(s, '👤').unwrap();
    if p < head.len() {
        assert(head[p] == '👤');
    }
    lemma_decimal(n);
    lemma_natural_decimal(n, u32::MAX as nat);
    let d = decimal(n);
    let tail = s.skip(p + 1);
    assert(tail =~= seq![' '] + d + rest);
    assert(tail[0] == ' ' && tail[1] == d[0]);
    assert(digit(d[0]));
    lemma_run_is(tail, Class::NotDigit, 1);
    let t = tail.skip(1);
    assert(t =~= d + rest);
    assert forall|i: int| 0 <= i < d.len() implies member(Class::DigitOrComma, t[i]) by {
        assert(digit(d[i]));
    }
    if rest.len() > 0 {
        assert(t[d.len() as int] == rest[0]);
    }
    lemma_run_is(t, Class::DigitOrComma, d.len());
    assert(t.take(d.len() as int) =~= d);
    lemma_no_commas(d);
}

/// Digits hold no comma.
proof fn lemma_no_commas(d: Seq<char>)
    requires
        forall|i: int| 0 <= i < d.len() ==> digit(#[trigger] d[i]),
    ensures
        without_commas(d) == d,
    decreases d.len(),
{
    if d.len() > 0 {
        let e = d.drop_last();
        lemma_no_commas(e);
        assert(digit(d[d.len() - 1]));
        assert(e.push(d.last()) =~= d);
    }
}

/// A number stands behind whatever is no digit, and ends with its last digit.
pub proof fn first_run_of_digits_counts(front: Seq<char>, n: nat, rest: Seq<char>)
    requires
        all(front, Class::NotDigit),
        n <= u32::MAX,
        rest.len() > 0 ==> !digit(rest[0]),
    ensures
        first_number(front + decimal(n) + rest) == Some(n),
{
    let d = decimal(n);
    let s = front + d + rest;
    lemma_decimal(n);
    lemma_natural_decimal(n, u32::MAX as nat);
    assert(digit(d[0]));
    assert(s[front.len() as int] == d[0]);
    assert forall|i: int| 0 <= i < front.len() implies member(Class::NotDigit, s[i]) by {
        assert(s[i] == front[i]);
    }
    lemma_run_is(s, Class::NotDigit, front.len());
    let t = s.skip(front.len() as int);
    assert(t =~= d + rest);
    assert forall|i: int| 0 <= i < d.len() implies member(Class::Digit, t[i]) by {
        assert(digit(d[i]));
    }
    if rest.len() > 0 {
        assert(t[d.len() as int] == rest[0]);
    }
    lemma_run_is(t, Class::Digit, d.len());
    assert(t.take(d.len() as int) =~= d);
}

/// Commas between the digits of a number do not count.
pub proof fn commas_do_not_count(a: Seq<char>, b: Seq<char>)
    ensures
        without_commas(a + seq![','] + b) == without_commas(a) + without_commas(b),
        find_char(a, ',') is None ==> without_commas(a) == a,
    decreases b.len(),
{
    let s = a + seq![','] + b;
    if b.len() == 0 {
        assert(s.drop_last() =~= a);
        assert(s.last() == ',');
        assert(without_commas(b) =~= seq![]);
        assert(without_commas(a) + without_commas(b) =~= without_commas(a));
    } else {
        assert(s.drop_last() =~= a + seq![','] + b.drop_last());
        assert(s.last() == b.last());
        commas_do_not_count(a, b.drop_last());
        assert(without_commas(s) =~= without_commas(a) + without_commas(b));
    }
    if find_char(a, ',') is None {
        lemma_find_char(a, ',');
        lemma_commaless(a);
    }
}

/// A text without commas stays as it is.
proof fn lemma_commaless(a: Seq<char>)
    requires
        forall|i: int| 0 <= i < a.len() ==> #[trigger] a[i] != ',',
    ensures
        without_commas(a) == a,
    decreases a.len(),
{
    if a.len() > 0 {
        let e = a.drop_last();
        assert(a[a.len() - 1] != ',');
        assert forall|i: int| 0 <= i < e.len() implies #[trigger] e[i] != ',' by {
            assert(e[i] == a[i]);
        }
        lemma_commaless(e);
        assert(e.push(a.last()) =~= a);
    }
}

/// The seeders are the number behind their sign, or else the one behind the
/// first of the words for them that a number follows, in any case.
pub proof fn seeders_stand_behind_their_words(s: Seq<char>)
    ensures
        ({
            let behind_sign = match find_char(s, '👤') {
                Some(i) => first_grouped_number(s.skip(i + 1)),
                None => None,
            };
            let a = word_number(s, "seeds:"@);
            let b = word_number(s, "seed:"@);
            let c = word_number(s, "seeders:"@);
            let d = word_number(s, "seeder:"@);
            &&& behind_sign is Some ==> seeders_of(s) == behind_sign
            &&& behind_sign is None && a is Some ==> seeders_of(s) == a
            &&& behind_sign is None && a is None && b is Some ==> seeders_of(s) == b
            &&& behind_sign is None && a is None && b is None && c is Some ==> seeders_of(s) == c
            &&& behind_sign is None && a is None && b is None && c is None ==> seeders_of(s) == d
        }),
{
}

/// The number behind the word, which counts in any case.
pub open spec fn word_number(s: Seq<char>, word: Seq<char>) -> Option<nat> {
    if occurs(lower(s), word) {
        first_number(s.skip(find(lower(s), word)->0 + word.len()))
    } else {
        None
    }
}

/// The size is the one behind the sign for a disk, where one stands there, and
/// else the first in the text.
pub proof fn sizes_stand_behind_their_sign(head: Seq<char>, rest: Seq<char>, s: Seq<char>)
    requires
        find_char(head, '💾') is None,
    ensures
        size_in(rest) is Some ==> written_size_of(head + seq!['💾'] + rest) == size_in(rest),
        size_in(rest) is None ==> written_size_of(head + seq!['💾'] + rest) == size_in(
            head + seq!['💾'] + rest,
        ),
        find_char(s, '💾') is None ==> written_size_of(s) == size_in(s),
{
    let t = head + seq!['💾'] + rest;
    lemma_find_char(head, '💾');
    lemma_find_char(t, '💾');
    assert(t[head.len() as int] == '💾');
    let p = find_char(t, '💾').unwrap();
    if p < head.len() {
        assert(head[p] == '💾');
    }
    assert(t.skip(p + 1) =~= rest);
}

} // verus!
