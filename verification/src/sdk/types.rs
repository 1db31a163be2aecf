//! Requests and answers of the verbs.

use vstd::prelude::*;

use crate::sdk::kinds::{EntryKind, SearchScope};
use crate::sdk::result::views;
use crate::text::chars::{opt, texts};
use crate::text::table::Table;

verus! {

/// A search.
#[derive(Debug, Clone)]
pub struct SearchRequest {
    pub query: String,
    pub scope: SearchScope,
    pub page: u32,
    pub limit: u32,
    pub per_scope_limit: Option<u32>,
    pub locale: Option<String>,
}

/// A request for what an entry is played from.
#[derive(Debug, Clone)]
pub struct ResolveRequest {
    pub entry_id: String,
}

/// The answer to a search.
#[derive(Debug, Clone)]
pub struct SearchResponse {
    pub items: Vec<PluginEntry>,
    pub total: u32,
}

impl View for SearchResponse {
    type V = (Seq<EntryView>, u32);

    open spec fn view(&self) -> (Seq<EntryView>, u32) {
        (views(self.items@), self.total)
    }
}

/// One entry of a catalog.
#[derive(Debug, Clone)]
pub struct PluginEntry {
    pub id: String,
    pub kind: EntryKind,
    pub title: String,
    pub source: String,
    pub external_ids: Table<String>,
    pub year: Option<u32>,
    pub genre: Option<String>,
    pub description: Option<String>,
    pub poster_url: Option<String>,
    pub imdb_id: Option<String>,
    pub duration: Option<u32>,
    pub artist_name: Option<String>,
    pub album_name: Option<String>,
    pub track_number: Option<u32>,
    pub season: Option<u32>,
    pub episode: Option<u32>,
    /// Of a series: the number of its seasons.
    pub season_count: Option<u32>,
    /// The provider's ids of the seasons, from the first on, where each season
    /// is an entry of its own. Empty where one id serves all seasons.
    pub season_ids: Vec<String>,
    /// ISO 639-1 code of the language the entry was made in.
    pub original_language: Option<String>,
}

/// What an entry holds.
#[verifier::ext_equal]
pub struct EntryView {
    pub id: Seq<char>,
    pub kind: EntryKind,
    pub title: Seq<char>,
    pub source: Seq<char>,
    pub external_ids: Map<Seq<char>, Seq<char>>,
    pub year: Option<u32>,
    pub genre: Option<Seq<char>>,
    pub description: Option<Seq<char>>,
    pub poster_url: Option<Seq<char>>,
    pub imdb_id: Option<Seq<char>>,
    pub duration: Option<u32>,
    pub artist_name: Option<Seq<char>>,
    pub album_name: Option<Seq<char>>,
    pub track_number: Option<u32>,
    pub season: Option<u32>,
    pub episode: Option<u32>,
    pub season_count: Option<u32>,
    pub season_ids: Seq<Seq<char>>,
    pub original_language: Option<Seq<char>>,
}

/// The entry with nothing filled in.
pub open spec fn blank_entry() -> EntryView {
    EntryView {
        id: seq![],
        kind: EntryKind::Track,
        title: seq![],
        source: seq![],
        external_ids: Map::empty(),
        year: None,
        genre: None,
        description: None,
        poster_url: None,
        imdb_id: None,
        duration: None,
        artist_name: None,
        album_name: None,
        track_number: None,
        season: None,
        episode: None,
        season_count: None,
        season_ids: seq![],
        original_language: None,
    }
}

impl View for PluginEntry {
    type V = EntryView;

    open spec fn view(&self) -> EntryView {
        EntryView {
            id: self.id@,
            kind: self.kind,
            title: self.title@,
            source: self.source@,
            external_ids: self.external_ids@.map_values(|s: String| s@),
            year: self.year,
            genre: opt(self.genre),
            description: opt(self.description),
            poster_url: opt(self.poster_url),
            imdb_id: opt(self.imdb_id),
            duration: self.duration,
            artist_name: opt(self.artist_name),
            album_name: opt(self.album_name),
            track_number: self.track_number,
            season: self.season,
            episode: self.episode,
            season_count: self.season_count,
            season_ids: texts(self.season_ids@),
            original_language: opt(self.original_language),
        }
    }
}

impl Default for PluginEntry {
    fn default() -> (r: Self)
        ensures
            r@ == blank_entry(),
    {
        let r = PluginEntry {
            id: String::new(),
            kind: EntryKind::Track,
            title: String::new(),
            source: String::new(),
            external_ids: Table::new(),
            year: None,
            genre: None,
            description: None,
            poster_url: None,
            imdb_id: None,
            duration: None,
            artist_name: None,
            album_name: None,
            track_number: None,
            season: None,
            episode: None,
            season_count: None,
            season_ids: Vec::new(),
            original_language: None,
        };
        assert(r@ =~= blank_entry());
        r
    }
}

/// What an entry is played from.
#[derive(Debug, Clone)]
pub struct ResolveResponse {
    pub stream_url: String,
    pub quality: Option<String>,
    pub subtitles: Vec<SubtitleTrack>,
}

/// What a `ResolveResponse` holds.
#[verifier::ext_equal]
pub struct ResolveView {
    pub stream_url: Seq<char>,
    pub quality: Option<Seq<char>>,
    pub subtitles: Seq<TrackView>,
}

impl View for ResolveResponse {
    type V = ResolveView;

    open spec fn view(&self) -> ResolveView {
        ResolveView {
            stream_url: self.stream_url@,
            quality: opt(self.quality),
            subtitles: views(self.subtitles@),
        }
    }
}

/// A subtitle file.
#[derive(Debug, Clone)]
pub struct SubtitleTrack {
    pub language: String,
    pub url: String,
    pub format: String,
}

/// What a subtitle file is known by.
#[verifier::ext_equal]
pub struct TrackView {
    pub language: Seq<char>,
    pub url: Seq<char>,
    pub format: Seq<char>,
}

impl View for SubtitleTrack {
    type V = TrackView;

    open spec fn view(&self) -> TrackView {
        TrackView { language: self.language@, url: self.url@, format: self.format@ }
    }
}

/// A request for all streams of a title.
#[derive(Debug, Clone)]
pub struct FindStreamsRequest {
    pub title: String,
    pub year: Option<u32>,
    pub kind: EntryKind,
    /// Of an episode: its season, counted from one.
    pub season: Option<u32>,
    /// Of an episode: its number in the season, counted from one.
    pub episode: Option<u32>,
    pub external_ids: Table<String>,
    /// The IMDb id, also under `imdb` in `external_ids`.
    pub imdb_id: Option<String>,
    pub tmdb_id: Option<String>,
}

impl Default for FindStreamsRequest {
    fn default() -> (r: Self)
        ensures
            r.title@ == Seq::<char>::empty(),
            r.year is None,
            r.kind == EntryKind::Track,
            r.season is None,
            r.episode is None,
            r.external_ids@ == Map::<Seq<char>, String>::empty(),
            r.imdb_id is None,
            r.tmdb_id is None,
    {
        FindStreamsRequest {
            title: String::new(),
            year: None,
            kind: EntryKind::Track,
            season: None,
            episode: None,
            external_ids: Table::new(),
            imdb_id: None,
            tmdb_id: None,
        }
    }
}

/// The streams of a title.
#[derive(Debug, Clone)]
pub struct FindStreamsResponse {
    pub streams: Vec<Stream>,
}

impl View for FindStreamsResponse {
    type V = Seq<StreamView>;

    open spec fn view(&self) -> Seq<StreamView> {
        views(self.streams@)
    }
}

/// One stream of a title, with what is known of it.
#[derive(Debug, Clone)]
pub struct Stream {
    /// A magnet link for a torrent, an HTTPS URL for a direct stream.
    pub url: String,
    /// The release name of a torrent, the quality of a direct stream.
    pub title: String,
    /// The name of the plugin that found it.
    pub provider: String,
    pub quality: Option<String>,
    pub codec: Option<String>,
    pub source: Option<String>,
    pub hdr: bool,
    pub seeders: Option<u32>,
    pub size_bytes: Option<u64>,
    pub language: Option<String>,
    pub subtitles: Vec<SubtitleTrack>,
}

/// What a stream holds.
#[verifier::ext_equal]
pub struct StreamView {
    pub url: Seq<char>,
    pub title: Seq<char>,
    pub provider: Seq<char>,
    pub quality: Option<Seq<char>>,
    pub codec: Option<Seq<char>>,
    pub source: Option<Seq<char>>,
    pub hdr: bool,
    pub seeders: Option<u32>,
    pub size_bytes: Option<u64>,
    pub language: Option<Seq<char>>,
    pub subtitles: Seq<TrackView>,
}

impl View for Stream {
    type V = StreamView;

    open spec fn view(&self) -> StreamView {
        StreamView {
            url: self.url@,
            title: self.title@,
            provider: self.provider@,
            quality: opt(self.quality),
            codec: opt(self.codec),
            source: opt(self.source),
            hdr: self.hdr,
            seeders: self.seeders,
            size_bytes: self.size_bytes,
            language: opt(self.language),
            subtitles: views(self.subtitles@),
        }
    }
}

/// What is seen of a stream, of an entry and of an answer is what its fields
/// hold.
pub proof fn values_are_seen_in_full(s: Stream, e: PluginEntry, r: ResolveResponse, t: SubtitleTrack)
    ensures
        s@.url == s.url@ && s@.title == s.title@ && s@.provider == s.provider@,
        s@.quality == opt(s.quality) && s@.codec == opt(s.codec) && s@.source == opt(s.source),
        s@.hdr == s.hdr && s@.seeders == s.seeders && s@.size_bytes == s.size_bytes,
        s@.language == opt(s.language) && s@.subtitles.len() == s.subtitles@.len(),
        e@.id == e.id@ && e@.kind == e.kind && e@.title == e.title@ && e@.source == e.source@,
        e@.year == e.year && e@.genre == opt(e.genre) && e@.description == opt(e.description),
        e@.poster_url == opt(e.poster_url) && e@.imdb_id == opt(e.imdb_id),
        e@.duration == e.duration && e@.artist_name == opt(e.artist_name),
        e@.album_name == opt(e.album_name) && e@.track_number == e.track_number,
        e@.season == e.season && e@.episode == e.episode && e@.season_count == e.season_count,
        e@.original_language == opt(e.original_language),
        e@.season_ids.len() == e.season_ids@.len(),
        forall|i: int|
            0 <= i < e.season_ids@.len() ==> #[trigger] e@.season_ids[i] == e.season_ids@[i]@,
        forall|k: Seq<char>|
            e.external_ids@.contains_key(k) ==> #[trigger] e@.external_ids[k]
                == e.external_ids@[k]@,
        forall|k: Seq<char>| #[trigger]
            e@.external_ids.contains_key(k) <==> e.external_ids@.contains_key(k),
        r@.stream_url == r.stream_url@ && r@.quality == opt(r.quality),
        r@.subtitles.len() == r.subtitles@.len(),
        t@.language == t.language@ && t@.url == t.url@ && t@.format == t.format@,
{
}

/// What is seen of a list is what is seen of its items, one for one.
pub proof fn lists_are_seen_in_full(found: SearchResponse, streams: FindStreamsResponse)
    ensures
        found@.0.len() == found.items@.len() && found@.1 == found.total,
        forall|i: int| 0 <= i < found.items@.len() ==> #[trigger] found@.0[i] == found.items@[i]@,
        streams@.len() == streams.streams@.len(),
        forall|i: int|
            0 <= i < streams.streams@.len() ==> #[trigger] streams@[i] == streams.streams@[i]@,
{
}

/// A blank entry tells nothing, and counts as a track.
pub proof fn blank_entries_tell_nothing()
    ensures
        ({
            let e = blank_entry();
            &&& e.id.len() == 0 && e.title.len() == 0 && e.source.len() == 0
            &&& e.kind == EntryKind::Track
            &&& e.external_ids == Map::<Seq<char>, Seq<char>>::empty()
            &&& e.year is None && e.genre is None && e.description is None
            &&& e.poster_url is None && e.imdb_id is None && e.duration is None
            &&& e.artist_name is None && e.album_name is None && e.track_number is None
            &&& e.season is None && e.episode is None && e.season_count is None
            &&& e.season_ids.len() == 0 && e.original_language is None
        }),
{
}

} // verus!
