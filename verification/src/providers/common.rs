//! What the stream providers share: how a verb is carried out in two halves
//! around a request to a site, and how a release becomes a stream.

use vstd::prelude::*;

use crate::release::{
    codec_of, extract_codec, extract_hdr, extract_quality, extract_source, hdr_of, quality_of,
    source_of,
};
use crate::sdk::result::{views, PluginResult};
use crate::sdk::types::{
    FindStreamsResponse, ResolveResponse, ResolveView, SearchResponse, Stream, StreamView,
    SubtitleTrack, TrackView,
};
use crate::text::case::uppercase;
use crate::text::chars::opt;
use crate::text::number::{integer, parse_i32, signed, signed_reads_back};

verus! {

/// The first half of a verb: it answers at once, or a page is fetched first.
#[derive(Debug)]
pub enum Step<A> {
    Answer(A),
    Fetch(String),
}

/// What a `Step` holds.
pub enum StepView<A> {
    Answer(A),
    Fetch(Seq<char>),
}

impl<A: View> View for Step<A> {
    type V = StepView<A::V>;

    open spec fn view(&self) -> StepView<A::V> {
        match self {
            Step::Answer(a) => StepView::Answer(a@),
            Step::Fetch(u) => StepView::Fetch(u@),
        }
    }
}

/// What a search answers.
pub type SearchAnswer = PluginResult<SearchResponse>;

/// What a request for streams answers.
pub type StreamsAnswer = PluginResult<FindStreamsResponse>;

/// What a request for something to play answers.
pub type ResolveAnswer = PluginResult<ResolveResponse>;

/// What came of fetching a page and reading it.
#[derive(Debug)]
pub enum Reply<T> {
    HttpError(String),
    ParseError(String),
    Parsed(T),
}

/// What a release that a title names is as a stream.
pub open spec fn released(
    url: Seq<char>,
    title: Seq<char>,
    provider: Seq<char>,
    seeders: Option<u32>,
    size_bytes: Option<u64>,
) -> StreamView {
    let t = uppercase(title);
    StreamView {
        url,
        title,
        provider,
        quality: quality_of(t),
        codec: codec_of(t),
        source: source_of(t),
        hdr: hdr_of(t),
        seeders,
        size_bytes,
        language: None,
        subtitles: seq![],
    }
}

/// The stream that a release is.
pub fn release_stream(
    url: String,
    title: &str,
    provider: String,
    seeders: Option<u32>,
    size_bytes: Option<u64>,
) -> (r: Stream)
    ensures
        r@ == released(url@, title@, provider@, seeders, size_bytes),
{
    let r = Stream {
        url,
        title: title.to_owned(),
        provider,
        quality: extract_quality(title),
        codec: extract_codec(title),
        source: extract_source(title),
        hdr: extract_hdr(title),
        seeders,
        size_bytes,
        language: None,
        subtitles: Vec::new(),
    };
    assert(r@ =~= released(url@, title@, provider@, seeders, size_bytes));
    r
}

/// A text that is there and not empty.
pub open spec fn filled(o: Option<String>) -> Option<Seq<char>> {
    match o {
        Some(s) => if s@.len() > 0 {
            Some(s@)
        } else {
            None
        },
        None => None,
    }
}

/// The text, where it is there and not empty.
pub fn filled_text(o: &Option<String>) -> (r: Option<String>)
    ensures
        opt(r) == filled(*o),
{
    match o {
        Some(s) => if s.as_str().is_empty() {
            None
        } else {
            Some(s.clone())
        },
        None => None,
    }
}

/// The text, or the empty one.
pub open spec fn or_empty(o: Option<String>) -> Seq<char> {
    match o {
        Some(s) => s@,
        None => seq![],
    }
}

/// The text, or the empty one.
pub fn text_or_empty(o: &Option<String>) -> (r: String)
    ensures
        r@ == or_empty(*o),
{
    match o {
        Some(s) => s.clone(),
        None => String::new(),
    }
}

/// A number that is there, and zero in the place of a negative one.
pub open spec fn not_negative(n: Option<int>) -> Option<u32> {
    match n {
        Some(i) => Some(
            if i < 0 {
                0
            } else {
                i as u32
            },
        ),
        None => None,
    }
}

/// The count that a text writes, with zero in the place of a negative one.
pub open spec fn count_of(o: Option<String>) -> Option<u32> {
    match o {
        Some(s) => not_negative(integer(s@, 0x7fff_ffff)),
        None => None,
    }
}

/// Reads a count, with zero in the place of a negative one.
pub fn parse_count(o: &Option<String>) -> (r: Option<u32>)
    ensures
        r == count_of(*o),
{
    match o {
        Some(s) => match parse_i32(s.as_str()) {
            Some(n) => Some(
                if n < 0 {
                    0
                } else {
                    n as u32
                },
            ),
            None => None,
        },
        None => None,
    }
}

/// What a request for something to play answers, in its view.
pub type ResolveOutcome = Result<ResolveView, (Seq<char>, Seq<char>)>;

/// The answer that something is played from an address.
pub open spec fn resolved(url: Seq<char>, quality: Option<Seq<char>>) -> ResolveOutcome {
    Ok(ResolveView { stream_url: url, quality, subtitles: seq![] })
}

/// The answer that something is played from an address.
pub fn resolve_to(url: String, quality: Option<String>) -> (r: ResolveAnswer)
    ensures
        r@ == resolved(url@, opt(quality)),
{
    let subtitles: Vec<SubtitleTrack> = Vec::new();
    assert(views(subtitles@) =~= Seq::<TrackView>::empty());
    PluginResult::ok(ResolveResponse { stream_url: url, quality, subtitles })
}

/// A stream tells of a release what was told of it: where it is, its title,
/// who provides it, its seeders and its size. Quality, codec, source and range
/// are those that the title names in capitals, and nothing is made up.
pub proof fn release_is_told_as_it_is(
    url: Seq<char>,
    title: Seq<char>,
    provider: Seq<char>,
    seeders: Option<u32>,
    size_bytes: Option<u64>,
)
    ensures
        ({
            let s = released(url, title, provider, seeders, size_bytes);
            &&& s.url == url
            &&& s.title == title
            &&& s.provider == provider
            &&& s.seeders == seeders
            &&& s.size_bytes == size_bytes
            &&& s.quality == quality_of(uppercase(title))
            &&& s.codec == codec_of(uppercase(title))
            &&& s.source == source_of(uppercase(title))
            &&& s.hdr == hdr_of(uppercase(title))
            &&& s.language is None
            &&& s.subtitles.len() == 0
        }),
{
}

/// A count is read as it is written, and a negative one counts as none at all.
pub proof fn counts_are_read(n: int)
    requires
        -0x8000_0000 <= n <= 0x7fff_ffff,
    ensures
        forall|s: String|
            s@ == signed(n) ==> #[trigger] count_of(Some(s)) == Some(
                if n < 0 {
                    0u32
                } else {
                    n as u32
                },
            ),
        count_of(None) is None,
        not_negative(None) is None,
        not_negative(Some(n)) == Some(
            if n < 0 {
                0u32
            } else {
                n as u32
            },
        ),
{
    signed_reads_back(n, 0x7fff_ffff);
}

/// A text counts as given where it is there and holds something.
pub proof fn filled_texts_hold_something(o: Option<String>)
    ensures
        filled(o) is Some <==> (o matches Some(s) && s@.len() > 0),
        filled(o) matches Some(t) ==> t == o->0@ && or_empty(o) == t,
        filled(o) is None ==> or_empty(o).len() == 0,
{
}

/// What is handed out to be played is what was found, in the quality that it
/// was found in, and without subtitles.
pub proof fn resolved_is_what_was_found(url: Seq<char>, quality: Option<Seq<char>>)
    ensures
        resolved(url, quality) matches Ok(v) && v.stream_url == url && v.quality == quality
            && v.subtitles.len() == 0,
{
}

/// What is seen of a step is its answer, or else the address that is fetched.
pub proof fn steps_are_seen_in_full<A: View>(answer: A, url: String)
    ensures
        Step::Answer(answer)@ == StepView::Answer(answer@),
        Step::<A>::Fetch(url)@ == StepView::<A::V>::Fetch(url@),
{
}

} // verus!
