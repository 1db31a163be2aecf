//! Searches and streams from SoundCloud through yt-dlp.

use vstd::prelude::*;

use crate::json::{item_vals, parsed, Json, JsonVal};
use crate::providers::common::{resolve_to, resolved, ResolveAnswer};
use crate::providers::listing::{list, listed, Listing, ListingAnswer, ListingView};
use crate::providers::qobuz::{duration_of, title_with, titled};
use crate::sdk::plugin::PluginType;
use crate::sdk::result::{views, PluginResult};
use crate::sdk::types::ResolveView;
use crate::text::bytes::{byte_prefix, prefix_of_bytes};
use crate::text::cat::cat;
use crate::text::chars::{opt, same_text, texts, to_chars, to_text};
use crate::text::find::{has_text, occurs};
use crate::text::list::{
    collect_some, collected_is_picked, last_some, lemma_collect_step, lemma_last_step, picks,
};
use crate::text::split::{lines, lines_of, slices};
use crate::text::trim::{trim, trim_both, trim_text};

verus! {

/// The provider.
#[derive(Debug, Default)]
pub struct SoundCloud;

/// A command that the host runs.
#[derive(Debug, Clone)]
pub struct Command {
    pub program: String,
    pub args: Vec<String>,
    pub timeout_ms: u32,
}

impl View for Command {
    type V = (Seq<char>, Seq<Seq<char>>, u32);

    open spec fn view(&self) -> (Seq<char>, Seq<Seq<char>>, u32) {
        (self.program@, texts(self.args@), self.timeout_ms)
    }
}

/// The command that searches.
pub open spec fn search_command(query: Seq<char>) -> (Seq<char>, Seq<Seq<char>>, u32) {
    ("yt-dlp"@, seq!["--flat-playlist"@, "-j"@, "scsearch20:"@ + query], 30000)
}

/// The command that tells of one track. The two dashes keep its id from being
/// taken for an option.
pub open spec fn resolve_command(entry_id: Seq<char>) -> (Seq<char>, Seq<Seq<char>>, u32) {
    ("yt-dlp"@, seq!["-j"@, "--"@, entry_id], 30000)
}

/// The text of the first of two values that is one.
pub open spec fn either(a: JsonVal, b: JsonVal) -> Option<Seq<char>> {
    match a.text() {
        Some(s) => Some(s),
        None => b.text(),
    }
}

/// The year at the head of a date: its first four bytes.
pub open spec fn year_of(date: JsonVal) -> Option<Seq<char>> {
    match date.text() {
        Some(s) => byte_prefix(s, 4),
        None => None,
    }
}

/// The entry that a track is. What does not lead to SoundCloud is none.
pub open spec fn track_entry(v: JsonVal) -> Option<ListingView> {
    let url = v.member("webpage_url"@).text_or(""@);
    if occurs(url, "soundcloud.com"@) {
        Some(
            ListingView {
                id: url,
                title: titled(
                    v.member("title"@).text_or("Unknown"@),
                    v.member("uploader"@).text_or(""@),
                ),
                year: year_of(v.member("upload_date"@)),
                genre: v.member("categories"@).first().text(),
                rating: None,
                description: v.member("description"@).text(),
                poster_url: either(
                    v.member("thumbnail"@),
                    v.member("thumbnails"@).first().member("url"@),
                ),
                imdb_id: None,
                duration: None,
            },
        )
    } else {
        None
    }
}

/// The entry that a line of the output gives, given what it reads as.
pub open spec fn entry_of(p: Result<JsonVal, Seq<char>>) -> Option<ListingView> {
    match p {
        Ok(v) => track_entry(v),
        Err(_) => None,
    }
}

/// The entry that a line of the output gives. Blank lines and what is not JSON
/// give none.
pub open spec fn entry_in(raw: Seq<char>) -> Option<ListingView> {
    if trim(raw).len() == 0 {
        None
    } else {
        entry_of(parsed(trim(raw)))
    }
}

/// `entry_in` as a function.
pub open spec fn entry_maker() -> spec_fn(Seq<char>) -> Option<ListingView> {
    |line: Seq<char>| entry_in(line)
}

/// The entry that a track is.
pub fn parse_track(v: &Json) -> (r: Option<Listing>)
    ensures
        match r {
            Some(e) => track_entry(v@) == Some(e@),
            None => track_entry(v@) is None,
        },
{
    let url = v.get("webpage_url").text_or("");
    if !has_text(to_chars(url.as_str()).as_slice(), "soundcloud.com") {
        return None;
    }
    let artist = v.get("uploader").text_or("");
    let year = match v.get("upload_date").as_str() {
        Some(s) => {
            let cs = to_chars(s.as_str());
            match prefix_of_bytes(cs.as_slice(), 4) {
                Some(y) => Some(to_text(y)),
                None => None,
            }
        },
        None => None,
    };
    let poster_url = match v.get("thumbnail").text() {
        Some(u) => Some(u),
        None => v.get("thumbnails").first().get("url").text(),
    };
    let e = Listing {
        id: url,
        title: title_with(v.get("title").text_or("Unknown"), artist.as_str()),
        year,
        genre: v.get("categories").first().text(),
        rating: None,
        description: v.get("description").text(),
        poster_url,
        imdb_id: None,
        duration: None,
    };
    assert(e@ =~= track_entry(v@)->0);
    Some(e)
}

/// The entry that a line of the output gives.
fn parse_line(raw: &[char]) -> (r: Option<Listing>)
    ensures
        match r {
            Some(e) => entry_in(raw@) == Some(e@),
            None => entry_in(raw@) is None,
        },
{
    let line = trim_both(raw);
    if line.len() == 0 {
        return None;
    }
    match Json::parse(to_text(line).as_str()) {
        Ok(v) => parse_track(&v),
        Err(_) => None,
    }
}

/// The entries in the output of a search, one for a line.
pub fn parse_ytdlp_search_results(output: &str) -> (r: Vec<Listing>)
    ensures
        views(r@) == collect_some(lines(output@), entry_maker()),
{
    let chars = to_chars(output);
    let rows = lines_of(chars.as_slice());
    let ghost all = slices(rows@);
    let mut items: Vec<Listing> = Vec::new();
    for i in 0..rows.len()
        invariant
            all == slices(rows@),
            views(items@) == collect_some(all.take(i as int), entry_maker()),
    {
        proof {
            lemma_collect_step(all, entry_maker(), i as int);
        }
        let ghost before = views(items@);
        if let Some(e) = parse_line(rows[i]) {
            items.push(e);
            assert(views(items@) =~= before.push(e@));
        }
    }
    assert(all.take(all.len() as int) =~= all);
    items
}

/// Every entry leads to SoundCloud.
pub proof fn entries_lead_to_soundcloud(p: Result<JsonVal, Seq<char>>)
    ensures
        entry_of(p) matches Some(e) ==> occurs(e.id, "soundcloud.com"@),
{
}

/// The address of a format that holds sound alone, where it is one that can
/// be fetched or, with `any` set, whatever way it comes.
pub open spec fn audio_url(f: JsonVal, any: bool) -> Option<Seq<char>> {
    let protocol = f.member("protocol"@).text_or(""@);
    if f.member("vcodec"@).text_or("none"@) == "none"@ && (any || protocol == "https"@ || protocol
        == "http"@) {
        f.member("url"@).filled()
    } else {
        None
    }
}

/// `audio_url` as a function.
pub open spec fn audio_finder(any: bool) -> spec_fn(JsonVal) -> Option<Seq<char>> {
    |f: JsonVal| audio_url(f, any)
}

/// What a track is played from: its own address, or the last of its formats
/// that holds sound alone and can be fetched, or the last that holds sound
/// alone, or its page.
pub open spec fn stream_in(v: JsonVal) -> Option<Seq<char>> {
    let formats = v.member("formats"@).items();
    match v.member("url"@).filled() {
        Some(u) => Some(u),
        None => match last_some(formats, audio_finder(false)) {
            Some(u) => Some(u),
            None => match last_some(formats, audio_finder(true)) {
                Some(u) => Some(u),
                None => v.member("webpage_url"@).filled(),
            },
        },
    }
}

/// What a track is played from, given what the output reads as.
pub open spec fn stream_of(p: Result<JsonVal, Seq<char>>) -> Option<Seq<char>> {
    match p {
        Ok(v) => stream_in(v),
        Err(_) => None,
    }
}

/// The address of a format that holds sound alone.
fn parse_audio(f: &Json, any: bool) -> (r: Option<String>)
    ensures
        opt(r) == audio_url(f@, any),
{
    let protocol = f.get("protocol").text_or("");
    let vcodec = f.get("vcodec").text_or("none");
    if same_text(vcodec.as_str(), "none") && (any || same_text(protocol.as_str(), "https")
        || same_text(protocol.as_str(), "http")) {
        f.get("url").filled()
    } else {
        None
    }
}

/// The last of the formats that holds sound alone.
fn last_audio(formats: &Vec<Json>, any: bool) -> (r: Option<String>)
    ensures
        opt(r) == last_some(item_vals(formats@), audio_finder(any)),
{
    let ghost vals = item_vals(formats@);
    let mut n: usize = formats.len();
    assert(vals.take(n as int) =~= vals);
    while n > 0
        invariant
            n <= formats@.len(),
            vals == item_vals(formats@),
            last_some(vals, audio_finder(any)) == last_some(vals.take(n as int), audio_finder(any)),
        decreases n,
    {
        proof {
            lemma_last_step(vals, audio_finder(any), n as int);
            assert(vals[n - 1] == formats@[n - 1]@);
        }
        if let Some(u) = parse_audio(&formats[n - 1], any) {
            return Some(u);
        }
        n -= 1;
    }
    None
}

/// What a track is played from.
pub fn track_stream(v: &Json) -> (r: Option<String>)
    ensures
        opt(r) == stream_in(v@),
{
    if let Some(u) = v.get("url").filled() {
        return Some(u);
    }
    if let Some(formats) = v.get("formats").as_array() {
        assert(item_vals(formats@) == v@.member("formats"@).items());
        if let Some(u) = last_audio(formats, false) {
            return Some(u);
        }
        if let Some(u) = last_audio(formats, true) {
            return Some(u);
        }
    }
    v.get("webpage_url").filled()
}

/// What a track is played from, by the output of the command.
pub fn parse_ytdlp_resolve(output: &str) -> (r: Option<String>)
    ensures
        opt(r) == stream_of(parsed(output@)),
{
    match Json::parse(output) {
        Ok(v) => track_stream(&v),
        Err(_) => None,
    }
}

/// A number of seconds as minutes and seconds.
pub fn format_duration(seconds: u64) -> (r: String)
    ensures
        r@ == duration_of(seconds as nat),
{
    crate::providers::qobuz::format_duration(seconds)
}

impl SoundCloud {
    /// The provider's name.
    pub fn name(&self) -> (r: &str)
        ensures
            r@ == "soundcloud"@,
    {
        "soundcloud"
    }

    /// The provider's version.
    pub fn version(&self) -> (r: &str)
        ensures
            r@ == "0.2.0"@,
    {
        "0.2.0"
    }

    /// What the provider is for.
    pub fn plugin_type(&self) -> (r: PluginType)
        ensures
            r == PluginType::Provider,
    {
        PluginType::Provider
    }

    /// Begins a search: the command to run, or nothing for an empty query.
    pub fn search(&self, query: &str) -> (r: Option<Command>)
        ensures
            match r {
                Some(c) => trim(query@).len() > 0 && c@ == search_command(trim(query@)),
                None => trim(query@).len() == 0,
            },
    {
        let q = trim_text(query);
        if q.as_str().is_empty() {
            return None;
        }
        let mut args: Vec<String> = Vec::new();
        args.push("--flat-playlist".to_owned());
        args.push("-j".to_owned());
        args.push(cat("scsearch20:", q.as_str()));
        assert(texts(args@) =~= search_command(trim(query@)).1);
        Some(Command { program: "yt-dlp".to_owned(), args, timeout_ms: 30000 })
    }

    /// Ends a search: the entries in the command's output. Without an output
    /// nothing was searched for.
    pub fn search_reply(&self, output: Option<Result<String, String>>) -> (r: ListingAnswer)
        ensures
            r@ == match output {
                None => listed(seq![]),
                Some(Err(e)) => Err(("search_failed"@, e@)),
                Some(Ok(o)) => listed(collect_some(lines(o@), entry_maker())),
            },
    {
        match output {
            Some(Ok(o)) => list(parse_ytdlp_search_results(o.as_str())),
            Some(Err(e)) => PluginResult::err("search_failed", e.as_str()),
            None => {
                let items: Vec<Listing> = Vec::new();
                assert(views(items@) =~= seq![]);
                list(items)
            },
        }
    }

    /// Begins a request to resolve: the command to run, or the error that
    /// there is no entry.
    pub fn resolve(&self, entry_id: &str) -> (r: Result<Command, ResolveAnswer>)
        ensures
            match r {
                Ok(c) => trim(entry_id@).len() > 0 && c@ == resolve_command(trim(entry_id@)),
                Err(a) => trim(entry_id@).len() == 0 && a@ == Err::<
                    ResolveView,
                    (Seq<char>, Seq<char>),
                >(("resolve_failed"@, "empty entry_id"@)),
            },
    {
        let id = trim_text(entry_id);
        if id.as_str().is_empty() {
            return Err(PluginResult::err("resolve_failed", "empty entry_id"));
        }
        let mut args: Vec<String> = Vec::new();
        args.push("-j".to_owned());
        args.push("--".to_owned());
        args.push(id);
        assert(texts(args@) =~= resolve_command(trim(entry_id@)).1);
        Ok(Command { program: "yt-dlp".to_owned(), args, timeout_ms: 30000 })
    }

    /// Ends a request to resolve: the stream that the output names, or else
    /// the entry itself.
    pub fn resolve_reply(&self, output: Result<String, String>, entry_id: &str) -> (r:
        ResolveAnswer)
        ensures
            r@ == match output {
                Err(e) => Err(("resolve_failed"@, e@)),
                Ok(o) => match stream_of(parsed(o@)) {
                    Some(u) => resolved(u, Some("audio"@)),
                    None => resolved(trim(entry_id@), Some("audio"@)),
                },
            },
    {
        match output {
            Ok(o) => match parse_ytdlp_resolve(o.as_str()) {
                Some(u) => resolve_to(u, Some("audio".to_owned())),
                None => resolve_to(trim_text(entry_id), Some("audio".to_owned())),
            },
            Err(e) => PluginResult::err("resolve_failed", e.as_str()),
        }
    }
}

/// A track is listed under its address, where that is one of the site, with
/// title and uploader, the first four bytes of the day of its upload as the
/// year, its first category, its text and its picture or else the first of its
/// pictures.
pub proof fn tracks_are_listed_as_they_are(v: JsonVal, e: Seq<char>)
    ensures
        entry_of(Err(e)) is None,
        entry_of(Ok(v)) == track_entry(v),
        track_entry(v) is Some <==> occurs(v.member("webpage_url"@).text_or(""@), "soundcloud.com"@),
        track_entry(v) matches Some(t) ==> {
            let title = v.member("title"@).text_or("Unknown"@);
            let by = v.member("uploader"@).text();
            let day = v.member("upload_date"@).text();
            &&& t.id == v.member("webpage_url"@).text_or(""@)
            &&& by matches Some(u) ==> t.title == titled(title, u)
            &&& by is None ==> t.title == title
            &&& day matches Some(d) ==> t.year == byte_prefix(d, 4)
            &&& day is None ==> t.year is None
            &&& t.genre == v.member("categories"@).first().text()
            &&& t.description == v.member("description"@).text()
            &&& v.member("thumbnail"@).text() is Some ==> t.poster_url == v.member(
                "thumbnail"@,
            ).text()
            &&& v.member("thumbnail"@).text() is None ==> t.poster_url == v.member(
                "thumbnails"@,
            ).first().member("url"@).text()
            &&& t.rating is None && t.imdb_id is None && t.duration is None
        },
{
    reveal_strlit("");
}

/// Each line of the output is read for itself, without the white space around
/// it; one of nothing else lists nothing.
pub proof fn lines_are_read_for_themselves(line: Seq<char>)
    ensures
        entry_maker()(line) == entry_in(line),
        trim(line).len() == 0 ==> entry_in(line) is None,
        trim(line).len() > 0 ==> entry_in(line) == entry_of(parsed(trim(line))),
{
}

/// Every line of the output that holds a track of the site lists it, in the
/// order in which they came.
pub proof fn no_line_is_lost(rows: Seq<Seq<char>>)
    ensures
        picks(rows, entry_maker(), collect_some(rows, entry_maker())),
{
    collected_is_picked(rows, entry_maker());
}

/// A format is played where it has no picture and an address, and comes over
/// the web unless any way will do.
pub proof fn formats_without_pictures_are_played(f: JsonVal, any: bool)
    ensures
        audio_finder(any)(f) == audio_url(f, any),
        ({
            let codec = f.member("vcodec"@).text();
            let silent = codec is None || codec == Some("none"@);
            let protocol = f.member("protocol"@).text();
            let web = protocol == Some("https"@) || protocol == Some("http"@);
            let url = f.member("url"@).text();
            &&& audio_url(f, any) is Some <==> silent && (any || web) && (url matches Some(u)
                && u.len() > 0)
            &&& audio_url(f, any) is Some ==> audio_url(f, any) == url
        }),
{
    reveal_strlit("");
    reveal_strlit("http");
    reveal_strlit("https");
    assert(""@.len() == 0 && "http"@.len() == 4 && "https"@.len() == 5);
}

/// A track is played from its address where it has one; or else from the last
/// format that comes over the web, or else from the last format at all, or else
/// from its page.
pub proof fn best_address_is_played(v: JsonVal, e: Seq<char>, k: int)
    ensures
        ({
            let formats = v.member("formats"@).items();
            let url = v.member("url"@).text();
            let given = url matches Some(u) && u.len() > 0;
            let web = forall|i: int|
                0 <= i < formats.len() ==> audio_url(#[trigger] formats[i], false) is None;
            let none = forall|i: int|
                0 <= i < formats.len() ==> audio_url(#[trigger] formats[i], true) is None;
            &&& given ==> stream_of(Ok(v)) == url
            &&& !given && 0 <= k < formats.len() && audio_url(formats[k], false) is Some && (
            forall|i: int|
                k < i < formats.len() ==> audio_url(#[trigger] formats[i], false) is None)
                ==> stream_of(Ok(v)) == audio_url(formats[k], false)
            &&& !given && web && 0 <= k < formats.len() && audio_url(formats[k], true) is Some && (
            forall|i: int|
                k < i < formats.len() ==> audio_url(#[trigger] formats[i], true) is None)
                ==> stream_of(Ok(v)) == audio_url(formats[k], true)
            &&& !given && none ==> stream_of(Ok(v)) == v.member("webpage_url"@).filled()
            &&& stream_of(Err(e)) is None
        }),
{
    let formats = v.member("formats"@).items();
    lemma_last_is(formats, audio_finder(false), k);
    lemma_last_is(formats, audio_finder(true), k);
    assert forall|i: int| 0 <= i < formats.len() && audio_url(#[trigger] formats[i], true)
        is None implies audio_url(formats[i], false) is None by {}
    lemma_last_none(formats, audio_finder(false));
    lemma_last_none(formats, audio_finder(true));
}

/// What comes last comes of the last item of which `f` makes something.
proof fn lemma_last_is(s: Seq<JsonVal>, f: spec_fn(JsonVal) -> Option<Seq<char>>, k: int)
    ensures
        0 <= k < s.len() && f(s[k]) is Some && (forall|i: int|
            k < i < s.len() ==> f(#[trigger] s[i]) is None) ==> last_some(s, f) == f(s[k]),
    decreases s.len(),
{
    if 0 <= k < s.len() && f(s[k]) is Some && (forall|i: int|
        k < i < s.len() ==> f(#[trigger] s[i]) is None) && k < s.len() - 1 {
        let d = s.drop_last();
        assert(f(s[s.len() - 1]) is None);
        assert forall|i: int| k < i < d.len() implies f(#[trigger] d[i]) is None by {
            assert(d[i] == s[i]);
        }
        lemma_last_is(d, f, k);
    }
}

/// Nothing comes where `f` makes nothing of any item.
proof fn lemma_last_none(s: Seq<JsonVal>, f: spec_fn(JsonVal) -> Option<Seq<char>>)
    ensures
        (forall|i: int| 0 <= i < s.len() ==> f(#[trigger] s[i]) is None) ==> last_some(s, f) is None,
    decreases s.len(),
{
    if s.len() > 0 && (forall|i: int| 0 <= i < s.len() ==> f(#[trigger] s[i]) is None) {
        let d = s.drop_last();
        assert(f(s[s.len() - 1]) is None);
        assert forall|i: int| 0 <= i < d.len() implies f(#[trigger] d[i]) is None by {
            assert(d[i] == s[i]);
        }
        lemma_last_none(d, f);
    }
}

/// A search asks for the first twenty tracks, without playing any, and a track
/// is asked for by its id, which stands behind the end of the options.
pub proof fn commands_ask_for_what_they_are_for(query: Seq<char>, entry_id: Seq<char>)
    ensures
        search_command(query).0 == "yt-dlp"@,
        search_command(query).1 == seq!["--flat-playlist"@, "-j"@, "scsearch20:"@ + query],
        search_command(query).2 == 30000,
        resolve_command(entry_id).0 == "yt-dlp"@,
        resolve_command(entry_id).1 == seq!["-j"@, "--"@, entry_id],
        resolve_command(entry_id).2 == 30000,
{
}

/// What is seen of a command is its program, its arguments and its time.
pub proof fn commands_are_seen_in_full(c: Command)
    ensures
        c@.0 == c.program@ && c@.2 == c.timeout_ms && c@.1.len() == c.args@.len(),
        forall|i: int| 0 <= i < c.args@.len() ==> #[trigger] c@.1[i] == c.args@[i]@,
{
}

} // verus!
