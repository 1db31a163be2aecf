//! Searches Spotify, with an account that the user signs in to.

use vstd::prelude::*;
use vstd::utf8::encode_utf8;

use crate::json::{item_vals, parsed, rendered, Json, JsonVal};
use crate::markup::{behind, text_behind};
use crate::providers::common::{resolve_to, resolved, ResolveAnswer};
use crate::providers::listing::{list, listed, Listing, ListingAnswer, ListingView};
use crate::providers::oauth::{
    authorized, authorized_payload, expires_at, expiry, token_step, CachedToken, TokenStep,
};
use crate::providers::qobuz::{duration_of, format_duration, title_with, titled, urlencoding};
use crate::sdk::plugin::PluginType;
use crate::sdk::result::{views, PluginResult};
use crate::text::case::{alphanumeric, ascii, is_alphanumeric};
use crate::text::cat::{cat, cat3, cat4, cat5};
use crate::text::chars::{byte_len, opt, take_to, to_chars, to_text};
use crate::text::class::{head, lemma_run_is, member, Class};
use crate::text::find::{at, begins, begins_with, find, has_text, lemma_has, occurs};
use crate::text::list::{collect_some, collected_is_picked, lemma_collect_step, picks};
use crate::text::number::{decimal, decimal_text};
use crate::text::percent::{encoded, url_encode};
use crate::text::table::Table;
use crate::text::trim::{trim, trim_text};

verus! {

/// The provider.
#[derive(Debug, Default)]
pub struct Spotify;

/// The id under which the service knows the application: the one that the
/// user has set, or else the public one.
pub open spec fn client(cache: Map<Seq<char>, String>) -> Seq<char> {
    if cache.contains_key("client_id"@) {
        cache["client_id"@]@
    } else {
        "515ab11b9e0447278653f43520eea7d9"@
    }
}

/// The id under which the service knows the application.
pub fn client_id(cache: &Table<String>) -> (r: String)
    ensures
        r@ == client(cache@),
{
    match cache.get("client_id") {
        Some(c) => c.clone(),
        None => "515ab11b9e0447278653f43520eea7d9".to_owned(),
    }
}

/// What the service answers to a request for a token.
#[derive(Debug, Clone)]
pub struct TokenResponse {
    pub access_token: String,
    /// Not given again when a token is refreshed.
    pub refresh_token: Option<String>,
    /// In seconds.
    pub expires_in: u64,
}

/// The refresh token to keep: the new one, or else the one that was used.
pub open spec fn kept_refresh(new: Option<String>, existing: Option<&str>) -> Option<Seq<char>> {
    match new {
        Some(t) => Some(t@),
        None => match existing {
            Some(t) => Some(t@),
            None => None,
        },
    }
}

/// The token to keep, given the time at which it was had. Without any refresh
/// token there is none.
pub fn build_cached_token(tr: TokenResponse, existing_refresh: Option<&str>, now: u64) -> (r: Result<
    CachedToken,
    String,
>)
    requires
        expiry(now as nat, tr.expires_in as nat) <= u64::MAX,
    ensures
        match r {
            Ok(c) => {
                &&& c.access_token == tr.access_token
                &&& kept_refresh(tr.refresh_token, existing_refresh) == Some(c.refresh_token@)
                &&& c.expires_at == expiry(now as nat, tr.expires_in as nat)
            },
            Err(m) => kept_refresh(tr.refresh_token, existing_refresh) is None && m@
                == "no refresh_token in token response"@,
        },
{
    let refresh_token = match tr.refresh_token {
        Some(t) => t,
        None => match existing_refresh {
            Some(t) => t.to_owned(),
            None => {
                return Err("no refresh_token in token response".to_owned());
            },
        },
    };
    Ok(
        CachedToken {
            access_token: tr.access_token,
            refresh_token,
            expires_at: expires_at(now, tr.expires_in),
        },
    )
}

/// Refreshing a token with the refresh token that is kept never loses it.
pub proof fn refreshing_keeps_a_refresh_token(new: Option<String>, existing: &str)
    ensures
        kept_refresh(new, Some(existing)) is Some,
        new is None ==> kept_refresh(new, Some(existing)) == Some(existing@),
{
}

/// What a verb does to have a token, given the one that is kept and the time.
pub fn ensure_authenticated(cached: Option<CachedToken>, now: u64) -> (r: TokenStep)
    ensures
        match cached {
            Some(t) => if now < t.expires_at {
                r == TokenStep::Use(t.access_token)
            } else {
                r == TokenStep::Refresh(t.refresh_token)
            },
            None => r == TokenStep::SignIn,
        },
{
    token_step(cached, now)
}

/// The form that asks for a new token with a refresh token.
pub fn refresh_form(cache: &Table<String>, refresh_token: &str) -> (r: String)
    ensures
        r@ == "grant_type=refresh_token&refresh_token="@ + encoded(refresh_token@) + "&client_id="@
            + encoded(client(cache@)),
{
    cat4(
        "grant_type=refresh_token&refresh_token=",
        urlencoding(refresh_token).as_str(),
        "&client_id=",
        urlencoding(client_id(cache).as_str()).as_str(),
    )
}

/// Where the browser is sent when the user has signed in. The service wants
/// it without TLS.
pub open spec fn redirect_uri(port: nat) -> Seq<char> {
    "http://127.0.0.1:"@ + decimal(port) + "/login"@
}

/// Where the browser is sent when the user has signed in.
fn redirect_to(port: u16) -> (r: String)
    ensures
        r@ == redirect_uri(port as nat),
{
    cat3("http://127.0.0.1:", decimal_text(port as u64).as_str(), "/login")
}

/// The address at which the user signs in.
pub open spec fn auth_url(cache: Map<Seq<char>, String>, port: nat, code_challenge: Seq<char>) -> Seq<
    char,
> {
    "https://accounts.spotify.com/authorize?client_id="@ + client(cache)
        + "&redirect_uri="@ + redirect_uri(port) + "&response_type=code&scope="@
        + encoded("user-library-read streaming user-read-private"@) + "&code_challenge="@
        + code_challenge + "&code_challenge_method=S256"@
}

/// The address at which the user signs in.
pub fn build_auth_url(cache: &Table<String>, port: u16, code_challenge: &str) -> (r: String)
    ensures
        r@ == auth_url(cache@, port as nat, code_challenge@),
{
    let mut url = cat5(
        "https://accounts.spotify.com/authorize?client_id=",
        client_id(cache).as_str(),
        "&redirect_uri=",
        redirect_to(port).as_str(),
        "&response_type=code&scope=",
    );
    url.append(url_encode("user-library-read streaming user-read-private").as_str());
    url.append("&code_challenge=");
    url.append(code_challenge);
    url.append("&code_challenge_method=S256");
    url
}

/// The form that exchanges the code of a sign-in for a token.
pub open spec fn exchange_form_of(
    cache: Map<Seq<char>, String>,
    code: Seq<char>,
    code_verifier: Seq<char>,
    port: nat,
) -> Seq<char> {
    "grant_type=authorization_code&code="@ + encoded(code) + "&redirect_uri="@ + encoded(
        redirect_uri(port),
    ) + "&client_id="@ + encoded(client(cache)) + "&code_verifier="@ + encoded(code_verifier)
}

/// The form that exchanges the code of a sign-in for a token.
pub fn exchange_form(cache: &Table<String>, code: &str, code_verifier: &str, port: u16) -> (r:
    String)
    ensures
        r@ == exchange_form_of(cache@, code@, code_verifier@, port as nat),
{
    let redirect = redirect_to(port);
    let mut body = cat5(
        "grant_type=authorization_code&code=",
        urlencoding(code).as_str(),
        "&redirect_uri=",
        urlencoding(redirect.as_str()).as_str(),
        "&client_id=",
    );
    body.append(urlencoding(client_id(cache).as_str()).as_str());
    body.append("&code_verifier=");
    body.append(urlencoding(code_verifier).as_str());
    body
}

/// The address that the sign-in was asked to return to is the one that the
/// code is exchanged with, and it is on this machine, without TLS.
pub proof fn redirect_uris_match(
    cache: Map<Seq<char>, String>,
    code: Seq<char>,
    verifier: Seq<char>,
    challenge: Seq<char>,
    port: nat,
)
    ensures
        occurs(auth_url(cache, port, challenge), "&redirect_uri="@ + redirect_uri(port)),
        occurs(
            exchange_form_of(cache, code, verifier, port),
            "&redirect_uri="@ + encoded(redirect_uri(port)),
        ),
        begins(redirect_uri(port), "http://127.0.0.1:"@),
{
    let url = auth_url(cache, port, challenge);
    let mark = "&redirect_uri="@ + redirect_uri(port);
    let i = ("https://accounts.spotify.com/authorize?client_id="@ + client(cache)).len() as int;
    assert(url.subrange(i, i + mark.len()) =~= mark);
    assert(at(url, mark, i));
    lemma_has(url, mark);
    let form = exchange_form_of(cache, code, verifier, port);
    let mark = "&redirect_uri="@ + encoded(redirect_uri(port));
    let i = ("grant_type=authorization_code&code="@ + encoded(code)).len() as int;
    assert(form.subrange(i, i + mark.len()) =~= mark);
    assert(at(form, mark, i));
    lemma_has(form, mark);
    let host = "http://127.0.0.1:"@;
    assert(redirect_uri(port).subrange(0, host.len() as int) =~= host);
}

/// The request for a page with a token.
pub fn get_with_token(url: &str, token: &str) -> (r: String)
    ensures
        r@ == rendered(authorized(url@, token@, None)),
{
    authorized_payload(url, token, None)
}

/// A number of milliseconds as minutes and seconds.
pub fn format_duration_ms(ms: u64) -> (r: String)
    ensures
        r@ == duration_of(ms as nat / 1000),
{
    format_duration(ms / 1000)
}

/// The entry that a track is. One without an id or a name is none.
pub open spec fn track_entry(t: JsonVal) -> Option<ListingView> {
    match (t.member("id"@).text(), t.member("name"@).text()) {
        (Some(id), Some(name)) => {
            let album = t.member("album"@).member("name"@).text_or(""@);
            Some(
                ListingView {
                    id: "spotify:track:"@ + id,
                    title: titled(
                        name,
                        t.member("artists"@).first().member("name"@).text_or(""@),
                    ),
                    year: None,
                    genre: None,
                    rating: None,
                    description: if album.len() == 0 {
                        None
                    } else {
                        Some(album)
                    },
                    poster_url: t.member("album"@).member("images"@).first().member("url"@).text(),
                    imdb_id: None,
                    duration: Some(
                        duration_of(t.member("duration_ms"@).uint_or_zero() as nat / 1000),
                    ),
                },
            )
        },
        _ => None,
    }
}

/// `track_entry` as a function.
pub open spec fn track_maker() -> spec_fn(JsonVal) -> Option<ListingView> {
    |t: JsonVal| track_entry(t)
}

/// The entries in the answer to a search.
pub open spec fn entries_of(v: JsonVal) -> Seq<ListingView> {
    collect_some(v.member("tracks"@).member("items"@).items(), track_maker())
}

/// The entries in the answer to a search, given what it reads as. What is not
/// JSON has none.
pub open spec fn results_of(p: Result<JsonVal, Seq<char>>) -> Seq<ListingView> {
    match p {
        Ok(v) => entries_of(v),
        Err(_) => seq![],
    }
}

/// The entry that a track is.
fn parse_track(t: &Json) -> (r: Option<Listing>)
    ensures
        match r {
            Some(e) => track_entry(t@) == Some(e@),
            None => track_entry(t@) is None,
        },
{
    let id = match t.get("id").text() {
        Some(s) => s,
        None => {
            return None;
        },
    };
    let name = match t.get("name").text() {
        Some(s) => s,
        None => {
            return None;
        },
    };
    let artist = t.get("artists").first().get("name").text_or("");
    let album = t.get("album").get("name").text_or("");
    let e = Listing {
        id: cat("spotify:track:", id.as_str()),
        title: title_with(name, artist.as_str()),
        year: None,
        genre: None,
        rating: None,
        description: if album.as_str().is_empty() {
            None
        } else {
            Some(album)
        },
        poster_url: t.get("album").get("images").first().get("url").text(),
        imdb_id: None,
        duration: Some(format_duration_ms(t.get("duration_ms").uint_or_zero())),
    };
    assert(e@ =~= track_entry(t@)->0);
    Some(e)
}

/// The entries in the answer to a search.
pub fn search_entries(v: &Json) -> (r: Vec<Listing>)
    ensures
        views(r@) == entries_of(v@),
{
    let mut items: Vec<Listing> = Vec::new();
    let ghost vals = v@.member("tracks"@).member("items"@).items();
    if let Some(tracks) = v.get("tracks").get("items").as_array() {
        assert(item_vals(tracks@) == vals);
        for i in 0..tracks.len()
            invariant
                item_vals(tracks@) == vals,
                views(items@) == collect_some(vals.take(i as int), track_maker()),
        {
            proof {
                lemma_collect_step(vals, track_maker(), i as int);
                assert(vals[i as int] == tracks@[i as int]@);
            }
            let ghost before = views(items@);
            if let Some(e) = parse_track(&tracks[i]) {
                items.push(e);
                assert(views(items@) =~= before.push(e@));
            }
        }
        assert(vals.take(vals.len() as int) =~= vals);
    } else {
        assert(views(items@) =~= collect_some(vals, track_maker()));
    }
    items
}

/// The entries in the answer to a search.
pub fn parse_search_results(body: &str) -> (r: Vec<Listing>)
    ensures
        views(r@) == results_of(parsed(body@)),
{
    match Json::parse(body) {
        Ok(v) => search_entries(&v),
        Err(_) => {
            let items: Vec<Listing> = Vec::new();
            assert(views(items@) =~= seq![]);
            items
        },
    }
}

/// A character of a track's id: a letter or a number, `-` or `_`.
pub open spec fn id_char(c: char) -> bool {
    alphanumeric(c) || c == '-' || c == '_'
}

/// How many characters of an id stand at the head of `s`.
pub open spec fn id_run(s: Seq<char>) -> nat
    decreases s.len(),
{
    if s.len() > 0 && id_char(s[0]) {
        1 + id_run(s.skip(1))
    } else {
        0
    }
}

/// The id, where it has more than ten bytes.
pub open spec fn long_id(id: Seq<char>) -> Option<Seq<char>> {
    if encode_utf8(id).len() > 10 {
        Some(id)
    } else {
        None
    }
}

/// The id in the address of a track: what stands behind `track/`, where it is
/// long enough.
pub open spec fn track_id_in(url: Seq<char>) -> Option<Seq<char>> {
    match behind(url, "track/"@) {
        Some(rest) => long_id(rest.take(id_run(rest) as int)),
        None => None,
    }
}

/// The id in the address of a track, of an address in ASCII.
pub open spec fn ascii_track_id_in(url: Seq<char>) -> Option<Seq<char>> {
    match behind(url, "track/"@) {
        Some(rest) => long_id(head(rest, Class::Slug)),
        None => None,
    }
}

/// The run that the first characters make up.
proof fn lemma_id_run_is(s: Seq<char>, n: nat)
    requires
        n <= s.len(),
        forall|i: int| 0 <= i < n ==> id_char(#[trigger] s[i]),
        n < s.len() ==> !id_char(s[n as int]),
    ensures
        id_run(s) == n,
    decreases n,
{
    if n > 0 {
        let t = s.skip(1);
        assert forall|i: int| 0 <= i < n - 1 implies id_char(#[trigger] t[i]) by {
            assert(t[i] == s[i + 1]);
        }
        lemma_id_run_is(t, (n - 1) as nat);
        assert(id_char(s[0]));
    }
}

/// The id in the address of a track.
pub fn extract_spotify_track_id(url: &str) -> (r: Option<String>)
    ensures
        opt(r) == track_id_in(url@),
        ascii(url@) ==> opt(r) == ascii_track_id_in(url@),
{
    let cs = to_chars(url);
    match text_behind(cs.as_slice(), "track/") {
        Some(rest) => {
            let ghost plain = ascii(rest@);
            proof {
                if ascii(url@) {
                    let i = find(url@, "track/"@).unwrap();
                    lemma_has(url@, "track/"@);
                    assert forall|k: int| 0 <= k < rest@.len() implies (#[trigger] rest@[k] as u32)
                        < 0x80 by {
                        assert(rest@[k] == url@[k + i + "track/"@.len()]);
                    }
                }
            }
            let mut n: usize = 0;
            while n < rest.len()
                invariant_except_break
                    n <= rest@.len(),
                    plain == ascii(rest@),
                    forall|k: int| 0 <= k < n ==> id_char(#[trigger] rest@[k]),
                    plain ==> forall|k: int| 0 <= k < n ==> member(Class::Slug, #[trigger] rest@[k]),
                ensures
                    n <= rest@.len(),
                    forall|k: int| 0 <= k < n ==> id_char(#[trigger] rest@[k]),
                    n < rest@.len() ==> !id_char(rest@[n as int]),
                    plain ==> forall|k: int| 0 <= k < n ==> member(Class::Slug, #[trigger] rest@[k]),
                    plain && n < rest@.len() ==> !member(Class::Slug, rest@[n as int]),
                decreases rest@.len() - n,
            {
                let c = rest[n];
                if !(is_alphanumeric(c) || c == '-' || c == '_') {
                    break;
                }
                n += 1;
            }
            proof {
                lemma_id_run_is(rest@, n as nat);
                if plain {
                    lemma_run_is(rest@, Class::Slug, n as nat);
                }
            }
            let id = take_to(rest, n);
            if byte_len(id) > 10 {
                Some(to_text(id))
            } else {
                None
            }
        },
        None => None,
    }
}

/// What an entry is played from, given the id in its address: the service's
/// own name for a track, and anything else as it is.
pub open spec fn playable(entry_id: Seq<char>, id: Option<Seq<char>>) -> Seq<char> {
    if !begins(entry_id, "spotify:track:"@) && occurs(entry_id, "spotify.com/track/"@) && id
        is Some {
        "spotify:track:"@ + id->0
    } else {
        entry_id
    }
}

impl Spotify {
    /// The provider's name.
    pub fn name(&self) -> (r: &str)
        ensures
            r@ == "spotify"@,
    {
        "spotify"
    }

    /// The provider's version.
    pub fn version(&self) -> (r: &str)
        ensures
            r@ == "0.1.0"@,
    {
        "0.1.0"
    }

    /// What the provider is for.
    pub fn plugin_type(&self) -> (r: PluginType)
        ensures
            r == PluginType::Provider,
    {
        PluginType::Provider
    }

    /// The answer of a verb where there is no token.
    pub fn auth_failed<T>(&self, message: &str) -> (r: PluginResult<T>)
        ensures
            r matches PluginResult::Failure(e) && e@ == ("auth_failed"@, message@),
    {
        PluginResult::err("auth_failed", message)
    }

    /// Begins a search: the page to fetch, or nothing for an empty query.
    pub fn search(&self, query: &str) -> (r: Option<String>)
        ensures
            opt(r) == if trim(query@).len() == 0 {
                None::<Seq<char>>
            } else {
                Some(
                    "https://api.spotify.com/v1/search?q="@ + encoded(trim(query@))
                        + "&type=track&limit=20"@,
                )
            },
    {
        let q = trim_text(query);
        if q.as_str().is_empty() {
            return None;
        }
        Some(
            cat3(
                "https://api.spotify.com/v1/search?q=",
                urlencoding(q.as_str()).as_str(),
                "&type=track&limit=20",
            ),
        )
    }

    /// Ends a search: the tracks of the answer. Without a page nothing was
    /// searched for.
    pub fn search_reply(&self, page: Option<Result<String, String>>) -> (r: ListingAnswer)
        ensures
            r@ == match page {
                None => listed(seq![]),
                Some(Err(e)) => Err(("search_failed"@, e@)),
                Some(Ok(b)) => listed(results_of(parsed(b@))),
            },
    {
        match page {
            Some(Ok(b)) => list(parse_search_results(b.as_str())),
            Some(Err(e)) => PluginResult::err("search_failed", e.as_str()),
            None => {
                let items: Vec<Listing> = Vec::new();
                assert(views(items@) =~= seq![]);
                list(items)
            },
        }
    }

    /// What an entry is played from.
    pub fn resolve(&self, entry_id: &str) -> (r: ResolveAnswer)
        ensures
            r@ == if trim(entry_id@).len() == 0 {
                Err(("resolve_failed"@, "empty entry_id"@))
            } else {
                resolved(
                    playable(trim(entry_id@), track_id_in(trim(entry_id@))),
                    Some("320k"@),
                )
            },
    {
        let id = trim_text(entry_id);
        if id.as_str().is_empty() {
            return PluginResult::err("resolve_failed", "empty entry_id");
        }
        let cs = to_chars(id.as_str());
        let url = if !begins_with(cs.as_slice(), "spotify:track:") && has_text(
            cs.as_slice(),
            "spotify.com/track/",
        ) {
            match extract_spotify_track_id(id.as_str()) {
                Some(track) => cat("spotify:track:", track.as_str()),
                None => id,
            }
        } else {
            id
        };
        resolve_to(url, Some("320k".to_owned()))
    }
}

/// What a search lists is played as it is listed.
pub proof fn listed_tracks_play_as_listed(t: JsonVal, id: Option<Seq<char>>)
    requires
        track_entry(t) is Some,
    ensures
        playable(track_entry(t)->0.id, id) == track_entry(t)->0.id,
{
    let e = track_entry(t)->0.id;
    let p = "spotify:track:"@;
    assert(e.subrange(0, p.len() as int) =~= p);
}

/// A track is listed where it has an id and a name: under that id, with its
/// first artist, its album with the first picture of that, and its duration,
/// which the service gives in thousandths of a second.
pub proof fn tracks_are_listed_as_they_are(t: JsonVal)
    ensures
        track_maker()(t) == track_entry(t),
        track_entry(t) is Some <==> t.member("id"@).text() is Some && t.member(
            "name"@,
        ).text() is Some,
        track_entry(t) matches Some(e) ==> {
            let name = t.member("name"@).text()->0;
            let artist = t.member("artists"@).first().member("name"@).text();
            let album = t.member("album"@).member("name"@).text();
            &&& e.id == "spotify:track:"@ + t.member("id"@).text()->0
            &&& artist matches Some(a) ==> e.title == titled(name, a)
            &&& artist is None ==> e.title == name
            &&& album matches Some(a) ==> (a.len() > 0 ==> e.description == Some(a))
            &&& e.description matches Some(d) ==> album == Some(d) && d.len() > 0
            &&& e.poster_url == t.member("album"@).member("images"@).first().member("url"@).text()
            &&& e.duration == Some(
                duration_of(t.member("duration_ms"@).uint_or_zero() as nat / 1000),
            )
            &&& e.year is None && e.genre is None && e.rating is None && e.imdb_id is None
        },
{
    reveal_strlit("");
}

/// Every track of the answer that has an id and a name is listed, in the order
/// in which they came. An answer that cannot be read lists nothing.
pub proof fn no_track_is_lost(v: JsonVal, e: Seq<char>)
    ensures
        results_of(Err(e)).len() == 0,
        picks(
            v.member("tracks"@).member("items"@).items(),
            track_maker(),
            results_of(Ok(v)),
        ),
{
    collected_is_picked(v.member("tracks"@).member("items"@).items(), track_maker());
}

/// The application is the one that is set, and the public one where none is.
pub proof fn client_is_the_one_that_is_set(cache: Map<Seq<char>, String>, value: String)
    ensures
        client(cache.insert("client_id"@, value)) == value@,
        !cache.contains_key("client_id"@) ==> client(cache)
            == "515ab11b9e0447278653f43520eea7d9"@,
{
}

/// A new token takes the place of the one before, which stays where no new one
/// comes.
pub proof fn newest_token_is_kept(new: Option<String>, existing: Option<&str>)
    ensures
        new matches Some(t) ==> kept_refresh(new, existing) == Some(t@),
        new is None ==> (existing matches Some(t) ==> kept_refresh(new, existing) == Some(t@)),
        new is None && existing is None ==> kept_refresh(new, existing) is None,
{
}

/// The login comes back to this machine at the port that is listened on; page
/// and form name the same address and the same application, and the page names
/// the challenge where the form names what solves it.
pub proof fn login_comes_back_to_the_port(
    cache: Map<Seq<char>, String>,
    port: nat,
    challenge: Seq<char>,
    code: Seq<char>,
    verifier: Seq<char>,
)
    ensures
        ({
            let back = "http://127.0.0.1:"@ + decimal(port) + "/login"@;
            &&& auth_url(cache, port, challenge)
                == "https://accounts.spotify.com/authorize?client_id="@ + client(cache)
                + "&redirect_uri="@ + back + "&response_type=code&scope="@ + encoded(
                "user-library-read streaming user-read-private"@,
            ) + "&code_challenge="@ + challenge + "&code_challenge_method=S256"@
            &&& exchange_form_of(cache, code, verifier, port)
                == "grant_type=authorization_code&code="@ + encoded(code) + "&redirect_uri="@
                + encoded(back) + "&client_id="@ + encoded(client(cache)) + "&code_verifier="@
                + encoded(verifier)
        }),
{
}

/// The id of a track is the run of letters, digits, dashes and underscores
/// behind `track/`, where it is longer than ten bytes.
pub proof fn track_ids_stand_behind_the_word(front: Seq<char>, id: Seq<char>, rest: Seq<char>)
    requires
        find(front + "track/"@ + id + rest, "track/"@) == Some(front.len() as int),
        forall|i: int| 0 <= i < id.len() ==> id_char(#[trigger] id[i]),
        rest.len() > 0 ==> !id_char(rest[0]),
    ensures
        track_id_in(front + "track/"@ + id + rest) == if encode_utf8(id).len() > 10 {
            Some(id)
        } else {
            None
        },
{
    let url = front + "track/"@ + id + rest;
    reveal_strlit("track/");
    let t = url.skip(front.len() as int + 6);
    assert(t =~= id + rest);
    assert forall|i: int| 0 <= i < id.len() implies id_char(#[trigger] t[i]) by {
        assert(t[i] == id[i]);
    }
    if rest.len() > 0 {
        assert(t[id.len() as int] == rest[0]);
    }
    lemma_id_run_is(t, id.len());
    assert(t.take(id.len() as int) =~= id);
}

/// The characters of an id are the letters and digits of any script, the dash
/// and the underscore.
pub proof fn ids_are_made_of_letters_and_digits(c: char)
    ensures
        id_char(c) <==> alphanumeric(c) || c == '-' || c == '_',
{
}

/// An id of the service is played as it is; the address of a track on its site
/// is played by the id in it; anything else is played as it is.
pub proof fn addresses_are_played_by_their_id(entry_id: Seq<char>, id: Option<Seq<char>>)
    ensures
        begins(entry_id, "spotify:track:"@) ==> playable(entry_id, id) == entry_id,
        !begins(entry_id, "spotify:track:"@) && occurs(entry_id, "spotify.com/track/"@) ==> (
        id matches Some(i) ==> playable(entry_id, id) == "spotify:track:"@ + i),
        id is None ==> playable(entry_id, id) == entry_id,
        !occurs(entry_id, "spotify.com/track/"@) ==> playable(entry_id, id) == entry_id,
{
}

} // verus!
