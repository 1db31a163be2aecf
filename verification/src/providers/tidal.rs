//! Searches and streams from Tidal, with an account that the user signs in to.

use vstd::prelude::*;

use crate::json::{item_vals, parsed, rendered, Json, JsonVal};
use crate::providers::common::{resolve_to, resolved, ResolveAnswer};
use crate::providers::listing::{list, listed, Listing, ListingAnswer, ListingView};
use crate::providers::oauth::{
    authorized, authorized_payload, expires_at, expiry, token_step, CachedToken, TokenStep,
};
use crate::providers::qobuz::{duration_of, title_with, titled, urlencoding};
use crate::sdk::plugin::PluginType;
use crate::sdk::result::{views, PluginResult};
use crate::sdk::types::ResolveView;
use crate::text::cat::{cat3, cat4, cat5};
use crate::text::chars::{digit, opt, take_to, to_chars};
use crate::text::find::{
    at, ends, find_char, find_one, lemma_find_char, lemma_has, occurs,
};
use crate::text::list::{collect_some, collected_is_picked, lemma_collect_step, picks};
use crate::text::number::{
    decimal, decimal_text, lemma_decimal, lemma_natural_decimal, natural, parse_natural, parse_u64,
};
use crate::text::percent::encoded;
use crate::text::table::Table;
use crate::text::trim::{trim, trim_text};

verus! {

/// The provider.
#[derive(Debug, Default)]
pub struct Tidal;

/// The id under which the service knows the application.
pub const CLIENT_ID: &'static str = "CzET4vdadNUFQ5JU";

/// What the service answers to a request for a token.
#[derive(Debug, Clone)]
pub struct TokenResponse {
    pub access_token: String,
    pub refresh_token: String,
    /// In seconds.
    pub expires_in: u64,
    pub token_type: String,
}

/// The token to keep, given the time at which it was had.
pub fn build_cached_token(tr: TokenResponse, now: u64) -> (r: CachedToken)
    requires
        expiry(now as nat, tr.expires_in as nat) <= u64::MAX,
    ensures
        r.access_token == tr.access_token,
        r.refresh_token == tr.refresh_token,
        r.expires_at == expiry(now as nat, tr.expires_in as nat),
{
    CachedToken {
        access_token: tr.access_token,
        refresh_token: tr.refresh_token,
        expires_at: expires_at(now, tr.expires_in),
    }
}

/// What a verb does to have a token, given the one that is kept and the time,
/// as far as it is known: without a clock a kept token is of no use.
pub fn ensure_authenticated(cached: Option<CachedToken>, now: Option<u64>) -> (r: Result<
    TokenStep,
    String,
>)
    ensures
        match cached {
            None => r == Ok::<TokenStep, String>(TokenStep::SignIn),
            Some(t) => match now {
                None => r matches Err(m) && m@ == "clock unavailable"@,
                Some(n) => r == Ok::<TokenStep, String>(
                    if n < t.expires_at {
                        TokenStep::Use(t.access_token)
                    } else {
                        TokenStep::Refresh(t.refresh_token)
                    },
                ),
            },
        },
{
    match (cached, now) {
        (None, _) => Ok(TokenStep::SignIn),
        (Some(_), None) => Err("clock unavailable".to_owned()),
        (Some(t), Some(n)) => Ok(token_step(Some(t), n)),
    }
}

/// The form that asks for a new token with a refresh token.
pub fn refresh_form(refresh_token: &str) -> (r: String)
    ensures
        r@ == "client_id="@ + "CzET4vdadNUFQ5JU"@ + "&refresh_token="@ + encoded(refresh_token@)
            + "&grant_type=refresh_token"@,
{
    cat5(
        "client_id=",
        CLIENT_ID,
        "&refresh_token=",
        urlencoding(refresh_token).as_str(),
        "&grant_type=refresh_token",
    )
}

/// Where the browser is sent when the user has signed in.
pub open spec fn redirect_uri(port: nat) -> Seq<char> {
    "https://127.0.0.1:"@ + decimal(port) + "/login"@
}

/// Where the browser is sent when the user has signed in.
fn redirect_to(port: u16) -> (r: String)
    ensures
        r@ == redirect_uri(port as nat),
{
    cat3("https://127.0.0.1:", decimal_text(port as u64).as_str(), "/login")
}

/// The address at which the user signs in.
pub open spec fn auth_url(port: nat, code_challenge: Seq<char>) -> Seq<char> {
    "https://listen.tidal.com/login/auth?appMode=WEB&client_id="@ + "CzET4vdadNUFQ5JU"@
        + "&code_challenge="@ + code_challenge
        + "&code_challenge_method=S256&lang=en&redirect_uri="@ + redirect_uri(port)
        + "&response_type=code&restrictSignup=true&scope="@ + "r_usr w_usr"@
        + "&autoredirect=true"@
}

/// The address at which the user signs in.
pub fn build_auth_url(port: u16, code_challenge: &str) -> (r: String)
    ensures
        r@ == auth_url(port as nat, code_challenge@),
{
    let mut url = cat5(
        "https://listen.tidal.com/login/auth?appMode=WEB&client_id=",
        CLIENT_ID,
        "&code_challenge=",
        code_challenge,
        "&code_challenge_method=S256&lang=en&redirect_uri=",
    );
    url.append(redirect_to(port).as_str());
    url.append("&response_type=code&restrictSignup=true&scope=");
    url.append("r_usr w_usr");
    url.append("&autoredirect=true");
    url
}

/// The form that exchanges the code of a sign-in for a token.
pub open spec fn exchange_form_of(code: Seq<char>, code_verifier: Seq<char>, port: nat) -> Seq<char> {
    "client_id="@ + "CzET4vdadNUFQ5JU"@ + "&code="@ + code + "&code_verifier="@ + code_verifier
        + "&grant_type=authorization_code&redirect_uri="@ + redirect_uri(port)
}

/// The form that exchanges the code of a sign-in for a token.
pub fn exchange_form(code: &str, code_verifier: &str, port: u16) -> (r: String)
    ensures
        r@ == exchange_form_of(code@, code_verifier@, port as nat),
{
    let mut body = cat5("client_id=", CLIENT_ID, "&code=", code, "&code_verifier=");
    body.append(code_verifier);
    body.append("&grant_type=authorization_code&redirect_uri=");
    body.append(redirect_to(port).as_str());
    body
}

/// The address that the sign-in was asked to return to is the one that the
/// code is exchanged with.
pub proof fn redirect_uris_match(code: Seq<char>, verifier: Seq<char>, challenge: Seq<char>, port: nat)
    ensures
        occurs(auth_url(port, challenge), "redirect_uri="@ + redirect_uri(port)),
        ends(exchange_form_of(code, verifier, port), "redirect_uri="@ + redirect_uri(port)),
{
    let mark = "redirect_uri="@ + redirect_uri(port);
    let lead = "&code_challenge_method=S256&lang=en&redirect_uri="@;
    reveal_strlit("&code_challenge_method=S256&lang=en&redirect_uri=");
    reveal_strlit("&grant_type=authorization_code&redirect_uri=");
    reveal_strlit("redirect_uri=");
    let head = "https://listen.tidal.com/login/auth?appMode=WEB&client_id="@ + "CzET4vdadNUFQ5JU"@
        + "&code_challenge="@ + challenge;
    let url = auth_url(port, challenge);
    let i = head.len() + lead.len() - 13;
    assert(url.subrange(i, i + mark.len()) =~= mark);
    assert(at(url, mark, i));
    lemma_has(url, mark);
    let form = exchange_form_of(code, verifier, port);
    assert(form.subrange(form.len() - mark.len(), form.len() as int) =~= mark);
}

/// The request for a page with a token.
pub fn get_with_token(url: &str, token: &str) -> (r: String)
    ensures
        r@ == rendered(
            authorized(url@, token@, Some(("X-Tidal-Token"@, "CzET4vdadNUFQ5JU"@))),
        ),
{
    authorized_payload(url, token, Some(("X-Tidal-Token", CLIENT_ID)))
}

/// The country that is asked for: the one that is set, or else the US.
pub open spec fn country(cache: Map<Seq<char>, String>) -> Seq<char> {
    if cache.contains_key("__config:country"@) {
        cache["__config:country"@]@
    } else {
        "US"@
    }
}

/// The country that is asked for.
pub fn country_code(cache: &Table<String>) -> (r: String)
    ensures
        r@ == country(cache@),
{
    match cache.get("__config:country") {
        Some(c) => c.clone(),
        None => "US".to_owned(),
    }
}

/// A number of seconds as minutes and seconds.
pub fn format_duration(seconds: u64) -> (r: String)
    ensures
        r@ == duration_of(seconds as nat),
{
    crate::providers::qobuz::format_duration(seconds)
}

/// The year in a date: the number before the first `-`.
pub open spec fn year_of(date: JsonVal) -> Option<Seq<char>> {
    match date.text() {
        Some(s) => {
            let head = match find_char(s, '-') {
                Some(i) => s.take(i),
                None => s,
            };
            match natural(head, u32::MAX as nat) {
                Some(n) => Some(decimal(n)),
                None => None,
            }
        },
        None => None,
    }
}

/// The entry that a track is. One without an id is none.
pub open spec fn track_entry(t: JsonVal) -> Option<ListingView> {
    let id = t.member("id"@).uint_or_zero();
    let album = t.member("album"@);
    let name = album.member("title"@).text_or(""@);
    if id == 0 {
        None
    } else {
        Some(
            ListingView {
                id: decimal(id as nat),
                title: titled(
                    t.member("title"@).text_or("Unknown"@),
                    t.member("artist"@).member("name"@).text_or(""@),
                ),
                year: year_of(album.member("releaseDate"@)),
                genre: None,
                rating: None,
                description: if name.len() == 0 {
                    None
                } else {
                    Some(name)
                },
                poster_url: match album.member("coverUrl"@).text() {
                    Some(u) => Some(u),
                    None => album.member("cover"@).member("large"@).text(),
                },
                imdb_id: None,
                duration: Some(duration_of(t.member("duration"@).uint_or_zero() as nat)),
            },
        )
    }
}

/// `track_entry` as a function.
pub open spec fn track_maker() -> spec_fn(JsonVal) -> Option<ListingView> {
    |t: JsonVal| track_entry(t)
}

/// The entries in the answer to a search.
pub open spec fn entries_of(v: JsonVal) -> Seq<ListingView> {
    collect_some(v.member("tracks"@).member("items"@).items(), track_maker())
}

/// The entries in the answer to a search, given what it reads as. What is not
/// JSON has none.
pub open spec fn results_of(p: Result<JsonVal, Seq<char>>) -> Seq<ListingView> {
    match p {
        Ok(v) => entries_of(v),
        Err(_) => seq![],
    }
}

/// The year in a date.
fn parse_year(date: &Json) -> (r: Option<String>)
    ensures
        opt(r) == year_of(date@),
{
    match date.as_str() {
        Some(s) => {
            let cs = to_chars(s.as_str());
            let head = match find_one(cs.as_slice(), '-') {
                Some(i) => take_to(cs.as_slice(), i),
                None => cs.as_slice(),
            };
            match parse_natural(head, 0xffff_ffff) {
                Some(n) => Some(decimal_text(n)),
                None => None,
            }
        },
        None => None,
    }
}

/// The entry that a track is.
fn parse_track(t: &Json) -> (r: Option<Listing>)
    ensures
        match r {
            Some(e) => track_entry(t@) == Some(e@),
            None => track_entry(t@) is None,
        },
{
    let id = t.get("id").uint_or_zero();
    if id == 0 {
        return None;
    }
    let artist = t.get("artist").get("name").text_or("");
    let album = t.get("album");
    let name = album.get("title").text_or("");
    let e = Listing {
        id: decimal_text(id),
        title: title_with(t.get("title").text_or("Unknown"), artist.as_str()),
        year: parse_year(album.get("releaseDate")),
        genre: None,
        rating: None,
        description: if name.as_str().is_empty() {
            None
        } else {
            Some(name)
        },
        poster_url: match album.get("coverUrl").text() {
            Some(u) => Some(u),
            None => album.get("cover").get("large").text(),
        },
        imdb_id: None,
        duration: Some(format_duration(t.get("duration").uint_or_zero())),
    };
    assert(e@ =~= track_entry(t@)->0);
    Some(e)
}

/// The entries in the answer to a search.
pub fn search_entries(v: &Json) -> (r: Vec<Listing>)
    ensures
        views(r@) == entries_of(v@),
{
    let mut items: Vec<Listing> = Vec::new();
    let ghost vals = v@.member("tracks"@).member("items"@).items();
    if let Some(tracks) = v.get("tracks").get("items").as_array() {
        assert(item_vals(tracks@) == vals);
        for i in 0..tracks.len()
            invariant
                item_vals(tracks@) == vals,
                views(items@) == collect_some(vals.take(i as int), track_maker()),
        {
            proof {
                lemma_collect_step(vals, track_maker(), i as int);
                assert(vals[i as int] == tracks@[i as int]@);
            }
            let ghost before = views(items@);
            if let Some(e) = parse_track(&tracks[i]) {
                items.push(e);
                assert(views(items@) =~= before.push(e@));
            }
        }
        assert(vals.take(vals.len() as int) =~= vals);
    } else {
        assert(views(items@) =~= collect_some(vals, track_maker()));
    }
    items
}

/// The entries in the answer to a search.
pub fn parse_search_results(body: &str) -> (r: Vec<Listing>)
    ensures
        views(r@) == results_of(parsed(body@)),
{
    match Json::parse(body) {
        Ok(v) => search_entries(&v),
        Err(_) => {
            let items: Vec<Listing> = Vec::new();
            assert(views(items@) =~= seq![]);
            items
        },
    }
}

/// The address in the answer to a request for a stream.
pub open spec fn stream_in(v: JsonVal) -> Option<Seq<char>> {
    match v.member("url"@).filled() {
        Some(u) => Some(u),
        None => v.member("streamUrl"@).filled(),
    }
}

/// The address in the answer to a request for a stream, given what it reads as.
pub open spec fn stream_of(p: Result<JsonVal, Seq<char>>) -> Option<Seq<char>> {
    match p {
        Ok(v) => stream_in(v),
        Err(_) => None,
    }
}

/// The address in the answer to a request for a stream.
pub fn stream_url(v: &Json) -> (r: Option<String>)
    ensures
        opt(r) == stream_in(v@),
{
    match v.get("url").filled() {
        Some(u) => Some(u),
        None => v.get("streamUrl").filled(),
    }
}

/// The address in the answer to a request for a stream.
pub fn parse_stream_url(body: &str) -> (r: Option<String>)
    ensures
        opt(r) == stream_of(parsed(body@)),
{
    match Json::parse(body) {
        Ok(v) => stream_url(&v),
        Err(_) => None,
    }
}

/// What is handed out to be played is not empty.
pub proof fn stream_addresses_are_not_empty(p: Result<JsonVal, Seq<char>>)
    ensures
        stream_of(p) matches Some(u) ==> u.len() > 0,
{
}

impl Tidal {
    /// The provider's name.
    pub fn name(&self) -> (r: &str)
        ensures
            r@ == "tidal"@,
    {
        "tidal"
    }

    /// The provider's version.
    pub fn version(&self) -> (r: &str)
        ensures
            r@ == "0.1.0"@,
    {
        "0.1.0"
    }

    /// What the provider is for.
    pub fn plugin_type(&self) -> (r: PluginType)
        ensures
            r == PluginType::Provider,
    {
        PluginType::Provider
    }

    /// The answer of a verb where there is no token.
    pub fn auth_failed<T>(&self, message: &str) -> (r: PluginResult<T>)
        ensures
            r matches PluginResult::Failure(e) && e@ == ("auth_failed"@, message@),
    {
        PluginResult::err("auth_failed", message)
    }

    /// Begins a search: the page to fetch, or nothing for an empty query.
    pub fn search(&self, cache: &Table<String>, query: &str) -> (r: Option<String>)
        ensures
            opt(r) == if trim(query@).len() == 0 {
                None::<Seq<char>>
            } else {
                Some(
                    "https://api.tidal.com/v1/search?limit=20&countryCode="@ + country(cache@)
                        + "&query="@ + encoded(trim(query@)),
                )
            },
    {
        let q = trim_text(query);
        if q.as_str().is_empty() {
            return None;
        }
        Some(
            cat4(
                "https://api.tidal.com/v1/search?limit=20&countryCode=",
                country_code(cache).as_str(),
                "&query=",
                urlencoding(q.as_str()).as_str(),
            ),
        )
    }

    /// Ends a search: the tracks of the answer. Without a page nothing was
    /// searched for.
    pub fn search_reply(&self, page: Option<Result<String, String>>) -> (r: ListingAnswer)
        ensures
            r@ == match page {
                None => listed(seq![]),
                Some(Err(e)) => Err(("search_failed"@, e@)),
                Some(Ok(b)) => listed(results_of(parsed(b@))),
            },
    {
        match page {
            Some(Ok(b)) => list(parse_search_results(b.as_str())),
            Some(Err(e)) => PluginResult::err("search_failed", e.as_str()),
            None => {
                let items: Vec<Listing> = Vec::new();
                assert(views(items@) =~= seq![]);
                list(items)
            },
        }
    }

    /// Begins a request to resolve: the page to fetch, or the error where the
    /// entry names no track.
    pub fn resolve(&self, cache: &Table<String>, entry_id: &str) -> (r: Result<
        String,
        ResolveAnswer,
    >)
        ensures
            match natural(trim(entry_id@), u64::MAX as nat) {
                Some(n) => r matches Ok(u) && u@ == "https://api.tidal.com/v1/tracks/"@ + decimal(n)
                    + "/streamUrl?soundQuality=LOSSLESS&countryCode="@ + country(cache@),
                None => r matches Err(a) && a@ == Err::<ResolveView, (Seq<char>, Seq<char>)>(
                    (
                        "resolve_failed"@,
                        if trim(entry_id@).len() == 0 {
                            "empty entry_id"@
                        } else {
                            "invalid track id"@
                        },
                    ),
                ),
            },
    {
        let id = trim_text(entry_id);
        if id.as_str().is_empty() {
            return Err(PluginResult::err("resolve_failed", "empty entry_id"));
        }
        match parse_u64(id.as_str()) {
            Some(n) => Ok(
                cat4(
                    "https://api.tidal.com/v1/tracks/",
                    decimal_text(n).as_str(),
                    "/streamUrl?soundQuality=LOSSLESS&countryCode=",
                    country_code(cache).as_str(),
                ),
            ),
            None => Err(PluginResult::err("resolve_failed", "invalid track id")),
        }
    }

    /// Ends a request to resolve: the stream in the answer.
    pub fn resolve_reply(&self, page: Result<String, String>) -> (r: ResolveAnswer)
        ensures
            r@ == match page {
                Err(e) => Err(("resolve_failed"@, e@)),
                Ok(b) => match stream_of(parsed(b@)) {
                    Some(u) => resolved(u, Some("lossless"@)),
                    None => Err(("resolve_failed"@, "no stream URL found"@)),
                },
            },
    {
        match page {
            Ok(b) => match parse_stream_url(b.as_str()) {
                Some(u) => resolve_to(u, Some("lossless".to_owned())),
                None => PluginResult::err("resolve_failed", "no stream URL found"),
            },
            Err(e) => PluginResult::err("resolve_failed", e.as_str()),
        }
    }
}

/// A track is listed under its number, unless that is missing or zero, with
/// title and artist, its album with the cover and the year of that, and its
/// duration.
pub proof fn tracks_are_listed_as_they_are(t: JsonVal)
    ensures
        track_maker()(t) == track_entry(t),
        track_entry(t) is None <==> t.member("id"@).uint_or_zero() == 0,
        track_entry(t) matches Some(e) ==> {
            let title = t.member("title"@).text_or("Unknown"@);
            let artist = t.member("artist"@).member("name"@).text();
            let album = t.member("album"@);
            let name = album.member("title"@).text();
            &&& e.id == decimal(t.member("id"@).uint_or_zero() as nat)
            &&& artist matches Some(a) ==> e.title == titled(title, a)
            &&& artist is None ==> e.title == title
            &&& name matches Some(a) ==> (a.len() > 0 ==> e.description == Some(a))
            &&& e.description matches Some(d) ==> name == Some(d) && d.len() > 0
            &&& album.member("coverUrl"@).text() is Some ==> e.poster_url == album.member(
                "coverUrl"@,
            ).text()
            &&& album.member("coverUrl"@).text() is None ==> e.poster_url == album.member(
                "cover"@,
            ).member("large"@).text()
            &&& e.year == year_of(album.member("releaseDate"@))
            &&& e.duration == Some(duration_of(t.member("duration"@).uint_or_zero() as nat))
            &&& e.genre is None && e.rating is None && e.imdb_id is None
        },
{
    reveal_strlit("");
}

/// The year of a date is the number before its first dash; a date that begins
/// with none has no year.
pub proof fn years_stand_before_the_dash(n: nat, rest: Seq<char>)
    requires
        n <= u32::MAX,
    ensures
        year_of(JsonVal::Str(decimal(n) + seq!['-'] + rest)) == Some(decimal(n)),
        year_of(JsonVal::Str(decimal(n))) == Some(decimal(n)),
        year_of(JsonVal::Str(seq!['-'] + rest)) is None,
        year_of(JsonVal::Null) is None,
{
    let d = decimal(n);
    lemma_decimal(n);
    lemma_natural_decimal(n, u32::MAX as nat);
    lemma_find_char(d, '-');
    if find_char(d, '-') is Some {
        assert(digit(d[find_char(d, '-').unwrap()]));
    }
    let s = d + seq!['-'] + rest;
    lemma_find_char(s, '-');
    assert(s[d.len() as int] == '-');
    let p = find_char(s, '-').unwrap();
    if p < d.len() {
        assert(digit(d[p]));
    }
    assert(s.take(p) =~= d);
    let t = seq!['-'] + rest;
    lemma_find_char(t, '-');
    assert(t[0] == '-');
    assert(t.take(0) =~= seq![]);
}

/// Every track of the answer that has a number is listed, in the order in
/// which they came. An answer that cannot be read lists nothing.
pub proof fn no_track_is_lost(v: JsonVal, e: Seq<char>)
    ensures
        results_of(Err(e)).len() == 0,
        picks(
            v.member("tracks"@).member("items"@).items(),
            track_maker(),
            results_of(Ok(v)),
        ),
{
    collected_is_picked(v.member("tracks"@).member("items"@).items(), track_maker());
}

/// A stream is played from the address of the answer, or else from that of its
/// stream; an empty one counts for nothing.
pub proof fn address_comes_before_the_stream(v: JsonVal, e: Seq<char>)
    ensures
        ({
            let url = v.member("url"@).text();
            let other = v.member("streamUrl"@).text();
            &&& (url matches Some(u) && u.len() > 0) ==> stream_of(Ok(v)) == url
            &&& (url is None || url->0.len() == 0) ==> ((other matches Some(f) && f.len() > 0)
                ==> stream_of(Ok(v)) == other)
            &&& (url is None || url->0.len() == 0) && (other is None || other->0.len() == 0)
                ==> stream_of(Ok(v)) is None
            &&& stream_of(Err(e)) is None
        }),
{
}

/// The country is the one that is set, and the United States where none is.
pub proof fn country_is_the_one_that_is_set(cache: Map<Seq<char>, String>, value: String)
    ensures
        country(cache.insert("__config:country"@, value)) == value@,
        !cache.contains_key("__config:country"@) ==> country(cache) == "US"@,
{
}

/// The login comes back to this machine at the port that is listened on; page
/// and form name the same address and the same application, and the page names
/// the challenge where the form names what solves it.
pub proof fn login_comes_back_to_the_port(
    port: nat,
    challenge: Seq<char>,
    code: Seq<char>,
    verifier: Seq<char>,
)
    ensures
        ({
            let back = "https://127.0.0.1:"@ + decimal(port) + "/login"@;
            &&& auth_url(port, challenge)
                == "https://listen.tidal.com/login/auth?appMode=WEB&client_id="@
                + "CzET4vdadNUFQ5JU"@ + "&code_challenge="@ + challenge
                + "&code_challenge_method=S256&lang=en&redirect_uri="@ + back
                + "&response_type=code&restrictSignup=true&scope="@ + "r_usr w_usr"@
                + "&autoredirect=true"@
            &&& exchange_form_of(code, verifier, port) == "client_id="@ + "CzET4vdadNUFQ5JU"@
                + "&code="@ + code + "&code_verifier="@ + verifier
                + "&grant_type=authorization_code&redirect_uri="@ + back
        }),
{
}

} // verus!
