//! Finds and fetches subtitles on OpenSubtitles.

use vstd::prelude::*;

use crate::env::{env_or, env_value};
use crate::json::{
    json_string, new_object, new_text, parsed, quoted, read_value, rendered, set_member,
    write_value, JsonVal,
};
use crate::providers::common::{Reply, ResolveAnswer, Step, StepView};
use crate::providers::listing::{
    Listing, ListingAnswer, ListingOutcome, ListingResponse, ListingView,
};
use crate::sdk::host::outcome;
use crate::sdk::plugin::PluginType;
use crate::sdk::result::{views, PluginResult};
use crate::sdk::types::{
    ResolveRequest, ResolveResponse, ResolveView, SearchRequest, SubtitleTrack, TrackView,
};
use crate::text::case::{to_uppercase, uppercase};
use crate::text::cat::{cat, cat3, cat4, cat5};
use crate::text::chars::{digit, opt, skip_to, to_chars, to_text};
use crate::text::class::{all, all_in, member, Class};
use crate::text::find::{
    at, begins, begins_with, find, find_char, has_char, lemma_find_char, lemma_has, occurs,
};
use crate::text::number::{
    decimal, decimal_text, digits, lemma_decimal, lemma_natural_decimal, natural, padded, padded_text, parse_natural,
};
use crate::text::percent::{encoded, url_encode};
use crate::text::split::join;
use crate::text::table::Table;

verus! {

/// The provider.
#[derive(Debug, Default)]
pub struct OpenSubtitlesProvider;

/// The key under which the token of a login is kept.
pub const JWT_CACHE_KEY: &'static str = "os_jwt";

/// The key under which the server that a login names is kept.
pub const BASE_URL_CACHE_KEY: &'static str = "os_base_url";

/// The settings.
#[derive(Debug)]
pub struct Config {
    pub api_key: String,
    pub username: String,
    pub password: String,
    pub language: String,
    pub base_url: String,
}

/// The key in the host's settings.
pub open spec fn api_key(cache: Map<Seq<char>, String>) -> Seq<char> {
    env_value(cache, "OS_API_KEY"@, ""@)
}

/// The server: the one that a login named, or else the public one.
pub open spec fn base_url(cache: Map<Seq<char>, String>) -> Seq<char> {
    if cache.contains_key("os_base_url"@) && cache["os_base_url"@]@.len() > 0 {
        cache["os_base_url"@]@
    } else {
        "api.opensubtitles.com"@
    }
}

/// Why there is no configuration.
pub open spec fn no_key() -> Seq<char> {
    "OS_API_KEY is not set. Get one at https://www.opensubtitles.com/en/consumers"@
}

impl Config {
    /// Reads the settings. The key has to be there.
    pub fn load(cache: &Table<String>) -> (r: Result<Config, String>)
        ensures
            match r {
                Ok(c) => {
                    &&& api_key(cache@).len() > 0
                    &&& c.api_key@ == api_key(cache@)
                    &&& c.username@ == env_value(cache@, "OS_USERNAME"@, ""@)
                    &&& c.password@ == env_value(cache@, "OS_PASSWORD"@, ""@)
                    &&& c.language@ == env_value(cache@, "OS_LANGUAGE"@, "en"@)
                    &&& c.base_url@ == base_url(cache@)
                },
                Err(e) => api_key(cache@).len() == 0 && e@ == no_key(),
            },
    {
        let api_key = env_or(cache, "OS_API_KEY", "");
        let username = env_or(cache, "OS_USERNAME", "");
        let password = env_or(cache, "OS_PASSWORD", "");
        let language = env_or(cache, "OS_LANGUAGE", "en");
        if api_key.as_str().is_empty() {
            return Err(
                "OS_API_KEY is not set. Get one at https://www.opensubtitles.com/en/consumers".to_owned(),
            );
        }
        let base_url = match cache.get(BASE_URL_CACHE_KEY) {
            Some(b) => if b.as_str().is_empty() {
                "api.opensubtitles.com".to_owned()
            } else {
                b.clone()
            },
            None => "api.opensubtitles.com".to_owned(),
        };
        Ok(Config { api_key, username, password, language, base_url })
    }
}

/// A file of subtitles.
#[derive(Debug, Clone)]
pub struct SubtitleFile {
    pub file_id: u64,
    pub file_name: Option<String>,
    pub cd_number: Option<u32>,
}

/// What the subtitles are for.
#[derive(Debug, Clone)]
pub struct FeatureDetails {
    pub title: String,
    pub year: Option<u32>,
    pub imdb_id: Option<u64>,
    pub tmdb_id: Option<u64>,
}

/// What is known of subtitles.
#[derive(Debug, Clone)]
pub struct SubtitleAttributes {
    pub subtitle_id: String,
    pub language: String,
    pub download_count: u32,
    /// The rating, written with one decimal.
    pub ratings: String,
    pub release: String,
    pub hearing_impaired: bool,
    pub ai_translated: bool,
    pub machine_translated: bool,
    pub hd: bool,
    pub files: Vec<SubtitleFile>,
    pub feature_details: FeatureDetails,
    pub url: String,
}

/// Subtitles, as the server lists them.
#[derive(Debug, Clone)]
pub struct SubtitleItem {
    pub id: String,
    pub attributes: SubtitleAttributes,
}

/// `flags` with one more flag behind a space, or with nothing before it.
pub open spec fn flagged(flags: Seq<char>, set: bool, flag: Seq<char>) -> Seq<char> {
    if !set {
        flags
    } else if flags.len() == 0 {
        flag
    } else {
        flags + " "@ + flag
    }
}

/// The flags of subtitles in brackets, or nothing where none is set.
pub open spec fn flags_of(a: SubtitleAttributes) -> Seq<char> {
    let f = flagged(seq![], a.hearing_impaired, "HI"@);
    let f = flagged(f, a.hd, "HD"@);
    let f = flagged(f, a.ai_translated, "AI"@);
    let f = flagged(f, a.machine_translated, "MT"@);
    if f.len() == 0 {
        seq![]
    } else {
        " ["@ + f + "]"@
    }
}

/// The name of the first file, or else of the release.
pub open spec fn file_name_of(a: SubtitleAttributes) -> Seq<char> {
    if a.files@.len() > 0 {
        match a.files@[0].file_name {
            Some(n) => n@,
            None => a.release@,
        }
    } else {
        a.release@
    }
}

/// The id of the first file.
pub open spec fn file_id_of(a: SubtitleAttributes) -> u64 {
    if a.files@.len() > 0 {
        a.files@[0].file_id
    } else {
        0
    }
}

/// The title under which subtitles are listed, given their language in capitals.
pub open spec fn title_of(a: SubtitleAttributes, language: Seq<char>) -> Seq<char> {
    "["@ + language + "] "@ + file_name_of(a) + flags_of(a) + "  ★"@ + a.ratings@ + "  ↓"@
        + decimal(a.download_count as nat)
}

/// The entry that subtitles are, given their language in capitals.
pub open spec fn entry_of(item: SubtitleItem, language: Seq<char>) -> ListingView {
    let a = item.attributes;
    ListingView {
        id: "os:"@ + decimal(file_id_of(a) as nat),
        title: title_of(a, language),
        year: match a.feature_details.year {
            Some(y) => Some(decimal(y as nat)),
            None => None,
        },
        genre: Some(a.language@),
        rating: Some(a.ratings@),
        description: Some(a.url@),
        poster_url: None,
        imdb_id: match a.feature_details.imdb_id {
            Some(i) => Some("tt"@ + padded(i as nat, 7)),
            None => None,
        },
        duration: None,
    }
}

/// Adds a flag that is set.
fn push_flag(flags: &mut String, set: bool, flag: &str)
    ensures
        final(flags)@ == flagged(old(flags)@, set, flag@),
{
    if set {
        if !flags.as_str().is_empty() {
            flags.append(" ");
        } else {
            assert(flags@ + flag@ =~= flag@);
        }
        flags.append(flag);
    }
}

impl SubtitleAttributes {
    /// The flags in brackets, or nothing where none is set.
    fn flags(&self) -> (r: String)
        ensures
            r@ == flags_of(*self),
    {
        let mut f = String::new();
        push_flag(&mut f, self.hearing_impaired, "HI");
        push_flag(&mut f, self.hd, "HD");
        push_flag(&mut f, self.ai_translated, "AI");
        push_flag(&mut f, self.machine_translated, "MT");
        if f.as_str().is_empty() {
            f
        } else {
            cat3(" [", f.as_str(), "]")
        }
    }

    /// The name of the first file, or else of the release.
    fn file_name(&self) -> (r: String)
        ensures
            r@ == file_name_of(*self),
    {
        if self.files.len() > 0 {
            if let Some(n) = &self.files[0].file_name {
                return n.clone();
            }
        }
        self.release.clone()
    }
}

impl SubtitleItem {
    /// The entry that the subtitles are, given their language in capitals.
    pub fn entry(&self, language: &str) -> (r: Listing)
        ensures
            r@ == entry_of(*self, language@),
    {
        let a = &self.attributes;
        let file_id = if a.files.len() > 0 {
            a.files[0].file_id
        } else {
            0
        };
        let mut title = cat5("[", language, "] ", a.file_name().as_str(), a.flags().as_str());
        title.append("  ★");
        title.append(a.ratings.as_str());
        title.append("  ↓");
        title.append(decimal_text(a.download_count as u64).as_str());
        let r = Listing {
            id: cat("os:", decimal_text(file_id).as_str()),
            title,
            year: match a.feature_details.year {
                Some(y) => Some(decimal_text(y as u64)),
                None => None,
            },
            genre: Some(a.language.clone()),
            rating: Some(a.ratings.clone()),
            description: Some(a.url.clone()),
            poster_url: None,
            imdb_id: match a.feature_details.imdb_id {
                Some(i) => Some(cat("tt", padded_text(i, 7).as_str())),
                None => None,
            },
            duration: None,
        };
        assert(r@ =~= entry_of(*self, language@));
        r
    }

    /// The entry that the subtitles are.
    pub fn into_entry(self) -> (r: Listing)
        ensures
            r@ == entry_of(self, uppercase(self.attributes.language@)),
    {
        let language = to_uppercase(self.attributes.language.as_str());
        self.entry(language.as_str())
    }
}

/// A query is an IMDb id: `tt` and at least one digit.
pub open spec fn is_id(query: Seq<char>) -> bool {
    begins(query, "tt"@) && query.len() > 2 && all(query.skip(2), Class::Digit)
}

/// The address of a search: by the IMDb id where the query is one, else by
/// its text.
pub open spec fn search_url(cache: Map<Seq<char>, String>, query: Seq<char>) -> Seq<char> {
    let what = if is_id(query) {
        "imdb_id="@ + query.skip(2)
    } else {
        "query="@ + encoded(query)
    };
    "https://"@ + base_url(cache) + "/api/v1/subtitles?"@ + what + "&languages="@ + env_value(
        cache,
        "OS_LANGUAGE"@,
        "en"@,
    ) + "&per_page=20"@
}

/// The address with the key among its parameters.
pub open spec fn keyed(url: Seq<char>, key: Seq<char>) -> Seq<char> {
    url + (if find_char(url, '?') is Some {
        "&"@
    } else {
        "?"@
    }) + "Api-Key="@ + key
}

/// Adds the key to the parameters of an address.
pub fn with_api_key(url: &str, cfg: &Config) -> (r: String)
    ensures
        r@ == keyed(url@, cfg.api_key@),
{
    let sep = if has_char(to_chars(url).as_slice(), '?') {
        "&"
    } else {
        "?"
    };
    cat4(url, sep, "Api-Key=", cfg.api_key.as_str())
}

/// The page that a search is answered from.
pub open spec fn search_step(cache: Map<Seq<char>, String>, req: SearchRequest) -> StepView<
    ListingOutcome,
> {
    if api_key(cache).len() == 0 {
        StepView::Answer(Err(("CONFIG_ERROR"@, no_key())))
    } else {
        StepView::Fetch(keyed(search_url(cache, req.query@), api_key(cache)))
    }
}

/// What a search answers to a reply: an entry for each item, up to the limit.
pub open spec fn search_outcome(reply: Reply<Vec<SubtitleItem>>, limit: u32) -> ListingOutcome {
    match reply {
        Reply::HttpError(e) => Err(("HTTP_ERROR"@, e@)),
        Reply::ParseError(e) => Err(("PARSE_ERROR"@, e@)),
        Reply::Parsed(items) => {
            let n = if items@.len() < limit {
                items@.len()
            } else {
                limit as nat
            };
            Ok(
                (
                    Seq::new(
                        n,
                        |i: int| entry_of(items@[i], uppercase(items@[i].attributes.language@)),
                    ),
                    n as u32,
                ),
            )
        },
    }
}

/// The id of a file that an entry's id names, with or without `os:` before it.
pub open spec fn file_of(entry_id: Seq<char>) -> Option<nat> {
    match natural(entry_id, u64::MAX as nat) {
        Some(n) => Some(n),
        None => if begins(entry_id, "os:"@) {
            natural(entry_id.skip(3), u64::MAX as nat)
        } else {
            None
        },
    }
}

/// The id of a file that an entry's id names.
pub fn parse_file_id(entry_id: &str) -> (r: Option<u64>)
    ensures
        match r {
            Some(n) => file_of(entry_id@) == Some(n as nat),
            None => file_of(entry_id@) is None,
        },
{
    proof {
        reveal_strlit("os:");
    }
    let cs = to_chars(entry_id);
    let cs = cs.as_slice();
    if let Some(n) = parse_natural(cs, u64::MAX) {
        return Some(n);
    }
    if begins_with(cs, "os:") {
        parse_natural(skip_to(cs, 3), u64::MAX)
    } else {
        None
    }
}

/// The id that an entry is listed under names the file of its subtitles.
pub proof fn listed_id_names_the_file(item: SubtitleItem, language: Seq<char>)
    ensures
        file_of(entry_of(item, language).id) == Some(file_id_of(item.attributes) as nat),
{
    reveal_strlit("os:");
    let n = file_id_of(item.attributes) as nat;
    let id = entry_of(item, language).id;
    lemma_natural_decimal(n, u64::MAX as nat);
    assert(id.skip(3) =~= decimal(n));
    assert(id.subrange(0, 3) =~= "os:"@);
    assert(id[0] == 'o');
    assert(natural(id, u64::MAX as nat) is None);
}

/// The headers that the server wants, with a bearer token where there is one.
pub open spec fn headers(api_key: Seq<char>, jwt: Option<Seq<char>>) -> JsonVal {
    let h = Map::<Seq<char>, JsonVal>::empty().insert("Api-Key"@, JsonVal::Str(api_key)).insert(
        "User-Agent"@,
        JsonVal::Str("stui v0.1.0"@),
    ).insert("Content-Type"@, JsonVal::Str("application/json"@));
    match jwt {
        Some(t) => JsonVal::Obj(h.insert("Authorization"@, JsonVal::Str("Bearer "@ + t))),
        None => JsonVal::Obj(h),
    }
}

/// A body with headers for the host among its members, given what it reads
/// as. What is not JSON counts as an empty object; what is no object stays as
/// it is.
pub open spec fn augmented(body: Result<JsonVal, Seq<char>>, headers: JsonVal) -> JsonVal {
    match body {
        Ok(JsonVal::Obj(m)) => JsonVal::Obj(m.insert("__stui_headers"@, headers)),
        Ok(v) => v,
        Err(_) => JsonVal::Obj(Map::empty().insert("__stui_headers"@, headers)),
    }
}

/// Puts headers for the host among the members of a body.
fn inject(body: &str, api_key: &str, jwt: Option<&str>) -> (r: String)
    ensures
        r@ == rendered(
            augmented(
                parsed(body@),
                headers(
                    api_key@,
                    match jwt {
                        Some(t) => Some(t@),
                        None => None,
                    },
                ),
            ),
        ),
{
    let mut obj = match read_value(body) {
        Ok(v) => v,
        Err(_) => new_object(),
    };
    let mut h = new_object();
    set_member(&mut h, "Api-Key", new_text(api_key));
    set_member(&mut h, "User-Agent", new_text("stui v0.1.0"));
    set_member(&mut h, "Content-Type", new_text("application/json"));
    if let Some(t) = jwt {
        set_member(&mut h, "Authorization", new_text(cat("Bearer ", t).as_str()));
    }
    set_member(&mut obj, "__stui_headers", h);
    write_value(&obj)
}

/// Puts the key and the other headers that the server wants among the members
/// of a body.
pub fn inject_api_key_header(body: &str, api_key: &str) -> (r: String)
    ensures
        r@ == rendered(augmented(parsed(body@), headers(api_key@, None))),
{
    inject(body, api_key, None)
}

/// As `inject_api_key_header`, with the bearer token of a login.
pub fn inject_auth_headers(body: &str, api_key: &str, jwt: &str) -> (r: String)
    ensures
        r@ == rendered(augmented(parsed(body@), headers(api_key@, Some(jwt@)))),
{
    inject(body, api_key, Some(jwt))
}

/// What is sent to the server: an address and a body.
#[derive(Debug)]
pub struct Post {
    pub url: String,
    pub body: String,
}

impl View for Post {
    type V = (Seq<char>, Seq<char>);

    open spec fn view(&self) -> (Seq<char>, Seq<char>) {
        (self.url@, self.body@)
    }
}

/// What a request to resolve needs next.
#[derive(Debug)]
pub enum ResolveStep {
    Answer(ResolveAnswer),
    /// A login, and then the download.
    Login(Post),
    /// The download.
    Download(Post),
}

/// What a `ResolveStep` holds.
pub enum ResolveStepView {
    Answer(Result<ResolveView, (Seq<char>, Seq<char>)>),
    Login((Seq<char>, Seq<char>)),
    Download((Seq<char>, Seq<char>)),
}

impl View for ResolveStep {
    type V = ResolveStepView;

    open spec fn view(&self) -> ResolveStepView {
        match self {
            ResolveStep::Answer(a) => ResolveStepView::Answer(a@),
            ResolveStep::Login(p) => ResolveStepView::Login(p@),
            ResolveStep::Download(p) => ResolveStepView::Download(p@),
        }
    }
}

/// The token of an earlier login.
pub open spec fn kept_token(cache: Map<Seq<char>, String>) -> Option<Seq<char>> {
    if cache.contains_key("os_jwt"@) && cache["os_jwt"@]@.len() > 0 {
        Some(cache["os_jwt"@]@)
    } else {
        None
    }
}

/// Why nobody can be logged in.
pub open spec fn no_account() -> Seq<char> {
    "OS_USERNAME and OS_PASSWORD must be set for subtitle downloads. Anonymous users are limited to 5 downloads per 24h."@
}

/// The request for a download, given the server and the key.
pub open spec fn download(
    base: Seq<char>,
    key: Seq<char>,
    file_id: nat,
    token: Seq<char>,
) -> (Seq<char>, Seq<char>) {
    (
        "https://"@ + base + "/api/v1/download"@,
        rendered(
            augmented(
                parsed("{\"file_id\":"@ + decimal(file_id) + "}"@),
                headers(key, Some(token)),
            ),
        ),
    )
}

/// The request for a login, given the server, the key and the account.
pub open spec fn login_post(
    base: Seq<char>,
    key: Seq<char>,
    username: Seq<char>,
    password: Seq<char>,
) -> (Seq<char>, Seq<char>) {
    (
        "https://"@ + base + "/api/v1/login"@,
        rendered(
            augmented(
                parsed(
                    "{\"username\":"@ + quoted(username) + ",\"password\":"@ + quoted(password)
                        + "}"@,
                ),
                headers(key, None),
            ),
        ),
    )
}

/// What a request to resolve needs next: the download with the token of an
/// earlier login, or else a login where an account is set.
pub open spec fn resolve_step(cache: Map<Seq<char>, String>, req: ResolveRequest) -> ResolveStepView {
    if api_key(cache).len() == 0 {
        ResolveStepView::Answer(Err(("CONFIG_ERROR"@, no_key())))
    } else {
        match file_of(req.entry_id@) {
            None => ResolveStepView::Answer(Err(("INVALID_ID"@, "could not parse file_id"@))),
            Some(id) => match kept_token(cache) {
                Some(token) => ResolveStepView::Download(
                    download(base_url(cache), api_key(cache), id, token),
                ),
                None => {
                    let username = env_value(cache, "OS_USERNAME"@, ""@);
                    let password = env_value(cache, "OS_PASSWORD"@, ""@);
                    if username.len() == 0 || password.len() == 0 {
                        ResolveStepView::Answer(Err(("AUTH_REQUIRED"@, no_account())))
                    } else {
                        ResolveStepView::Login(
                            login_post(base_url(cache), api_key(cache), username, password),
                        )
                    }
                },
            },
        }
    }
}

/// What the server answers to a login.
#[derive(Debug, Clone)]
pub struct LoginResponse {
    pub token: String,
    pub base_url: String,
    pub status: u16,
}

/// What the server answers to a request for a download.
#[derive(Debug, Clone)]
pub struct DownloadResponse {
    pub link: String,
    pub file_name: Option<String>,
    pub remaining: i32,
}

/// A download failed because its token was refused: the server answered with
/// the status for that.
pub open spec fn refused(message: Seq<char>) -> bool {
    begins(message, "HTTP 401: "@)
}

/// What a request to resolve answers to the reply to a download: the link
/// that the server gave.
pub open spec fn download_outcome(reply: Reply<DownloadResponse>) -> Result<
    ResolveView,
    (Seq<char>, Seq<char>),
> {
    match reply {
        Reply::HttpError(e) => Err(("DOWNLOAD_ERROR"@, e@)),
        Reply::ParseError(e) => Err(("PARSE_ERROR"@, e@)),
        Reply::Parsed(dl) => if dl.link@.len() == 0 {
            Err(("DOWNLOAD_ERROR"@, "empty download link"@))
        } else {
            Ok(
                ResolveView {
                    stream_url: dl.link@,
                    quality: opt(dl.file_name),
                    subtitles: seq![],
                },
            )
        },
    }
}

/// What follows the first download of a request to resolve.
#[derive(Debug)]
pub enum RetryStep {
    Answer(ResolveAnswer),
    /// A new login, and then one more download.
    Login(Post),
}

/// What a `RetryStep` holds.
pub enum RetryStepView {
    Answer(Result<ResolveView, (Seq<char>, Seq<char>)>),
    Login((Seq<char>, Seq<char>)),
}

impl View for RetryStep {
    type V = RetryStepView;

    open spec fn view(&self) -> RetryStepView {
        match self {
            RetryStep::Answer(a) => RetryStepView::Answer(a@),
            RetryStep::Login(p) => RetryStepView::Login(p@),
        }
    }
}

/// What follows the first download: a new login where the token was refused
/// and an account is set, and else the answer.
pub open spec fn retry_step(cfg: Config, reply: Reply<DownloadResponse>) -> RetryStepView {
    match reply {
        Reply::HttpError(e) => if refused(e@) && cfg.username@.len() > 0 && cfg.password@.len()
            > 0 {
            RetryStepView::Login(
                login_post(cfg.base_url@, cfg.api_key@, cfg.username@, cfg.password@),
            )
        } else {
            RetryStepView::Answer(download_outcome(reply))
        },
        _ => RetryStepView::Answer(download_outcome(reply)),
    }
}

/// Of all that the server can answer to a request, the status for a refused
/// token, whatever body comes with it, and no other status says that the
/// token was refused.
pub proof fn refusal_is_told_by_the_status(status: u16, body: Seq<char>)
    ensures
        outcome(status, body) matches Err(e) ==> (refused(e) <==> status == 401),
        outcome(401, body) is Err,
{
    reveal_strlit("HTTP ");
    reveal_strlit(": ");
    reveal_strlit("HTTP 401: ");
    let n = decimal(status as nat);
    let e = "HTTP "@ + n + ": "@ + body;
    let mark = "HTTP 401: "@;
    lemma_decimal(status as nat);
    lemma_natural_decimal(status as nat, u16::MAX as nat);
    lemma_natural_decimal(401, u16::MAX as nat);
    reveal_with_fuel(decimal, 4);
    assert(decimal(401) =~= seq!['4', '0', '1']);
    if status == 401 {
        assert(e.subrange(0, mark.len() as int) =~= mark);
    }
    if begins(e, mark) {
        let h = e.subrange(0, mark.len() as int);
        assert(h[5] == e[5] && h[6] == e[6] && h[7] == e[7] && h[8] == e[8]);
        assert(forall|k: int| 0 <= k < n.len() ==> e[5 + k] == #[trigger] n[k]);
        assert(e[5 + n.len() as int] == ':');
        if n.len() > 3 {
            assert(digit(n[3]));
        }
        assert(n =~= decimal(401));
    }
}

/// A login succeeded: it gave a token.
pub open spec fn logged_in(resp: LoginResponse) -> bool {
    resp.status == 200 && resp.token@.len() > 0
}

/// Keeps the token of a login, and the server that it names. A login without
/// a token fails and changes nothing.
pub fn login(cache: &mut Table<String>, resp: LoginResponse) -> (r: Result<String, String>)
    ensures
        match r {
            Ok(t) => {
                &&& logged_in(resp)
                &&& t@ == resp.token@
                &&& kept_token(final(cache)@) == Some(resp.token@)
                &&& resp.base_url@.len() > 0 ==> base_url(final(cache)@) == resp.base_url@
                &&& resp.base_url@.len() == 0 ==> base_url(final(cache)@) == base_url(old(cache)@)
                &&& forall|k: Seq<char>|
                    k != "os_jwt"@ && k != "os_base_url"@ ==> (#[trigger] final(cache)@.contains_key(
                        k,
                    ) <==> old(cache)@.contains_key(k)) && final(cache)@[k] == old(cache)@[k]
            },
            Err(m) => {
                &&& !logged_in(resp)
                &&& m@ == "login failed: status="@ + decimal(resp.status as nat)
                &&& final(cache)@ == old(cache)@
            },
        },
{
    if resp.status != 200 || resp.token.as_str().is_empty() {
        return Err(cat("login failed: status=", decimal_text(resp.status as u64).as_str()));
    }
    proof {
        reveal_strlit("os_jwt");
        reveal_strlit("os_base_url");
        assert("os_jwt"@.len() != "os_base_url"@.len());
    }
    cache.insert(JWT_CACHE_KEY, resp.token.clone());
    if !resp.base_url.as_str().is_empty() {
        cache.insert(BASE_URL_CACHE_KEY, resp.base_url);
    }
    Ok(resp.token)
}

impl OpenSubtitlesProvider {
    /// The provider's name.
    pub fn name(&self) -> (r: &str)
        ensures
            r@ == "opensubtitles-provider"@,
    {
        "opensubtitles-provider"
    }

    /// The provider's version.
    pub fn version(&self) -> (r: &str)
        ensures
            r@ == "0.1.0"@,
    {
        "0.1.0"
    }

    /// What the provider is for.
    pub fn plugin_type(&self) -> (r: PluginType)
        ensures
            r == PluginType::Provider,
    {
        PluginType::Provider
    }

    /// Begins a search: the page to fetch, or the error that the key is missing.
    pub fn search(&self, cache: &Table<String>, req: &SearchRequest) -> (r: Step<ListingAnswer>)
        ensures
            r@ == search_step(cache@, *req),
    {
        proof {
            reveal_strlit("tt");
        }
        let cfg = match Config::load(cache) {
            Ok(c) => c,
            Err(e) => {
                return Step::Answer(PluginResult::err("CONFIG_ERROR", e.as_str()));
            },
        };
        let query = to_chars(req.query.as_str());
        let what = if begins_with(query.as_slice(), "tt") && query.len() > 2 && all_in(
            skip_to(query.as_slice(), 2),
            Class::Digit,
        ) {
            cat("imdb_id=", to_text(skip_to(query.as_slice(), 2)).as_str())
        } else {
            cat("query=", url_encode(req.query.as_str()).as_str())
        };
        let mut url = cat5(
            "https://",
            cfg.base_url.as_str(),
            "/api/v1/subtitles?",
            what.as_str(),
            "&languages=",
        );
        url.append(cfg.language.as_str());
        url.append("&per_page=20");
        Step::Fetch(with_api_key(url.as_str(), &cfg))
    }

    /// Ends a search: an entry for each item, up to the limit.
    pub fn search_reply(&self, reply: Reply<Vec<SubtitleItem>>, limit: u32) -> (r: ListingAnswer)
        ensures
            r@ == search_outcome(reply, limit),
    {
        match reply {
            Reply::HttpError(e) => PluginResult::err("HTTP_ERROR", e.as_str()),
            Reply::ParseError(e) => PluginResult::err("PARSE_ERROR", e.as_str()),
            Reply::Parsed(items) => {
                let ghost all = items@;
                let mut out: Vec<Listing> = Vec::new();
                for item in it: items
                    invariant
                        it.seq() == all,
                        out@.len() <= limit,
                        out@.len() <= it.index(),
                        out@.len() == it.index() || out@.len() == limit,
                        forall|k: int|
                            0 <= k < out@.len() ==> (#[trigger] out@[k])@ == entry_of(
                                all[k],
                                uppercase(all[k].attributes.language@),
                            ),
                {
                    if (out.len() as u64) < limit as u64 {
                        out.push(item.into_entry());
                    }
                }
                let total = out.len() as u32;
                proof {
                    let n = if all.len() < limit {
                        all.len()
                    } else {
                        limit as nat
                    };
                    assert(views(out@) =~= Seq::new(
                        n,
                        |i: int| entry_of(all[i], uppercase(all[i].attributes.language@)),
                    ));
                }
                PluginResult::ok(ListingResponse { items: out, total })
            },
        }
    }

    /// The request for a download.
    pub fn download_post(&self, cfg: &Config, file_id: u64, token: &str) -> (r: Post)
        ensures
            r@ == download(cfg.base_url@, cfg.api_key@, file_id as nat, token@),
    {
        let body = cat3("{\"file_id\":", decimal_text(file_id).as_str(), "}");
        Post {
            url: cat3("https://", cfg.base_url.as_str(), "/api/v1/download"),
            body: inject_auth_headers(body.as_str(), cfg.api_key.as_str(), token),
        }
    }

    /// The request for a login.
    pub fn login_request(&self, cfg: &Config) -> (r: Post)
        ensures
            r@ == login_post(cfg.base_url@, cfg.api_key@, cfg.username@, cfg.password@),
    {
        let body = cat5(
            "{\"username\":",
            json_string(cfg.username.as_str()).as_str(),
            ",\"password\":",
            json_string(cfg.password.as_str()).as_str(),
            "}",
        );
        Post {
            url: cat3("https://", cfg.base_url.as_str(), "/api/v1/login"),
            body: inject_api_key_header(body.as_str(), cfg.api_key.as_str()),
        }
    }

    /// Begins a request to resolve: the download with the token of an earlier
    /// login, or a login, or the answer where neither can be.
    pub fn resolve(&self, cache: &Table<String>, req: &ResolveRequest) -> (r: ResolveStep)
        ensures
            r@ == resolve_step(cache@, *req),
    {
        let cfg = match Config::load(cache) {
            Ok(c) => c,
            Err(e) => {
                return ResolveStep::Answer(PluginResult::err("CONFIG_ERROR", e.as_str()));
            },
        };
        let file_id = match parse_file_id(req.entry_id.as_str()) {
            Some(n) => n,
            None => {
                return ResolveStep::Answer(
                    PluginResult::err("INVALID_ID", "could not parse file_id"),
                );
            },
        };
        if let Some(token) = cache.get(JWT_CACHE_KEY) {
            if !token.as_str().is_empty() {
                return ResolveStep::Download(self.download_post(&cfg, file_id, token.as_str()));
            }
        }
        if cfg.username.as_str().is_empty() || cfg.password.as_str().is_empty() {
            return ResolveStep::Answer(
                PluginResult::err(
                    "AUTH_REQUIRED",
                    "OS_USERNAME and OS_PASSWORD must be set for subtitle downloads. Anonymous users are limited to 5 downloads per 24h.",
                ),
            );
        }
        ResolveStep::Login(self.login_request(&cfg))
    }

    /// Answers where a login failed.
    pub fn login_failed(&self, message: &str) -> (r: ResolveAnswer)
        ensures
            r@ == Err::<ResolveView, (Seq<char>, Seq<char>)>(("AUTH_REQUIRED"@, message@)),
    {
        PluginResult::err("AUTH_REQUIRED", message)
    }

    /// Goes on with the reply to the first download: a new login where the
    /// token was refused and an account is set, and else the answer.
    pub fn download_reply(&self, cfg: &Config, reply: Reply<DownloadResponse>) -> (r: RetryStep)
        ensures
            r@ == retry_step(*cfg, reply),
    {
        if let Reply::HttpError(e) = &reply {
            if begins_with(to_chars(e.as_str()).as_slice(), "HTTP 401: ")
                && !cfg.username.as_str().is_empty() && !cfg.password.as_str().is_empty() {
                return RetryStep::Login(self.login_request(cfg));
            }
        }
        RetryStep::Answer(self.resolve_reply(reply))
    }

    /// Ends a request to resolve: the link that the server gave.
    pub fn resolve_reply(&self, reply: Reply<DownloadResponse>) -> (r: ResolveAnswer)
        ensures
            r@ == download_outcome(reply),
    {
        match reply {
            Reply::HttpError(e) => PluginResult::err("DOWNLOAD_ERROR", e.as_str()),
            Reply::ParseError(e) => PluginResult::err("PARSE_ERROR", e.as_str()),
            Reply::Parsed(dl) => if dl.link.as_str().is_empty() {
                PluginResult::err("DOWNLOAD_ERROR", "empty download link")
            } else {
                let subtitles: Vec<SubtitleTrack> = Vec::new();
                assert(views(subtitles@) =~= Seq::<TrackView>::empty());
                PluginResult::ok(
                    ResolveResponse { stream_url: dl.link, quality: dl.file_name, subtitles },
                )
            },
        }
    }
}

/// The flags of a subtitle, each where it is set and in this order.
pub open spec fn set_flags(a: SubtitleAttributes) -> Seq<Seq<char>> {
    (if a.hearing_impaired {
        seq!["HI"@]
    } else {
        seq![]
    }) + (if a.hd {
        seq!["HD"@]
    } else {
        seq![]
    }) + (if a.ai_translated {
        seq!["AI"@]
    } else {
        seq![]
    }) + (if a.machine_translated {
        seq!["MT"@]
    } else {
        seq![]
    })
}

/// The flags that are set stand in brackets behind a space, with spaces
/// between them; where none is set nothing does.
pub proof fn flags_stand_in_brackets(a: SubtitleAttributes)
    ensures
        flags_of(a) == if set_flags(a).len() == 0 {
            seq![]
        } else {
            " ["@ + join(set_flags(a), " "@) + "]"@
        },
{
    reveal_strlit("HI");
    reveal_strlit("HD");
    reveal_strlit("AI");
    reveal_strlit("MT");
    reveal_with_fuel(join, 5);
    let v = set_flags(a);
    let hi = if a.hearing_impaired {
        seq!["HI"@]
    } else {
        seq![]
    };
    let hd = if a.hd {
        hi.push("HD"@)
    } else {
        hi
    };
    let ai = if a.ai_translated {
        hd.push("AI"@)
    } else {
        hd
    };
    let mt = if a.machine_translated {
        ai.push("MT"@)
    } else {
        ai
    };
    assert(v =~= mt);
    assert(hi.push("HD"@).drop_last() =~= hi);
    assert(hd.push("AI"@).drop_last() =~= hd);
    assert(ai.push("MT"@).drop_last() =~= ai);
}

/// The flags hold `HI` exactly where the subtitle is for the hearing impaired,
/// `HD` exactly where it is for a release in high definition, `AI` exactly
/// where a model and `MT` exactly where a machine translated it.
pub proof fn flags_name_what_is_set(a: SubtitleAttributes)
    ensures
        occurs(flags_of(a), "HI"@) <==> a.hearing_impaired,
        occurs(flags_of(a), "HD"@) <==> a.hd,
        occurs(flags_of(a), "AI"@) <==> a.ai_translated,
        occurs(flags_of(a), "MT"@) <==> a.machine_translated,
        a.hearing_impaired && !a.hd && !a.ai_translated && !a.machine_translated ==> flags_of(a)
            == " [HI]"@,
        !a.hearing_impaired && a.hd && !a.ai_translated && !a.machine_translated ==> flags_of(a)
            == " [HD]"@,
        !a.hearing_impaired && !a.hd && a.ai_translated && !a.machine_translated ==> flags_of(a)
            == " [AI]"@,
        !a.hearing_impaired && !a.hd && !a.ai_translated && a.machine_translated ==> flags_of(a)
            == " [MT]"@,
        !a.hearing_impaired && !a.hd && !a.ai_translated && !a.machine_translated ==> flags_of(
            a,
        ).len() == 0,
{
    reveal_strlit("HI");
    reveal_strlit("HD");
    reveal_strlit("AI");
    reveal_strlit("MT");
    reveal_strlit(" [");
    reveal_strlit("]");
    reveal_strlit(" ");
    reveal_strlit(" [HI]");
    reveal_strlit(" [HD]");
    reveal_strlit(" [AI]");
    reveal_strlit(" [MT]");
    let s = flags_of(a);
    lemma_pair(s, 'H', 'I');
    lemma_pair(s, 'H', 'D');
    lemma_pair(s, 'A', 'I');
    lemma_pair(s, 'M', 'T');
    assert(seq!['H', 'I'] =~= "HI"@);
    assert(seq!['H', 'D'] =~= "HD"@);
    assert(seq!['A', 'I'] =~= "AI"@);
    assert(seq!['M', 'T'] =~= "MT"@);
    let f1 = flagged(seq![], a.hearing_impaired, "HI"@);
    let f2 = flagged(f1, a.hd, "HD"@);
    let f3 = flagged(f2, a.ai_translated, "AI"@);
    let f4 = flagged(f3, a.machine_translated, "MT"@);
    if a.hearing_impaired {
        assert(s[2] == 'H' && s[3] == 'I');
    }
    if a.hd {
        let i = f1.len() as int + if a.hearing_impaired {
            3int
        } else {
            2int
        };
        assert(s[i] == 'H' && s[i + 1] == 'D');
    }
    if a.ai_translated {
        let i = f2.len() as int + if f2.len() > 0 {
            3int
        } else {
            2int
        };
        assert(s[i] == 'A' && s[i + 1] == 'I');
    }
    if a.machine_translated {
        let i = f3.len() as int + if f3.len() > 0 {
            3int
        } else {
            2int
        };
        assert(s[i] == 'M' && s[i + 1] == 'T');
    }
}

/// A text of two characters occurs where the two stand side by side.
proof fn lemma_pair(s: Seq<char>, x: char, y: char)
    ensures
        occurs(s, seq![x, y]) <==> exists|i: int|
            0 <= i < s.len() - 1 && #[trigger] s[i] == x && s[i + 1] == y,
{
    let n = seq![x, y];
    lemma_has(s, n);
    if occurs(s, n) {
        let i = find(s, n).unwrap();
        assert(s.subrange(i, i + 2)[0] == s[i] && s.subrange(i, i + 2)[1] == s[i + 1]);
        assert(s[i] == x && s[i + 1] == y);
    }
    if exists|i: int| 0 <= i < s.len() - 1 && #[trigger] s[i] == x && s[i + 1] == y {
        let i = choose|i: int| 0 <= i < s.len() - 1 && #[trigger] s[i] == x && s[i + 1] == y;
        assert(s.subrange(i, i + 2) =~= n);
        assert(at(s, n, i));
    }
}

/// An entry tells what the subtitle tells: the id of its first file, its
/// language, name, flags, rating and downloads, its page, and year and IMDb id
/// of what it is for. A subtitle without files goes by the id 0 and the name of
/// its release, which also stands for a file without a name.
pub proof fn entries_tell_what_subtitles_tell(item: SubtitleItem, language: Seq<char>)
    ensures
        ({
            let a = item.attributes;
            let entry = entry_of(item, language);
            let name = if a.files@.len() > 0 && a.files@[0].file_name is Some {
                a.files@[0].file_name->0@
            } else {
                a.release@
            };
            &&& a.files@.len() > 0 ==> entry.id == "os:"@ + decimal(a.files@[0].file_id as nat)
            &&& a.files@.len() == 0 ==> entry.id == "os:"@ + decimal(0)
            &&& entry.title == "["@ + language + "] "@ + name + flags_of(a) + "  ★"@ + a.ratings@
                + "  ↓"@ + decimal(a.download_count as nat)
            &&& entry.genre == Some(a.language@)
            &&& entry.rating == Some(a.ratings@)
            &&& entry.description == Some(a.url@)
            &&& a.feature_details.year matches Some(y) ==> entry.year == Some(decimal(y as nat))
            &&& a.feature_details.year is None ==> entry.year is None
            &&& a.feature_details.imdb_id matches Some(i) ==> entry.imdb_id == Some(
                "tt"@ + padded(i as nat, 7),
            )
            &&& a.feature_details.imdb_id is None ==> entry.imdb_id is None
            &&& entry.poster_url is None && entry.duration is None
        }),
{
}

/// Entries are the first subtitles of the answer, as many as are asked for and
/// there are, each in its place and under its own language in capitals.
pub proof fn entries_are_the_first_subtitles(items: Vec<SubtitleItem>, limit: u32, e: String)
    ensures
        search_outcome(Reply::Parsed(items), limit) matches Ok((entries, total)) && {
            &&& entries.len() == total
            &&& entries.len() <= limit && entries.len() <= items@.len()
            &&& entries.len() == limit || entries.len() == items@.len()
            &&& forall|i: int|
                0 <= i < entries.len() ==> #[trigger] entries[i] == entry_of(
                    items@[i],
                    uppercase(items@[i].attributes.language@),
                )
        },
        search_outcome(Reply::HttpError(e), limit) == ListingOutcome::Err(("HTTP_ERROR"@, e@)),
        search_outcome(Reply::ParseError(e), limit) == ListingOutcome::Err(("PARSE_ERROR"@, e@)),
{
}

/// A search asks in the language that is set and with the key that is set:
/// by number where the query is an IMDb id, and by its text otherwise.
pub proof fn searches_ask_by_id_or_text(cache: Map<Seq<char>, String>, req: SearchRequest, n: Seq<char>)
    requires
        env_value(cache, "OS_API_KEY"@, ""@).len() > 0,
        req.query@ == "tt"@ + n || !begins(req.query@, "tt"@),
    ensures
        ({
            let asked = "/api/v1/subtitles?"@;
            let rest = "&languages="@ + env_value(cache, "OS_LANGUAGE"@, "en"@) + "&per_page=20"@
                + "&"@ + "Api-Key="@ + env_value(cache, "OS_API_KEY"@, ""@);
            search_step(cache, req) matches StepView::Fetch(u) && u == "https://"@ + base_url(cache)
                + asked + (if digits(n) && req.query@ == "tt"@ + n {
                "imdb_id="@ + n
            } else {
                "query="@ + encoded(req.query@)
            }) + rest
        }),
{
    reveal_strlit("tt");
    reveal_strlit("/api/v1/subtitles?");
    let q = req.query@;
    if q == "tt"@ + n {
        assert(q.skip(2) =~= n);
        assert(q.subrange(0, 2) =~= "tt"@);
        if digits(n) {
            assert(all(n, Class::Digit));
        } else if all(n, Class::Digit) && n.len() > 0 {
            assert forall|i: int| 0 <= i < n.len() implies digit(#[trigger] n[i]) by {
                assert(member(Class::Digit, n[i]));
            }
        }
    }
    let url = search_url(cache, q);
    let what = if is_id(q) {
        "imdb_id="@ + q.skip(2)
    } else {
        "query="@ + encoded(q)
    };
    let head = "https://"@ + base_url(cache) + "/api/v1/subtitles?"@;
    lemma_find_char(url, '?');
    assert(head[head.len() - 1] == '?');
    assert(url[head.len() - 1] == '?');
    let key = api_key(cache);
    assert(keyed(url, key) =~= head + what + ("&languages="@ + env_value(
        cache,
        "OS_LANGUAGE"@,
        "en"@,
    ) + "&per_page=20"@ + "&"@ + "Api-Key="@ + key));
}

/// The server is the one that the last login named, and the public one before
/// any; a token is kept where the last login left one.
pub proof fn logins_are_remembered(cache: Map<Seq<char>, String>, value: String)
    ensures
        value@.len() > 0 ==> base_url(cache.insert("os_base_url"@, value)) == value@,
        value@.len() > 0 ==> kept_token(cache.insert("os_jwt"@, value)) == Some(value@),
        value@.len() == 0 ==> base_url(cache.insert("os_base_url"@, value))
            == "api.opensubtitles.com"@,
        value@.len() == 0 ==> kept_token(cache.insert("os_jwt"@, value)) is None,
        !cache.contains_key("os_base_url"@) ==> base_url(cache) == "api.opensubtitles.com"@,
        !cache.contains_key("os_jwt"@) ==> kept_token(cache) is None,
{
}

/// Requests carry the key, what asks and what is sent, and the token of a
/// login where there is one.
pub proof fn requests_carry_the_key(key: Seq<char>, jwt: Option<Seq<char>>)
    ensures
        headers(key, jwt) matches JsonVal::Obj(m) && {
            &&& m.contains_key("Api-Key"@) && m["Api-Key"@] == JsonVal::Str(key)
            &&& m.contains_key("User-Agent"@) && m["User-Agent"@] == JsonVal::Str("stui v0.1.0"@)
            &&& m.contains_key("Content-Type"@) && m["Content-Type"@] == JsonVal::Str(
                "application/json"@,
            )
            &&& jwt matches Some(t) ==> m.contains_key("Authorization"@) && m["Authorization"@]
                == JsonVal::Str("Bearer "@ + t)
            &&& jwt is None ==> !m.contains_key("Authorization"@)
            &&& forall|k: Seq<char>| #[trigger]
                m.contains_key(k) ==> k == "Api-Key"@ || k == "User-Agent"@ || k == "Content-Type"@
                    || k == "Authorization"@
        },
{
    reveal_strlit("Api-Key");
    reveal_strlit("User-Agent");
    reveal_strlit("Content-Type");
    reveal_strlit("Authorization");
    assert("Api-Key"@.len() == 7 && "User-Agent"@.len() == 10 && "Content-Type"@.len() == 12
        && "Authorization"@.len() == 13);
}

/// The headers join the members of the body and change none of them; they
/// stand alone where there is no body.
pub proof fn headers_join_the_body(m: Map<Seq<char>, JsonVal>, h: JsonVal, e: Seq<char>)
    ensures
        augmented(Ok(JsonVal::Obj(m)), h) matches JsonVal::Obj(r) && {
            &&& r.contains_key("__stui_headers"@) && r["__stui_headers"@] == h
            &&& forall|k: Seq<char>|
                k != "__stui_headers"@ ==> (#[trigger] r.contains_key(k) <==> m.contains_key(k))
            &&& forall|k: Seq<char>|
                k != "__stui_headers"@ && m.contains_key(k) ==> #[trigger] r[k] == m[k]
        },
        augmented(Err(e), h) matches JsonVal::Obj(r) && r.contains_key("__stui_headers"@)
            && r["__stui_headers"@] == h && r.dom().len() == 1,
{
    let r = Map::<Seq<char>, JsonVal>::empty().insert("__stui_headers"@, h);
    assert(r.dom() =~= Set::empty().insert("__stui_headers"@));
}

/// A subtitle is downloaded with the token that is kept; without one a login
/// comes first, with the account that is set; without that, and without a key
/// or a file's id, the answer says what is missing.
pub proof fn downloads_need_a_login(cache: Map<Seq<char>, String>, req: ResolveRequest)
    ensures
        ({
            let key = env_value(cache, "OS_API_KEY"@, ""@);
            let user = env_value(cache, "OS_USERNAME"@, ""@);
            let password = env_value(cache, "OS_PASSWORD"@, ""@);
            let step = resolve_step(cache, req);
            let known = key.len() > 0 && file_of(req.entry_id@) is Some;
            let account = user.len() > 0 && password.len() > 0;
            &&& key.len() == 0 ==> (step matches ResolveStepView::Answer(Err(e)) && e == (
                "CONFIG_ERROR"@,
                "OS_API_KEY is not set. Get one at https://www.opensubtitles.com/en/consumers"@,
            ))
            &&& key.len() > 0 && file_of(req.entry_id@) is None ==> (
            step matches ResolveStepView::Answer(Err(e)) && e == ("INVALID_ID"@, "could not parse file_id"@))
            &&& known && kept_token(cache) is Some ==> step == ResolveStepView::Download(
                download(
                    base_url(cache),
                    key,
                    file_of(req.entry_id@)->0,
                    kept_token(cache)->0,
                ),
            )
            &&& known && kept_token(cache) is None && account ==> step == ResolveStepView::Login(
                login_post(base_url(cache), key, user, password),
            )
            &&& known && kept_token(cache) is None && !account ==> (
            step matches ResolveStepView::Answer(Err(e)) && e == (
                "AUTH_REQUIRED"@,
                "OS_USERNAME and OS_PASSWORD must be set for subtitle downloads. Anonymous users are limited to 5 downloads per 24h."@,
            ))
        }),
{
}

/// A download and a login go to their own addresses on the server, with the
/// file's id or the account in the body, and the token in the headers of the
/// download alone.
pub proof fn posts_say_what_they_are_for(
    base: Seq<char>,
    key: Seq<char>,
    id: nat,
    token: Seq<char>,
    user: Seq<char>,
    password: Seq<char>,
)
    ensures
        download(base, key, id, token).0 == "https://"@ + base + "/api/v1/download"@,
        download(base, key, id, token).1 == rendered(
            augmented(
                parsed("{\"file_id\":"@ + decimal(id) + "}"@),
                headers(key, Some(token)),
            ),
        ),
        login_post(base, key, user, password).0 == "https://"@ + base + "/api/v1/login"@,
        login_post(base, key, user, password).1 == rendered(
            augmented(
                parsed(
                    "{\"username\":"@ + quoted(user) + ",\"password\":"@ + quoted(password)
                        + "}"@,
                ),
                headers(key, None),
            ),
        ),
{
}

/// A new login is tried exactly where the server refused the token and an
/// account is set.
pub proof fn only_a_refusal_leads_to_a_login(cfg: Config, reply: Reply<DownloadResponse>)
    ensures
        retry_step(cfg, reply) is Login <==> (reply matches Reply::HttpError(e) && begins(
            e@,
            "HTTP 401: "@,
        ) && cfg.username@.len() > 0 && cfg.password@.len() > 0),
        retry_step(cfg, reply) matches RetryStepView::Login(post) ==> post == login_post(
            cfg.base_url@,
            cfg.api_key@,
            cfg.username@,
            cfg.password@,
        ),
        retry_step(cfg, reply) matches RetryStepView::Answer(a) ==> a == download_outcome(reply),
{
}

/// A subtitle is played from the link of the answer and goes by the name of its
/// file; an answer without a link, and what went wrong, are told by their codes.
pub proof fn links_are_handed_out(dl: DownloadResponse, e: String)
    ensures
        dl.link@.len() > 0 ==> (download_outcome(Reply::Parsed(dl)) matches Ok(r) && r.stream_url
            == dl.link@ && r.quality == opt(dl.file_name) && r.subtitles.len() == 0),
        dl.link@.len() == 0 ==> (download_outcome(Reply::Parsed(dl)) matches Err(x) && x == (
            "DOWNLOAD_ERROR"@,
            "empty download link"@,
        )),
        download_outcome(Reply::HttpError(e)) == Err::<ResolveView, (Seq<char>, Seq<char>)>(
            ("DOWNLOAD_ERROR"@, e@),
        ),
        download_outcome(Reply::ParseError(e)) == Err::<ResolveView, (Seq<char>, Seq<char>)>(
            ("PARSE_ERROR"@, e@),
        ),
{
}

/// A login counts where the server says so with status 200 and gives a token.
pub proof fn logins_need_a_token(resp: LoginResponse)
    ensures
        logged_in(resp) <==> resp.status == 200 && resp.token@.len() > 0,
{
}

/// What is seen of a step is its answer, or else what is posted and for what.
pub proof fn steps_are_seen_in_full(a: ResolveAnswer, p: Post)
    ensures
        p@ == (p.url@, p.body@),
        ResolveStep::Answer(a)@ == ResolveStepView::Answer(a@),
        ResolveStep::Login(p)@ == ResolveStepView::Login(p@),
        ResolveStep::Download(p)@ == ResolveStepView::Download(p@),
        RetryStep::Answer(a)@ == RetryStepView::Answer(a@),
        RetryStep::Login(p)@ == RetryStepView::Login(p@),
{
}

/// The key stands behind the other parameters of an address, or is the first.
pub proof fn key_joins_the_parameters(url: Seq<char>, key: Seq<char>)
    ensures
        find_char(url, '?') is Some ==> keyed(url, key) == url + "&"@ + "Api-Key="@ + key,
        find_char(url, '?') is None ==> keyed(url, key) == url + "?"@ + "Api-Key="@ + key,
{
}

/// An entry's id names its file, with or without the letters before it.
pub proof fn ids_name_files(n: nat, other: Seq<char>)
    requires
        n <= u64::MAX,
        natural(other, u64::MAX as nat) is None,
        !begins(other, "os:"@),
    ensures
        file_of("os:"@ + decimal(n)) == Some(n),
        file_of(decimal(n)) == Some(n),
        file_of(other) is None,
{
    reveal_strlit("os:");
    let s = "os:"@ + decimal(n);
    lemma_natural_decimal(n, u64::MAX as nat);
    assert(s.skip(3) =~= decimal(n));
    assert(s.subrange(0, 3) =~= "os:"@);
    assert(s[0] == 'o');
    assert(!digit(s[0]));
}

} // verus!
