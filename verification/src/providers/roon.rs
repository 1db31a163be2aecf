//! Searches and plays through a Roon server.

use vstd::prelude::*;

use crate::json::{
    item_vals, json_string, new_object, new_text, new_uint, parsed, quoted, rendered, set_member,
    write_value, Json, JsonVal,
};
use crate::providers::common::{resolve_to, resolved, ResolveAnswer};
use crate::providers::listing::{list, listed, Listing, ListingAnswer, ListingView};
use crate::sdk::plugin::PluginType;
use crate::sdk::result::{views, PluginResult};
use crate::sdk::types::ResolveView;
use crate::text::cat::{cat, cat3, cat4, cat5};
use crate::text::chars::{same_text, skip_to, take_to, texts, to_chars, to_text};
use crate::text::find::{begins, begins_with, find_char, find_one, lemma_find_char};
use crate::text::list::{collect_some, collected_is_picked, leads, lemma_collect_step, picks};
use crate::text::number::{decimal, decimal_text};
use crate::text::table::Table;
use crate::text::trim::{trim, trim_text};

verus! {

/// The provider.
#[derive(Debug, Default)]
pub struct Roon;

/// The port on which a server is found.
pub const ROON_DISCOVERY_PORT: u16 = 9330;

/// Where the server is, and what it wants to be shown.
#[derive(Debug, Clone)]
pub struct RoonConfig {
    pub server: String,
    pub core_id: String,
    pub token: String,
    pub port: u16,
}

/// What comes of reading the configuration, given what is kept of it.
pub fn get_roon_config(kept: Option<Result<RoonConfig, String>>) -> (r: Result<RoonConfig, String>)
    ensures
        match kept {
            Some(Ok(c)) => r == Ok::<RoonConfig, String>(c),
            Some(Err(e)) => r matches Err(m) && m@ == "parse error: "@ + e@,
            None => r matches Err(m) && m@
                == "Roon not configured. Please set up Roon server in stui settings."@,
        },
{
    match kept {
        Some(Ok(c)) => Ok(c),
        Some(Err(e)) => Err(cat("parse error: ", e.as_str())),
        None => Err(
            "Roon not configured. Please set up Roon server in stui settings.".to_owned(),
        ),
    }
}

/// The text in which a configuration is kept.
pub open spec fn config_text(server: Seq<char>, core_id: Seq<char>, token: Seq<char>) -> Seq<char> {
    "{\"server\":"@ + quoted(server) + ",\"core_id\":"@ + quoted(core_id) + ",\"token\":"@ + quoted(
        token,
    ) + ",\"port\":9330}"@
}

/// Keeps the configuration of a server, with the usual port.
pub fn configure_roon(cache: &mut Table<String>, server: &str, core_id: &str, token: &str)
    ensures
        exists|s: String|
            s@ == config_text(server@, core_id@, token@) && final(cache)@ == #[trigger] old(
                cache,
            )@.insert("roon_config"@, s),
{
    let mut text = cat5(
        "{\"server\":",
        json_string(server).as_str(),
        ",\"core_id\":",
        json_string(core_id).as_str(),
        ",\"token\":",
    );
    text.append(json_string(token).as_str());
    text.append(",\"port\":9330}");
    cache.insert("roon_config", text);
}

/// The servers that are known: the one that the host has found.
pub fn discover_roon(cache: &Table<String>) -> (r: Result<Vec<String>, String>)
    ensures
        r matches Ok(v) && texts(v@) == if cache@.contains_key("roon_server"@) {
            seq![cache@["roon_server"@]@]
        } else {
            seq![]
        },
{
    let mut servers: Vec<String> = Vec::new();
    if let Some(s) = cache.get("roon_server") {
        servers.push(s.clone());
        assert(texts(servers@) =~= seq![cache@["roon_server"@]@]);
    } else {
        assert(texts(servers@) =~= seq![]);
    }
    Ok(servers)
}

/// The type and the key in the id of an entry.
pub open spec fn id_parts(entry_id: Seq<char>) -> Option<(Seq<char>, Seq<char>)> {
    if begins(entry_id, "roon:"@) {
        let rest = entry_id.skip(5);
        match find_char(rest, ':') {
            Some(i) => Some((rest.take(i), rest.skip(i + 1))),
            None => None,
        }
    } else {
        None
    }
}

/// Takes the id of an entry apart into its type and its key.
pub fn parse_roon_id(entry_id: &str) -> (r: Option<(String, String)>)
    ensures
        match r {
            Some((t, k)) => id_parts(entry_id@) == Some((t@, k@)),
            None => id_parts(entry_id@) is None,
        },
{
    proof {
        reveal_strlit("roon:");
    }
    let cs = to_chars(entry_id);
    if !begins_with(cs.as_slice(), "roon:") {
        return None;
    }
    let rest = skip_to(cs.as_slice(), 5);
    let end: usize = rest.len();
    match find_one(rest, ':') {
        Some(i) => Some((to_text(take_to(rest, i)), to_text(skip_to(rest, i + 1)))),
        None => None,
    }
}

/// The id of the entry of a type with a key.
pub open spec fn entry_id_of(kind: Seq<char>, key: Seq<char>) -> Seq<char> {
    "roon:"@ + kind + ":"@ + key
}

/// The id of an entry gives back the type and the key that it was made of,
/// where the type holds no colon.
pub proof fn entry_id_round_trips(kind: Seq<char>, key: Seq<char>)
    requires
        find_char(kind, ':') is None,
    ensures
        id_parts(entry_id_of(kind, key)) == Some((kind, key)),
{
    reveal_strlit("roon:");
    reveal_strlit(":");
    let id = entry_id_of(kind, key);
    assert(id.subrange(0, 5) =~= "roon:"@);
    let rest = id.skip(5);
    assert(rest =~= kind + seq![':'] + key);
    lemma_find_char(kind, ':');
    lemma_find_char(rest, ':');
    assert(rest[kind.len() as int] == ':');
    let i = find_char(rest, ':').unwrap();
    if i < kind.len() {
        assert(kind[i] == ':');
    }
    assert(rest.take(i) =~= kind);
    assert(rest.skip(i + 1) =~= key);
}

/// A request to the server: an address and a body.
#[derive(Debug)]
pub struct Request {
    pub url: String,
    pub body: String,
}

impl View for Request {
    type V = (Seq<char>, Seq<char>);

    open spec fn view(&self) -> (Seq<char>, Seq<char>) {
        (self.url@, self.body@)
    }
}

/// The request that the host makes of an address, a body and the token.
pub fn roon_payload(url: &str, token: &str, body: &str) -> (r: String)
    ensures
        r@ == "{\"url\":"@ + quoted(url@) + ",\"body\":"@ + quoted(body@)
            + ",\"__stui_headers\":{\"Roon-Token\":\""@ + token@ + "\"}}"@,
{
    let mut payload = cat5(
        "{\"url\":",
        json_string(url).as_str(),
        ",\"body\":",
        json_string(body).as_str(),
        ",\"__stui_headers\":{\"Roon-Token\":\"",
    );
    payload.append(token);
    payload.append("\"}}");
    payload
}

/// An address on the server.
pub open spec fn server_url(config: RoonConfig, path: Seq<char>) -> Seq<char> {
    "http://"@ + config.server@ + ":"@ + decimal(config.port as nat) + path
}

/// An address on the server.
fn build_url(config: &RoonConfig, path: &str) -> (r: String)
    ensures
        r@ == server_url(*config, path@),
{
    cat5(
        "http://",
        config.server.as_str(),
        ":",
        decimal_text(config.port as u64).as_str(),
        path,
    )
}

/// What is asked of the library.
pub open spec fn browse_body(query: Seq<char>) -> JsonVal {
    let input = Map::<Seq<char>, JsonVal>::empty().insert(
        "search_type"@,
        JsonVal::Str("library_tracks"@),
    ).insert("search_query"@, JsonVal::Str(query));
    JsonVal::Obj(
        Map::<Seq<char>, JsonVal>::empty().insert("browse_key"@, JsonVal::Str(""@)).insert(
            "input"@,
            JsonVal::Obj(input),
        ).insert("offset"@, JsonVal::Uint(0)).insert("limit"@, JsonVal::Uint(20)),
    )
}

/// The request that searches the library.
pub fn browse_request(config: &RoonConfig, query: &str) -> (r: Request)
    ensures
        r@ == (server_url(*config, "/api/browse"@), rendered(browse_body(query@))),
{
    let mut input = new_object();
    set_member(&mut input, "search_type", new_text("library_tracks"));
    set_member(&mut input, "search_query", new_text(query));
    let mut body = new_object();
    set_member(&mut body, "browse_key", new_text(""));
    set_member(&mut body, "input", input);
    set_member(&mut body, "offset", new_uint(0));
    set_member(&mut body, "limit", new_uint(20));
    Request { url: build_url(config, "/api/browse"), body: write_value(&body) }
}

/// The action that plays an entry of a type.
pub open spec fn action_for(kind: Seq<char>) -> Seq<char> {
    if kind == "album"@ {
        "play_album"@
    } else if kind == "artist"@ {
        "play_artist"@
    } else if kind == "playlist"@ {
        "play_playlist"@
    } else {
        "play_tracks"@
    }
}

/// What is asked of the queue.
pub open spec fn queue_body(kind: Seq<char>, key: Seq<char>) -> JsonVal {
    JsonVal::Obj(
        Map::<Seq<char>, JsonVal>::empty().insert("action"@, JsonVal::Str(action_for(kind))).insert(
            "item_key"@,
            JsonVal::Str(key),
        ).insert("offset"@, JsonVal::Uint(0)),
    )
}

/// The request that plays an entry.
pub fn queue_request(config: &RoonConfig, kind: &str, key: &str) -> (r: Request)
    ensures
        r@ == (server_url(*config, "/api/queue_and_play"@), rendered(queue_body(kind@, key@))),
{
    let action = if same_text(kind, "album") {
        "play_album"
    } else if same_text(kind, "artist") {
        "play_artist"
    } else if same_text(kind, "playlist") {
        "play_playlist"
    } else {
        "play_tracks"
    };
    let mut body = new_object();
    set_member(&mut body, "action", new_text(action));
    set_member(&mut body, "item_key", new_text(key));
    set_member(&mut body, "offset", new_uint(0));
    Request { url: build_url(config, "/api/queue_and_play"), body: write_value(&body) }
}

/// The request for what is playing where.
pub fn zones_request(config: &RoonConfig) -> (r: Request)
    ensures
        r@ == (server_url(*config, "/api/zones"@), "{}"@),
{
    Request { url: build_url(config, "/api/zones"), body: "{}".to_owned() }
}

/// The quality of what plays in the first zone.
pub open spec fn quality_in(v: JsonVal) -> Seq<char> {
    v.member("zones"@).first().member("now_playing"@).member("quality"@).text_or("unknown"@)
}

/// The quality of what plays, given what the answer reads as.
pub open spec fn quality_of(p: Result<JsonVal, Seq<char>>) -> Seq<char> {
    match p {
        Ok(v) => quality_in(v),
        Err(_) => "unknown"@,
    }
}

/// The quality of what plays in the first zone.
pub fn zone_quality(v: &Json) -> (r: String)
    ensures
        r@ == quality_in(v@),
{
    v.get("zones").first().get("now_playing").get("quality").text_or("unknown")
}

/// The quality of what plays in the first zone.
pub fn extract_quality_from_zones(body: &str) -> (r: String)
    ensures
        r@ == quality_of(parsed(body@)),
{
    match Json::parse(body) {
        Ok(v) => zone_quality(&v),
        Err(_) => "unknown".to_owned(),
    }
}

/// A type of entry that can be played.
pub open spec fn playable(kind: Seq<char>) -> bool {
    kind == "track"@ || kind == "album"@ || kind == "artist"@ || kind == "playlist"@
}

/// The entry that an item of the library is. An item of another type is none.
pub open spec fn item_entry(item: JsonVal, config: RoonConfig) -> Option<ListingView> {
    let kind = item.member("item_type"@).text_or(""@);
    let title = item.member("title"@).text_or("Unknown"@);
    let subtitle = item.member("subtitle"@).text();
    if playable(kind) {
        Some(
            ListingView {
                id: entry_id_of(kind, item.member("item_key"@).text_or(""@)),
                title: match subtitle {
                    Some(s) => title + " — "@ + s,
                    None => title,
                },
                year: None,
                genre: item.member("genre"@).text(),
                rating: None,
                description: subtitle,
                poster_url: match item.member("image_key"@).text() {
                    Some(k) => Some(server_url(config, "/api/image/"@) + k),
                    None => None,
                },
                imdb_id: None,
                duration: None,
            },
        )
    } else {
        None
    }
}

/// `item_entry` on a server.
pub open spec fn entry_maker(config: RoonConfig) -> spec_fn(JsonVal) -> Option<ListingView> {
    |item: JsonVal| item_entry(item, config)
}

/// The entries in the answer to a search.
pub open spec fn entries_of(v: JsonVal, config: RoonConfig) -> Seq<ListingView> {
    collect_some(v.member("items"@).items(), entry_maker(config))
}

/// The entries in the answer to a search, given what it reads as. What is not
/// JSON has none.
pub open spec fn results_of(p: Result<JsonVal, Seq<char>>, config: RoonConfig) -> Seq<ListingView> {
    match p {
        Ok(v) => entries_of(v, config),
        Err(_) => seq![],
    }
}

/// The entry that an item of the library is.
fn parse_item(item: &Json, config: &RoonConfig) -> (r: Option<Listing>)
    ensures
        match r {
            Some(e) => item_entry(item@, *config) == Some(e@),
            None => item_entry(item@, *config) is None,
        },
{
    let kind = item.get("item_type").text_or("");
    let k = kind.as_str();
    if !(same_text(k, "track") || same_text(k, "album") || same_text(k, "artist") || same_text(
        k,
        "playlist",
    )) {
        return None;
    }
    let title = item.get("title").text_or("Unknown");
    let subtitle = item.get("subtitle").text();
    let display = match &subtitle {
        Some(s) => cat3(title.as_str(), " — ", s.as_str()),
        None => title,
    };
    let key = item.get("item_key").text_or("");
    let poster_url = match item.get("image_key").text() {
        Some(i) => Some(cat(build_url(config, "/api/image/").as_str(), i.as_str())),
        None => None,
    };
    let e = Listing {
        id: cat4("roon:", k, ":", key.as_str()),
        title: display,
        year: None,
        genre: item.get("genre").text(),
        rating: None,
        description: subtitle,
        poster_url,
        imdb_id: None,
        duration: None,
    };
    assert(e@ =~= item_entry(item@, *config)->0);
    Some(e)
}

/// The entries in the answer to a search.
pub fn browse_entries(v: &Json, config: &RoonConfig) -> (r: Vec<Listing>)
    ensures
        views(r@) == entries_of(v@, *config),
{
    let mut items: Vec<Listing> = Vec::new();
    let ghost vals = v@.member("items"@).items();
    let ghost f = entry_maker(*config);
    if let Some(found) = v.get("items").as_array() {
        assert(item_vals(found@) == vals);
        for i in 0..found.len()
            invariant
                item_vals(found@) == vals,
                f == entry_maker(*config),
                views(items@) == collect_some(vals.take(i as int), f),
        {
            proof {
                lemma_collect_step(vals, f, i as int);
                assert(vals[i as int] == found@[i as int]@);
            }
            let ghost before = views(items@);
            if let Some(e) = parse_item(&found[i], config) {
                items.push(e);
                assert(views(items@) =~= before.push(e@));
            }
        }
        assert(vals.take(vals.len() as int) =~= vals);
    } else {
        assert(views(items@) =~= collect_some(vals, f));
    }
    items
}

/// The entries in the answer to a search.
pub fn parse_browse_results(body: &str, config: &RoonConfig) -> (r: Vec<Listing>)
    ensures
        views(r@) == results_of(parsed(body@), *config),
{
    match Json::parse(body) {
        Ok(v) => browse_entries(&v, config),
        Err(_) => {
            let items: Vec<Listing> = Vec::new();
            assert(views(items@) =~= seq![]);
            items
        },
    }
}

/// What a search lists can be resolved: its id gives back the type and the
/// key of the item.
pub proof fn listed_items_resolve(item: JsonVal, config: RoonConfig)
    requires
        item_entry(item, config) is Some,
    ensures
        id_parts(item_entry(item, config)->0.id) == Some(
            (item.member("item_type"@).text_or(""@), item.member("item_key"@).text_or(""@)),
        ),
{
    let kind = item.member("item_type"@).text_or(""@);
    reveal_strlit("track");
    reveal_strlit("album");
    reveal_strlit("artist");
    reveal_strlit("playlist");
    reveal_with_fuel(crate::text::find::find_char_from, 9);
    assert(find_char(kind, ':') is None);
    entry_id_round_trips(kind, item.member("item_key"@).text_or(""@));
}

impl Roon {
    /// The provider's name.
    pub fn name(&self) -> (r: &str)
        ensures
            r@ == "roon"@,
    {
        "roon"
    }

    /// The provider's version.
    pub fn version(&self) -> (r: &str)
        ensures
            r@ == "0.2.0"@,
    {
        "0.2.0"
    }

    /// What the provider is for.
    pub fn plugin_type(&self) -> (r: PluginType)
        ensures
            r == PluginType::Provider,
    {
        PluginType::Provider
    }

    /// The answer of a verb without a configuration.
    pub fn not_configured<T>(&self, message: &str) -> (r: PluginResult<T>)
        ensures
            r matches PluginResult::Failure(e) && e@ == ("not_configured"@, message@),
    {
        PluginResult::err("not_configured", message)
    }

    /// Begins a search: the request to make, or nothing for an empty query.
    pub fn search(&self, config: &RoonConfig, query: &str) -> (r: Option<Request>)
        ensures
            match r {
                Some(q) => trim(query@).len() > 0 && q@ == (
                    server_url(*config, "/api/browse"@),
                    rendered(browse_body(trim(query@))),
                ),
                None => trim(query@).len() == 0,
            },
    {
        let q = trim_text(query);
        if q.as_str().is_empty() {
            return None;
        }
        Some(browse_request(config, q.as_str()))
    }

    /// Ends a search: the items in the answer. A request that failed counts
    /// as one that found nothing.
    pub fn search_reply(&self, config: &RoonConfig, reply: Option<Result<String, String>>) -> (r:
        ListingAnswer)
        ensures
            r@ == match reply {
                Some(Ok(b)) => listed(results_of(parsed(b@), *config)),
                _ => listed(seq![]),
            },
    {
        match reply {
            Some(Ok(b)) => list(parse_browse_results(b.as_str(), config)),
            _ => {
                let items: Vec<Listing> = Vec::new();
                assert(views(items@) =~= seq![]);
                list(items)
            },
        }
    }

    /// Begins a request to resolve: the request that plays the entry, or the
    /// error where it names none.
    pub fn resolve(&self, config: &RoonConfig, entry_id: &str) -> (r: Result<Request, ResolveAnswer>)
        ensures
            match r {
                Ok(q) => id_parts(trim(entry_id@)) matches Some((t, k)) && q@ == (
                    server_url(*config, "/api/queue_and_play"@),
                    rendered(queue_body(t, k)),
                ),
                Err(a) => id_parts(trim(entry_id@)) is None && a@ == Err::<
                    ResolveView,
                    (Seq<char>, Seq<char>),
                >(
                    (
                        "resolve_failed"@,
                        if trim(entry_id@).len() == 0 {
                            "empty entry_id"@
                        } else {
                            "invalid Roon ID format"@
                        },
                    ),
                ),
            },
    {
        let id = trim_text(entry_id);
        if id.as_str().is_empty() {
            proof {
                reveal_strlit("roon:");
            }
            return Err(PluginResult::err("resolve_failed", "empty entry_id"));
        }
        match parse_roon_id(id.as_str()) {
            Some((kind, key)) => Ok(queue_request(config, kind.as_str(), key.as_str())),
            None => Err(PluginResult::err("resolve_failed", "invalid Roon ID format")),
        }
    }

    /// Ends a request to resolve, given how the request to play went and what
    /// is playing where, as far as it could be had.
    pub fn resolve_reply(
        &self,
        config: &RoonConfig,
        played: Result<String, String>,
        zones: Option<String>,
    ) -> (r: ResolveAnswer)
        ensures
            r@ == match played {
                Err(e) => Err(("resolve_failed"@, e@)),
                Ok(_) => resolved(
                    "roon://"@ + config.server@ + ":"@ + decimal(9330),
                    Some(
                        quality_of(
                            parsed(
                                match zones {
                                    Some(z) => z@,
                                    None => seq![],
                                },
                            ),
                        ),
                    ),
                ),
            },
    {
        match played {
            Ok(_) => {
                let body = match zones {
                    Some(z) => z,
                    None => String::new(),
                };
                let quality = extract_quality_from_zones(body.as_str());
                resolve_to(
                    cat4(
                        "roon://",
                        config.server.as_str(),
                        ":",
                        decimal_text(ROON_DISCOVERY_PORT as u64).as_str(),
                    ),
                    Some(quality),
                )
            },
            Err(e) => PluginResult::err("resolve_failed", e.as_str()),
        }
    }
}

/// Of an item the kind is listed that can be played, tracks, albums, artists
/// and playlists, and nothing else. It is listed under its kind and key, and
/// tells title, subtitle, genre and picture of the item.
pub proof fn entries_tell_what_items_tell(item: JsonVal, config: RoonConfig)
    ensures
        entry_maker(config)(item) == item_entry(item, config),
        ({
            let kind = item.member("item_type"@).text_or(""@);
            let key = item.member("item_key"@).text_or(""@);
            let title = item.member("title"@).text_or("Unknown"@);
            &&& item_entry(item, config) is Some <==> kind == "track"@ || kind == "album"@ || kind
                == "artist"@ || kind == "playlist"@
            &&& item_entry(item, config) matches Some(e) ==> {
                &&& e.id == "roon:"@ + kind + ":"@ + key
                &&& item.member("subtitle"@).text() matches Some(s) ==> e.title == title + " — "@
                    + s && e.description == Some(s)
                &&& item.member("subtitle"@).text() is None ==> e.title == title
                    && e.description is None
                &&& e.genre == item.member("genre"@).text()
                &&& item.member("image_key"@).text() matches Some(k) ==> e.poster_url == Some(
                    "http://"@ + config.server@ + ":"@ + decimal(config.port as nat)
                        + "/api/image/"@ + k,
                )
                &&& item.member("image_key"@).text() is None ==> e.poster_url is None
                &&& e.year is None && e.rating is None && e.imdb_id is None && e.duration is None
            }
        }),
{
}

/// Every item of the answer whose kind can be played is listed, in the order
/// in which they came, and no other is. An answer that cannot be read lists
/// nothing.
pub proof fn exactly_playable_items_are_listed(v: JsonVal, config: RoonConfig, e: Seq<char>)
    ensures
        results_of(Err(e), config).len() == 0,
        ({
            let items = v.member("items"@).items();
            let entries = results_of(Ok(v), config);
            &&& picks(items, entry_maker(config), entries)
            &&& forall|i: int|
                0 <= i < items.len() ==> {
                    let kind = (#[trigger] items[i]).member("item_type"@).text_or(""@);
                    kind == "track"@ || kind == "album"@ || kind == "artist"@ || kind
                        == "playlist"@ ==> exists|k: int|
                        0 <= k < entries.len() && (#[trigger] entries[k]).id == "roon:"@ + kind
                            + ":"@ + items[i].member("item_key"@).text_or(""@)
                }
            &&& forall|k: int|
                0 <= k < entries.len() ==> exists|i: int|
                    0 <= i < items.len() && Some(#[trigger] entries[k]) == item_entry(
                        #[trigger] items[i],
                        config,
                    )
        }),
{
    let items = v.member("items"@).items();
    let f = entry_maker(config);
    let entries = results_of(Ok(v), config);
    collected_is_picked(items, f);
    let at = choose|at: Seq<int>| leads(items, f, entries, at);
    assert forall|i: int| 0 <= i < items.len() implies {
        let kind = (#[trigger] items[i]).member("item_type"@).text_or(""@);
        kind == "track"@ || kind == "album"@ || kind == "artist"@ || kind == "playlist"@
            ==> exists|k: int|
            0 <= k < entries.len() && (#[trigger] entries[k]).id == "roon:"@ + kind + ":"@
                + items[i].member("item_key"@).text_or(""@)
    } by {
        entries_tell_what_items_tell(items[i], config);
        if f(items[i]) is Some {
            let k = choose|k: int| 0 <= k < at.len() && at[k] == i;
            assert(f(items[at[k]]) == Some(entries[k]));
        }
    }
    assert forall|k: int| 0 <= k < entries.len() implies exists|i: int|
        0 <= i < items.len() && Some(#[trigger] entries[k]) == item_entry(
            #[trigger] items[i],
            config,
        ) by {
        assert(f(items[at[k]]) == Some(entries[k]));
        entries_tell_what_items_tell(items[at[k]], config);
    }
}

/// The server is asked at its address and port.
pub proof fn requests_go_to_the_server(config: RoonConfig, path: Seq<char>)
    ensures
        server_url(config, path) == "http://"@ + config.server@ + ":"@ + decimal(
            config.port as nat,
        ) + path,
{
}

/// A search asks for the first twenty tracks of the library that the query
/// finds.
pub proof fn searches_ask_for_tracks(query: Seq<char>)
    ensures
        browse_body(query).member("browse_key"@) == JsonVal::Str(""@),
        browse_body(query).member("input"@).member("search_type"@) == JsonVal::Str(
            "library_tracks"@,
        ),
        browse_body(query).member("input"@).member("search_query"@) == JsonVal::Str(query),
        browse_body(query).member("offset"@) == JsonVal::Uint(0),
        browse_body(query).member("limit"@) == JsonVal::Uint(20),
{
    reveal_strlit("browse_key");
    reveal_strlit("input");
    reveal_strlit("offset");
    reveal_strlit("limit");
    reveal_strlit("search_type");
    reveal_strlit("search_query");
    assert("browse_key"@.len() == 10 && "input"@.len() == 5 && "offset"@.len() == 6
        && "limit"@.len() == 5 && "search_type"@.len() == 11 && "search_query"@.len() == 12);
    assert("input"@[0] == 'i' && "limit"@[0] == 'l');
}

/// What is queued is the item of the key, from its beginning, and with the
/// action of its kind: each kind has its own, and anything else is played as
/// tracks are.
pub proof fn items_are_queued_by_kind(kind: Seq<char>, key: Seq<char>)
    ensures
        queue_body(kind, key).member("item_key"@) == JsonVal::Str(key),
        queue_body(kind, key).member("offset"@) == JsonVal::Uint(0),
        kind == "album"@ ==> queue_body(kind, key).member("action"@) == JsonVal::Str(
            "play_album"@,
        ),
        kind == "artist"@ ==> queue_body(kind, key).member("action"@) == JsonVal::Str(
            "play_artist"@,
        ),
        kind == "playlist"@ ==> queue_body(kind, key).member("action"@) == JsonVal::Str(
            "play_playlist"@,
        ),
        kind != "album"@ && kind != "artist"@ && kind != "playlist"@ ==> queue_body(
            kind,
            key,
        ).member("action"@) == JsonVal::Str("play_tracks"@),
{
    reveal_strlit("action");
    reveal_strlit("item_key");
    reveal_strlit("offset");
    reveal_strlit("album");
    reveal_strlit("artist");
    reveal_strlit("playlist");
    assert("action"@.len() == 6 && "item_key"@.len() == 8 && "offset"@.len() == 6);
    assert("action"@[0] == 'a' && "offset"@[0] == 'o');
    assert("album"@.len() == 5 && "artist"@.len() == 6 && "playlist"@.len() == 8);
}

/// The quality is the one of what plays in the first zone, and unknown where
/// none is told or the answer cannot be read.
pub proof fn quality_is_told_by_the_first_zone(v: JsonVal, e: Seq<char>)
    ensures
        quality_of(Ok(v)) == v.member("zones"@).first().member("now_playing"@).member(
            "quality"@,
        ).text_or("unknown"@),
        quality_of(Err(e)) == "unknown"@,
{
}

/// The settings are written with the port of the server.
pub proof fn settings_are_written_in_full(server: Seq<char>, core_id: Seq<char>, token: Seq<char>)
    ensures
        config_text(server, core_id, token) == "{\"server\":"@ + quoted(server)
            + ",\"core_id\":"@ + quoted(core_id) + ",\"token\":"@ + quoted(token)
            + ",\"port\":9330}"@,
{
}

/// An id gives kind and key back, and what is no such id gives nothing.
pub proof fn ids_give_kind_and_key_back(kind: Seq<char>, key: Seq<char>, other: Seq<char>)
    requires
        find_char(kind, ':') is None,
        !begins(other, "roon:"@),
    ensures
        id_parts("roon:"@ + kind + ":"@ + key) == Some((kind, key)),
        id_parts(other) is None,
        id_parts("roon:"@ + kind) is None,
{
    reveal_strlit("roon:");
    reveal_strlit(":");
    let s = "roon:"@ + kind + ":"@ + key;
    let rest = kind + ":"@ + key;
    assert(s.skip(5) =~= rest);
    assert(s.subrange(0, 5) =~= "roon:"@);
    lemma_find_char(kind, ':');
    lemma_find_char(rest, ':');
    assert(rest[kind.len() as int] == ':');
    let p = find_char(rest, ':').unwrap();
    if p < kind.len() {
        assert(kind[p] == ':');
    }
    assert(rest.take(p) =~= kind);
    assert(rest.skip(p + 1) =~= key);
    let t = "roon:"@ + kind;
    assert(t.skip(5) =~= kind);
}

/// What is seen of a request is its address and its body.
pub proof fn requests_are_seen_in_full(r: Request)
    ensures
        r@ == (r.url@, r.body@),
{
}

} // verus!
