use sha2::Digest;
use stui_plugins::providers::{oauth, qobuz, roon, soundcloud, spotify, tidal};
use stui_plugins::text::table::Table;

#[test]
fn test_urlencoding() {
    assert_eq!(qobuz::urlencoding("test"), "test");
    assert_eq!(qobuz::urlencoding("test user"), "test%20user");
    assert_eq!(qobuz::urlencoding("test@example.com"), "test%40example.com");
}

#[test]
fn lib_test_urlencoding() {
    assert_eq!(stui_plugins::text::percent::url_encode("test"), "test");
    assert_eq!(stui_plugins::text::percent::url_encode("test user"), "test%20user");
}

#[test]
fn test_format_duration() {
    assert_eq!(qobuz::format_duration(0), "0:00");
    assert_eq!(qobuz::format_duration(30), "0:30");
    assert_eq!(qobuz::format_duration(90), "1:30");
    assert_eq!(qobuz::format_duration(3661), "61:01");
}

#[test]
fn lib_test_format_duration() {
    assert_eq!(soundcloud::format_duration(0), "0:00");
    assert_eq!(soundcloud::format_duration(30), "0:30");
    assert_eq!(soundcloud::format_duration(90), "1:30");
    assert_eq!(soundcloud::format_duration(3661), "61:01");
}

#[test]
fn tidal_test_format_duration() {
    assert_eq!(tidal::format_duration(0), "0:00");
    assert_eq!(tidal::format_duration(30), "0:30");
    assert_eq!(tidal::format_duration(90), "1:30");
}

#[test]
fn test_compute_request_sig() {
    let sig = qobuz::compute_request_sig(
        "file/url",
        &[
            ("track_id", "12345"),
            ("format_id", "27"),
            ("intent", "stream"),
        ],
        1700000000,
        "secret123",
    );
    let expected_input = "file/urlformat_id27intentstreamtrack_id123451700000000secret123";
    let expected = format!("{:x}", md5::compute(expected_input.as_bytes()));
    assert_eq!(sig, expected);
}

#[test]
fn test_parse_search_results_skips_zero_id() {
    let body =
        r#"{"tracks":{"items":[{"id":0,"title":"Bad","duration":0}]},"albums":{"items":[]}}"#;
    let items = qobuz::parse_search_results(body);
    assert!(items.is_empty());
}

#[test]
fn lib_test_parse_search_results_skips_zero_id() {
    // A track with id=0 (missing/invalid) must not appear in results.
    let body = r#"{"tracks":{"items":[{"id":0,"title":"Bad","artist":{"name":""},"album":{"title":""},"duration":0}]}}"#;
    let items = tidal::parse_search_results(body);
    assert!(items.is_empty());
}

#[test]
fn test_parse_track_url_url_key() {
    let body = r#"{"url":"https://cdn.qobuz.com/track.flac","mime_type":"audio/flac"}"#;
    assert_eq!(
        qobuz::parse_track_url(body),
        Some("https://cdn.qobuz.com/track.flac".to_string())
    );
}

#[test]
fn test_parse_track_url_file_url_fallback() {
    let body = r#"{"file_url":"https://cdn.qobuz.com/track.flac"}"#;
    assert_eq!(
        qobuz::parse_track_url(body),
        Some("https://cdn.qobuz.com/track.flac".to_string())
    );
}

#[test]
fn test_parse_roon_id() {
    let pair = |a: &str, b: &str| Some((a.to_string(), b.to_string()));
    assert_eq!(roon::parse_roon_id("roon:track:123"), pair("track", "123"));
    assert_eq!(roon::parse_roon_id("roon:album:456"), pair("album", "456"));
    assert_eq!(roon::parse_roon_id("roon:artist:789"), pair("artist", "789"));
    assert_eq!(roon::parse_roon_id("invalid"), None);
    assert_eq!(roon::parse_roon_id("roon:track"), None);
}

#[test]
fn test_parse_ytdlp_resolve_with_url() {
    let json = r#"{"url":"https://example.com/stream.mp3","title":"Test"}"#;
    let result = soundcloud::parse_ytdlp_resolve(json);
    assert!(result.is_some());
    assert_eq!(result.unwrap(), "https://example.com/stream.mp3");
}

#[test]
fn test_parse_ytdlp_resolve_fallback() {
    let json = r#"{"webpage_url":"https://soundcloud.com/artist/track"}"#;
    let result = soundcloud::parse_ytdlp_resolve(json);
    assert!(result.is_some());
}

#[test]
fn test_extract_spotify_track_id() {
    assert_eq!(
        spotify::extract_spotify_track_id("https://open.spotify.com/track/4cOdK2wGLETKBW3PvgPWqT"),
        Some("4cOdK2wGLETKBW3PvgPWqT".to_string())
    );
}

#[test]
fn test_extract_spotify_track_id_with_query() {
    // What stands behind the id is left off.
    assert_eq!(
        spotify::extract_spotify_track_id(
            "https://open.spotify.com/track/4cOdK2wGLETKBW3PvgPWqT?si=abc"
        ),
        Some("4cOdK2wGLETKBW3PvgPWqT".to_string())
    );
}

#[test]
fn test_format_duration_ms() {
    assert_eq!(spotify::format_duration_ms(0), "0:00");
    assert_eq!(spotify::format_duration_ms(30000), "0:30");
    assert_eq!(spotify::format_duration_ms(180000), "3:00");
    assert_eq!(spotify::format_duration_ms(214000), "3:34");
}

#[test]
fn test_build_cached_token_uses_existing_refresh_when_none_returned() {
    let tr = spotify::TokenResponse {
        access_token: "new_access".to_string(),
        refresh_token: None,
        expires_in: 3600,
    };
    let cached = spotify::build_cached_token(tr, Some("old_refresh"), 1000).unwrap();
    assert_eq!(cached.access_token, "new_access");
    assert_eq!(cached.refresh_token, "old_refresh");
    assert_eq!(cached.expires_at, 4540);
}

#[test]
fn test_build_cached_token_fails_without_any_refresh_token() {
    let tr = spotify::TokenResponse {
        access_token: "new_access".to_string(),
        refresh_token: None,
        expires_in: 3600,
    };
    assert!(spotify::build_cached_token(tr, None, 1000).is_err());
}

#[test]
fn test_redirect_uri_uses_http_not_https() {
    let url = spotify::build_auth_url(&Table::new(), 8888, "challenge_abc");
    assert!(
        url.contains("http://127.0.0.1:8888/login"),
        "redirect_uri must use http:// for Spotify localhost OAuth"
    );
    assert!(
        !url.contains("https://127.0.0.1"),
        "https:// on localhost is rejected by Spotify"
    );
}

#[test]
fn test_parse_stream_url_url_key() {
    let body = r#"{"url":"https://example.com/stream.flac","mimeType":"audio/flac"}"#;
    assert_eq!(
        tidal::parse_stream_url(body),
        Some("https://example.com/stream.flac".to_string())
    );
}

#[test]
fn test_parse_stream_url_fallback_key() {
    let body = r#"{"streamUrl":"https://example.com/stream.flac"}"#;
    assert_eq!(
        tidal::parse_stream_url(body),
        Some("https://example.com/stream.flac".to_string())
    );
}

use stui_plugins::pkce::{base64_url_encode, generate_pkce, pkce_from};
use stui_plugins::providers::common::{Reply, ResolveAnswer, Step};
use stui_plugins::providers::listing::{Listing, ListingAnswer};
use stui_plugins::providers::oauth::{authorized_payload, expires_at, CachedToken, TokenStep};
use stui_plugins::providers::rating_weights::RatingWeightsPlugin;
use stui_plugins::providers::rym;
use stui_plugins::sdk::kinds::{EntryKind, SearchScope};
use stui_plugins::sdk::manifest::{PluginManifest, PluginMeta};
use stui_plugins::sdk::plugin::{Plugin, PluginType};
use stui_plugins::sdk::result::PluginResult;
use stui_plugins::sdk::types::SearchRequest;

fn own(s: &str) -> Option<String> {
    Some(s.to_string())
}

fn listed(a: ListingAnswer) -> Vec<Listing> {
    match a {
        PluginResult::Success(r) => {
            assert_eq!(r.total as usize, r.items.len());
            r.items
        }
        PluginResult::Failure(e) => panic!("{}: {}", e.code, e.message),
    }
}

fn played(a: ResolveAnswer) -> (String, Option<String>) {
    match a {
        PluginResult::Success(r) => (r.stream_url, r.quality),
        PluginResult::Failure(e) => panic!("{}: {}", e.code, e.message),
    }
}

fn failure<T>(a: PluginResult<T>) -> (String, String) {
    match a {
        PluginResult::Failure(e) => (e.code, e.message),
        PluginResult::Success(_) => panic!("expected a failure"),
    }
}

fn failed(code: &str, message: &str) -> (String, String) {
    (code.to_string(), message.to_string())
}

fn value(text: &str) -> serde_json::Value {
    serde_json::from_str(text).unwrap()
}

fn manifest(name: &str) -> PluginManifest {
    PluginManifest {
        plugin: PluginMeta {
            name: name.to_string(),
        },
    }
}

// Signing in

#[test]
fn base64_for_urls_has_no_padding() {
    assert_eq!(base64_url_encode(vec![]), "");
    assert_eq!(base64_url_encode(b"f".to_vec()), "Zg");
    assert_eq!(base64_url_encode(b"fo".to_vec()), "Zm8");
    assert_eq!(base64_url_encode(b"foo".to_vec()), "Zm9v");
    assert_eq!(base64_url_encode(vec![0xfb, 0xff, 0xfe]), "-__-");
}

#[test]
fn challenges_are_digests_of_verifiers() {
    // The example of RFC 7636, appendix B.
    let bytes: Vec<u8> = vec![
        116, 24, 223, 180, 151, 153, 224, 37, 79, 250, 96, 125, 216, 173, 187, 186, 22, 212, 37,
        77, 105, 214, 191, 240, 91, 88, 5, 88, 83, 132, 141, 121,
    ];
    let (verifier, challenge) = pkce_from(bytes);
    assert_eq!(verifier, "dBjftJeZ4CVP-mB92K27uhbUJU1p1r_wW1gFWFOEjXk");
    assert_eq!(challenge, "E9Melhoa2OwvFrEMTJguCHaoeK1t8URWbuGJSstw-cM");
    let (verifier, challenge) = generate_pkce().unwrap();
    assert_eq!((verifier.len(), challenge.len()), (43, 43));
    assert_ne!(verifier, challenge);
    assert_ne!(generate_pkce().unwrap().0, verifier);
}

#[test]
fn tokens_expire_a_minute_early() {
    assert_eq!(expires_at(1000, 3600), 4540);
    assert_eq!(expires_at(1000, 60), 1000);
    assert_eq!(expires_at(1000, 59), 1000);
    let token = || CachedToken {
        access_token: "a".to_string(),
        refresh_token: "r".to_string(),
        expires_at: 10,
    };
    assert!(matches!(spotify::ensure_authenticated(Some(token()), 9), TokenStep::Use(t) if t == "a"));
    assert!(matches!(spotify::ensure_authenticated(Some(token()), 10), TokenStep::Refresh(t) if t == "r"));
    assert!(matches!(spotify::ensure_authenticated(None, 10), TokenStep::SignIn));
    assert!(matches!(tidal::ensure_authenticated(Some(token()), Some(9)), Ok(TokenStep::Use(_))));
    assert!(matches!(tidal::ensure_authenticated(None, None), Ok(TokenStep::SignIn)));
    assert!(matches!(tidal::ensure_authenticated(Some(token()), None), Err(m) if m == "clock unavailable"));
    // A token that could not be refreshed leads to a sign-in.
    assert!(matches!(oauth::after_refresh(Ok(token())), oauth::RefreshStep::Keep(t) if t.access_token == "a"));
    assert!(
        matches!(oauth::after_refresh(Err("no".to_string())), oauth::RefreshStep::SignIn(e) if e == "no")
    );
}

#[test]
fn requests_carry_tokens() {
    assert_eq!(
        authorized_payload("u\"", "t", None),
        r#"{"__stui_headers":{"Authorization":"Bearer t"},"body":"","url":"u\""}"#
    );
    let v = value(&tidal::get_with_token("u", "t"));
    assert_eq!(v["__stui_headers"]["X-Tidal-Token"], "CzET4vdadNUFQ5JU");
    assert_eq!(v["__stui_headers"]["Authorization"], "Bearer t");
    assert_eq!(v["url"], "u");
    assert_eq!(spotify::get_with_token("u", "t"), authorized_payload("u", "t", None));
}

// Tidal

#[test]
fn tidal_signs_in() {
    assert_eq!(
        tidal::build_auth_url(8080, "ch"),
        "https://listen.tidal.com/login/auth?appMode=WEB&client_id=CzET4vdadNUFQ5JU&code_challenge=ch&code_challenge_method=S256&lang=en&redirect_uri=https://127.0.0.1:8080/login&response_type=code&restrictSignup=true&scope=r_usr w_usr&autoredirect=true"
    );
    assert_eq!(
        tidal::exchange_form("c", "v", 8080),
        "client_id=CzET4vdadNUFQ5JU&code=c&code_verifier=v&grant_type=authorization_code&redirect_uri=https://127.0.0.1:8080/login"
    );
    assert_eq!(
        tidal::refresh_form("a b"),
        "client_id=CzET4vdadNUFQ5JU&refresh_token=a%20b&grant_type=refresh_token"
    );
    let t = tidal::build_cached_token(
        tidal::TokenResponse {
            access_token: "a".to_string(),
            refresh_token: "r".to_string(),
            expires_in: 100,
            token_type: "Bearer".to_string(),
        },
        5,
    );
    assert_eq!((t.access_token.as_str(), t.refresh_token.as_str(), t.expires_at), ("a", "r", 45));
    let http: Reply<u8> = Reply::HttpError("e".to_string());
    assert_eq!(oauth::exchange_code(http), Err("token exchange failed: e".to_string()));
    let parse: Reply<u8> = Reply::ParseError("e".to_string());
    assert_eq!(oauth::exchange_code(parse), Err("parse token response: e".to_string()));
    let http: Reply<u8> = Reply::HttpError("e".to_string());
    assert_eq!(oauth::refresh_access_token(http), Err("token refresh failed: e".to_string()));
    let parse: Reply<u8> = Reply::ParseError("e".to_string());
    assert_eq!(oauth::refresh_access_token(parse), Err("parse refresh response: e".to_string()));
    assert_eq!(oauth::refresh_access_token(Reply::Parsed(7u8)), Ok(7));
}

#[test]
fn tidal_searches_and_resolves() {
    let p = tidal::Tidal;
    assert_eq!((p.name(), p.version()), ("tidal", "0.1.0"));
    assert!(matches!(p.plugin_type(), PluginType::Provider));
    let mut cache = Table::new();
    assert_eq!(p.search(&cache, "  "), None);
    assert_eq!(
        p.search(&cache, " a b "),
        own("https://api.tidal.com/v1/search?limit=20&countryCode=US&query=a%20b")
    );
    cache.insert("__config:country", "DE".to_string());
    assert_eq!(
        p.resolve(&cache, " 12 ").unwrap(),
        "https://api.tidal.com/v1/tracks/12/streamUrl?soundQuality=LOSSLESS&countryCode=DE"
    );
    assert_eq!(failure(p.resolve(&cache, " ").unwrap_err()), failed("resolve_failed", "empty entry_id"));
    assert_eq!(failure(p.resolve(&cache, "x").unwrap_err()), failed("resolve_failed", "invalid track id"));
    let body = r#"{"tracks":{"items":[
        {"id":5,"title":"T","artist":{"name":"A"},"album":{"title":"L","coverUrl":"c","releaseDate":"1999-01-02"},"duration":61},
        {"id":6,"album":{"cover":{"large":"d"},"releaseDate":"x-1"}},
        {"id":-7,"title":"no"},
        {"id":8,"title":"U","album":{"releaseDate":"0020"}}]}}"#;
    let items = listed(p.search_reply(Some(Ok(body.to_string()))));
    assert_eq!(items.len(), 3);
    assert_eq!((items[0].id.as_str(), items[0].title.as_str()), ("5", "T — A"));
    assert_eq!(items[0].year, own("1999"));
    assert_eq!(items[0].description, own("L"));
    assert_eq!(items[0].poster_url, own("c"));
    assert_eq!(items[0].duration, own("1:01"));
    assert_eq!((items[1].title.as_str(), items[1].year.clone()), ("Unknown", None));
    assert_eq!((items[1].poster_url.clone(), items[1].duration.clone()), (own("d"), own("0:00")));
    assert_eq!(items[2].year, own("20"));
    assert!(listed(p.search_reply(None)).is_empty());
    assert!(listed(p.search_reply(Some(Ok("bad".to_string())))).is_empty());
    assert_eq!(failure(p.search_reply(Some(Err("e".to_string())))), failed("search_failed", "e"));
    assert_eq!(
        played(p.resolve_reply(Ok(r#"{"url":"","streamUrl":"s"}"#.to_string()))),
        ("s".to_string(), own("lossless"))
    );
    assert_eq!(
        failure(p.resolve_reply(Ok("{}".to_string()))),
        failed("resolve_failed", "no stream URL found")
    );
    assert_eq!(failure(p.resolve_reply(Err("e".to_string()))), failed("resolve_failed", "e"));
    assert_eq!(failure(p.auth_failed::<u8>("e")), failed("auth_failed", "e"));
}

// Spotify

#[test]
fn spotify_signs_in() {
    let mut cache = Table::new();
    assert_eq!(
        spotify::build_auth_url(&cache, 1, "ch"),
        "https://accounts.spotify.com/authorize?client_id=515ab11b9e0447278653f43520eea7d9&redirect_uri=http://127.0.0.1:1/login&response_type=code&scope=user-library-read%20streaming%20user-read-private&code_challenge=ch&code_challenge_method=S256"
    );
    cache.insert("client_id", "m y".to_string());
    assert_eq!(
        spotify::refresh_form(&cache, "r&"),
        "grant_type=refresh_token&refresh_token=r%26&client_id=m%20y"
    );
    assert_eq!(
        spotify::exchange_form(&cache, "c/", "v", 1),
        "grant_type=authorization_code&code=c%2F&redirect_uri=http%3A%2F%2F127.0.0.1%3A1%2Flogin&client_id=m%20y&code_verifier=v"
    );
    let tr = spotify::TokenResponse {
        access_token: "a".to_string(),
        refresh_token: own("new"),
        expires_in: 0,
    };
    let t = spotify::build_cached_token(tr, Some("old"), 7).unwrap();
    assert_eq!((t.refresh_token.as_str(), t.expires_at), ("new", 7));
    let tr = spotify::TokenResponse {
        access_token: "a".to_string(),
        refresh_token: None,
        expires_in: 0,
    };
    assert!(matches!(spotify::build_cached_token(tr, None, 7), Err(m) if m == "no refresh_token in token response"));
}

#[test]
fn spotify_searches_and_resolves() {
    let p = spotify::Spotify;
    assert_eq!((p.name(), p.version()), ("spotify", "0.1.0"));
    assert!(matches!(p.plugin_type(), PluginType::Provider));
    assert_eq!(p.search(" "), None);
    assert_eq!(
        p.search(" a b "),
        own("https://api.spotify.com/v1/search?q=a%20b&type=track&limit=20")
    );
    let body = r#"{"tracks":{"items":[
        {"id":"x","name":"N","artists":[{"name":"A"},{"name":"B"}],"album":{"name":"L","images":[{"url":"i"}]},"duration_ms":61999},
        {"id":"y","name":"M","artists":[],"album":{}},
        {"id":1,"name":"no"},{"id":"z"}]}}"#;
    let items = listed(p.search_reply(Some(Ok(body.to_string()))));
    assert_eq!(items.len(), 2);
    assert_eq!((items[0].id.as_str(), items[0].title.as_str()), ("spotify:track:x", "N — A"));
    assert_eq!(items[0].description, own("L"));
    assert_eq!(items[0].poster_url, own("i"));
    assert_eq!(items[0].duration, own("1:01"));
    assert_eq!((items[1].title.as_str(), items[1].description.clone()), ("M", None));
    assert!(listed(p.search_reply(None)).is_empty());
    assert_eq!(failure(p.search_reply(Some(Err("e".to_string())))), failed("search_failed", "e"));
    let play = |id: &str| played(p.resolve(id)).0;
    // What is listed is played as it is listed.
    assert_eq!(play(&items[0].id), "spotify:track:x");
    assert_eq!(
        play(" https://open.spotify.com/track/4cOdK2wGLETKBW3PvgPWqT?si=abc "),
        "spotify:track:4cOdK2wGLETKBW3PvgPWqT"
    );
    assert_eq!(play("https://open.spotify.com/track/short"), "https://open.spotify.com/track/short");
    assert_eq!(play("other"), "other");
    assert_eq!(played(p.resolve("other")).1, own("320k"));
    assert_eq!(failure(p.resolve(" ")), failed("resolve_failed", "empty entry_id"));
    // Letters beyond ASCII count, by their bytes.
    assert_eq!(
        spotify::extract_spotify_track_id("track/\u{e9}\u{e9}\u{e9}\u{e9}\u{e9}\u{e9}/x"),
        own("\u{e9}\u{e9}\u{e9}\u{e9}\u{e9}\u{e9}")
    );
    assert_eq!(spotify::extract_spotify_track_id("track/\u{2014}abcdefghijkl"), None);
}

// Qobuz

const KEY: &str = "AAECAwQFBgcICQoLDA0ODxAREhMUFRYXGBkaGxwdHh8=";

fn qobuz_cache() -> Table<String> {
    let mut t = Table::new();
    t.insert("qobuz_app_id", "app".to_string());
    t.insert("qobuz_app_secret", "sec".to_string());
    t.insert("qobuz_username", "u@x".to_string());
    t.insert("qobuz_encryption_secret", KEY.to_string());
    t
}

#[test]
fn passwords_are_locked_and_unlocked() {
    let key = qobuz::get_or_create_encryption_key(&mut qobuz_cache(), None, None, None);
    assert_eq!(key, (0u8..32).collect::<Vec<u8>>());
    let nonce = [7u8; 12];
    let locked = qobuz::encrypt_with(&key, &nonce, "p\u{e4}ss").unwrap();
    assert_ne!(locked, "p\u{e4}ss");
    assert!(locked.starts_with("BwcHBwcHBwcHBwcH"));
    assert_eq!(qobuz::decrypt_password(&key, &locked), Ok("p\u{e4}ss".to_string()));
    let by_chance = qobuz::encrypt_password(&key, "p").unwrap();
    assert_ne!(by_chance, qobuz::encrypt_password(&key, "p").unwrap());
    assert_eq!(qobuz::decrypt_password(&key, &by_chance), Ok("p".to_string()));
    assert_eq!(
        qobuz::decrypt_password(&[9u8; 32], &locked),
        Err("decryption failed: aead::Error".to_string())
    );
    assert_eq!(
        qobuz::decrypt_password(&key, "AAAA"),
        Err("encrypted data too short".to_string())
    );
    assert!(qobuz::decrypt_password(&key, "*").unwrap_err().starts_with("base64 decode failed: "));
}

#[test]
fn keys_are_derived_once() {
    let expected = sha2::Sha256::digest(b"stui-qobuz-h/home/u").to_vec();
    let mut cache = Table::new();
    let key = qobuz::get_or_create_encryption_key(&mut cache, None, own("h"), own("/home/u"));
    assert_eq!(key, expected);
    assert_eq!(cache.get("machine_id"), Some(&"h/home/u".to_string()));
    // The machine may be renamed: the key stays.
    assert_eq!(qobuz::get_or_create_encryption_key(&mut cache, own("x"), None, None), expected);
    cache.insert("machine_id", "other".to_string());
    assert_eq!(qobuz::get_or_create_encryption_key(&mut cache, None, None, None), expected);
    // What is kept but is no key is replaced.
    for bad in ["AAAA", "*"] {
        let mut cache = Table::new();
        cache.insert("machine_id", "h/home/u".to_string());
        cache.insert("qobuz_encryption_secret", bad.to_string());
        assert_eq!(qobuz::get_or_create_encryption_key(&mut cache, None, None, None), expected);
        assert_ne!(cache.get("qobuz_encryption_secret"), Some(&bad.to_string()));
    }
}

#[test]
fn machines_keep_their_id() {
    let mut cache = Table::new();
    assert_eq!(qobuz::get_machine_id(&mut cache, None, own("h"), own("/home/u")), "h/home/u");
    assert_eq!(qobuz::get_machine_id(&mut cache, own("other"), None, None), "h/home/u");
    assert_eq!(qobuz::get_machine_id(&mut Table::new(), own("n"), own("h"), None), "n");
    assert_eq!(qobuz::get_machine_id(&mut Table::new(), None, None, None), "default");
}

#[test]
fn plain_passwords_are_kept_locked() {
    let mut cache = qobuz_cache();
    assert_eq!(
        qobuz::get_password(&mut cache, None, None, None),
        Err("Qobuz password not set. Configure via stui settings.".to_string())
    );
    cache.insert("qobuz_password", "pw".to_string());
    assert_eq!(qobuz::get_password(&mut cache, None, None, None), Ok("pw".to_string()));
    assert!(cache.contains_key("qobuz_password_encrypted"));
    cache.insert("qobuz_password", "other".to_string());
    assert_eq!(qobuz::get_password(&mut cache, None, None, None), Ok("pw".to_string()));
    let mut bare = Table::new();
    bare.insert("qobuz_password", "pw".to_string());
    assert_eq!(qobuz::get_password(&mut bare, own("n"), None, None), Ok("pw".to_string()));
    assert!(bare.contains_key("qobuz_encryption_secret"));
    bare.insert("qobuz_password", String::new());
    assert_eq!(qobuz::get_password(&mut bare, own("other"), None, None), Ok("pw".to_string()));
    let mut empty: Table<String> = Table::new();
    assert!(qobuz::get_password(&mut empty, None, None, None).is_err());
    assert!(!empty.contains_key("machine_id"));
}

#[test]
fn qobuz_logs_in() {
    let mut cache = Table::new();
    assert_eq!(
        qobuz::begin_login(&mut cache, None, None, None).unwrap_err(),
        "Qobuz app credentials not configured. Please configure APP_ID and APP_SECRET via stui settings. Contact api@qobuz.com to obtain official credentials."
    );
    cache.insert("qobuz_app_id", "app".to_string());
    cache.insert("qobuz_app_secret", "sec".to_string());
    assert_eq!(
        qobuz::begin_login(&mut cache, None, None, None).unwrap_err(),
        "Qobuz username not set. Configure via stui settings."
    );
    let mut cache = qobuz_cache();
    cache.insert("qobuz_password", "p w".to_string());
    let login = || qobuz::begin_login(&mut cache.clone(), None, None, None).unwrap();
    assert_eq!(
        login().url,
        "https://www.qobuz.com/api.json/0.2/user/login?email=u%40x&password=p%20w&app_id=app"
    );
    let reply = |body: &str| qobuz::finish_login(login(), Ok(body.to_string()));
    let creds = reply(r#"{"user_auth_token":"tok","user":{"id":-5}}"#).unwrap();
    assert_eq!((creds.app_id.as_str(), creds.app_secret.as_str()), ("app", "sec"));
    assert_eq!((creds.user_token.as_str(), creds.user_id), ("tok", -5));
    assert_eq!(reply("{}").unwrap_err(), "missing user_auth_token in login response");
    assert_eq!(
        reply(r#"{"user_auth_token":"tok","user":{"id":"5"}}"#).unwrap_err(),
        "missing user.id in login response"
    );
    assert!(reply("bad").unwrap_err().starts_with("parse login response: "));
    assert_eq!(
        qobuz::finish_login(login(), Err("e".to_string())).unwrap_err(),
        "login failed: e"
    );
}

#[test]
fn signatures_ignore_the_order_of_parameters() {
    let a = qobuz::compute_request_sig("m", &[("b", "1"), ("a", "2")], 9, "s");
    let b = qobuz::compute_request_sig("m", &[("a", "2"), ("b", "1")], 9, "s");
    assert_eq!(a, b);
    assert_eq!(a, format!("{:x}", md5::compute("ma2b19s")));
    // Equal keys stay in their order.
    assert_eq!(
        qobuz::compute_request_sig("m", &[("k", "2"), ("k", "1"), ("\u{e9}", "0"), ("z", "3")], 9, "s"),
        format!("{:x}", md5::compute("mk2k1z3\u{e9}09s"))
    );
}

#[test]
fn qobuz_searches() {
    let p = qobuz::Qobuz;
    assert_eq!((p.name(), p.version()), ("qobuz", "0.1.0"));
    assert!(matches!(p.plugin_type(), PluginType::Provider));
    let creds = qobuz::AuthCredentials {
        app_id: "app".to_string(),
        app_secret: "sec".to_string(),
        user_token: "tok".to_string(),
        user_id: 1,
    };
    assert_eq!(p.search(" ", &creds), None);
    assert_eq!(
        p.search(" a/b ", &creds),
        own("https://www.qobuz.com/api.json/0.2/catalog/search?query=a%2Fb&limit=20&app_id=app&user_auth_token=tok")
    );
    let body = r#"{"tracks":{"items":[
        {"id":5,"title":"T","performer":{"name":"P"},"artist":{"name":"A"},"album":{"title":"L","image":{"large":"g","small":"s"}},"duration":3661,"genre":"Jazz"},
        {"id":6,"artist":{"name":"A"},"album":{"image":{"small":"s"}}}]},
        "albums":{"items":[
        {"id":7,"title":"B","artist":{"name":"C"},"release_date_original":"1999-01-01","image":{"small":"s"}},
        {"id":8,"release_date_original":"99"},{"title":"none"}]}}"#;
    let items = listed(p.search_reply(Some(Ok(body.to_string()))));
    let ids: Vec<&str> = items.iter().map(|e| e.id.as_str()).collect();
    assert_eq!(ids, vec!["5", "6", "7", "8"]);
    assert_eq!((items[0].title.as_str(), items[0].duration.clone()), ("T — P", own("61:01")));
    assert_eq!((items[0].genre.clone(), items[0].description.clone()), (own("Jazz"), own("L")));
    assert_eq!(items[0].poster_url, own("g"));
    assert_eq!((items[1].title.as_str(), items[1].poster_url.clone()), ("Unknown — A", own("s")));
    assert_eq!((items[2].title.as_str(), items[2].year.clone()), ("B — C", own("1999")));
    assert_eq!((items[2].duration.clone(), items[2].poster_url.clone()), (None, own("s")));
    assert_eq!((items[3].title.as_str(), items[3].year.clone()), ("Unknown", None));
    assert_eq!(failure(p.search_reply(Some(Err("e".to_string())))), failed("search_failed", "e"));
}

#[test]
fn qobuz_tries_lower_qualities() {
    let p = qobuz::Qobuz;
    assert_eq!(p.resolve(" 12 ").unwrap(), 12);
    assert_eq!(failure(p.resolve("").unwrap_err()), failed("resolve_failed", "empty entry_id"));
    assert_eq!(failure(p.resolve("-1").unwrap_err()), failed("resolve_failed", "invalid track id"));
    let creds = qobuz::AuthCredentials {
        app_id: "a b".to_string(),
        app_secret: "sec".to_string(),
        user_token: "t&".to_string(),
        user_id: 1,
    };
    let sig = format!("{:x}", md5::compute("file/urlformat_id27intentstreamtrack_id1299sec"));
    assert_eq!(
        qobuz::tier_url(&creds, 12, qobuz::Tier::HiRes, 99),
        format!("https://www.qobuz.com/api.json/0.2/file/url?track_id=12&format_id=27&intent=stream&app_id=a%20b&user_auth_token=t%26&request_ts=99&request_sig={sig}")
    );
    let ok = |s: &str| Ok(s.to_string());
    match qobuz::tier_reply(qobuz::Tier::HiRes, ok("{}")) {
        qobuz::TierStep::Try(t) => assert_eq!(t.format_id(), 6),
        _ => panic!("expected another quality"),
    }
    match qobuz::tier_reply(qobuz::Tier::Lossless, Err("e".to_string())) {
        qobuz::TierStep::Try(t) => assert_eq!(t.format_id(), 5),
        _ => panic!("expected another quality"),
    }
    let end = |r: Result<String, String>| match qobuz::tier_reply(qobuz::Tier::Mp3, r) {
        qobuz::TierStep::Answer(a) => a,
        _ => panic!("expected an answer"),
    };
    assert_eq!(failure(end(ok("{}"))), failed("resolve_failed", "format 5 returned no stream URL"));
    assert_eq!(failure(end(Err("e".to_string()))), failed("resolve_failed", "format 5 failed: e"));
    assert_eq!(played(end(ok(r#"{"url":"s"}"#))), ("s".to_string(), own("mp3-320")));
    match qobuz::tier_reply(qobuz::Tier::HiRes, ok(r#"{"url":"s"}"#)) {
        qobuz::TierStep::Answer(a) => assert_eq!(played(a).1, own("24bit")),
        _ => panic!("expected an answer"),
    }
}

// SoundCloud

#[test]
fn soundcloud_runs_commands() {
    let p = soundcloud::SoundCloud;
    assert_eq!((p.name(), p.version()), ("soundcloud", "0.2.0"));
    assert!(matches!(p.plugin_type(), PluginType::Provider));
    assert!(p.search(" ").is_none());
    let c = p.search(" a b ").unwrap();
    assert_eq!(c.program, "yt-dlp");
    assert_eq!(c.args, vec!["--flat-playlist", "-j", "scsearch20:a b"]);
    assert_eq!(c.timeout_ms, 30000);
    let c = p.resolve(" --x ").unwrap();
    assert_eq!(c.args, vec!["-j", "--", "--x"]);
    assert_eq!(failure(p.resolve("").unwrap_err()), failed("resolve_failed", "empty entry_id"));
}

#[test]
fn soundcloud_lists_tracks() {
    let p = soundcloud::SoundCloud;
    let output = concat_lines(&[
        r#"{"webpage_url":"https://soundcloud.com/a/t","title":"T","uploader":"A","description":"d","categories":["g","h"],"upload_date":"20200131","thumbnail":"i"}"#,
        "not json",
        "",
        r#"{"webpage_url":"https://youtube.com/x","title":"no"}"#,
        r#"  {"webpage_url":"https://soundcloud.com/b","thumbnails":[{"url":"j"}],"upload_date":"202"}  "#,
        r#"{"webpage_url":"soundcloud.com","upload_date":"ab€"}"#,
    ]);
    let items = listed(p.search_reply(Some(Ok(output))));
    assert_eq!(items.len(), 3);
    assert_eq!((items[0].id.as_str(), items[0].title.as_str()), ("https://soundcloud.com/a/t", "T — A"));
    assert_eq!((items[0].year.clone(), items[0].genre.clone()), (own("2020"), own("g")));
    assert_eq!((items[0].description.clone(), items[0].poster_url.clone()), (own("d"), own("i")));
    assert_eq!((items[1].title.as_str(), items[1].poster_url.clone()), ("Unknown", own("j")));
    assert_eq!((items[1].year.clone(), items[1].duration.clone()), (None, None));
    assert_eq!(items[2].year, None);
    assert!(listed(p.search_reply(None)).is_empty());
    assert_eq!(failure(p.search_reply(Some(Err("e".to_string())))), failed("search_failed", "e"));
}

fn concat_lines(lines: &[&str]) -> String {
    lines.join("\n")
}

#[test]
fn soundcloud_prefers_what_can_be_fetched() {
    let p = soundcloud::SoundCloud;
    let formats = r#"{"url":"","formats":[
        {"protocol":"https","url":"one"},
        {"protocol":"http","vcodec":"none","url":"two"},
        {"protocol":"https","vcodec":"avc1","url":"video"},
        {"protocol":"https","vcodec":"none","url":""},
        {"protocol":"m3u8","url":"hls"}]}"#;
    assert_eq!(soundcloud::parse_ytdlp_resolve(formats), own("two"));
    let hls = r#"{"formats":[{"protocol":"m3u8","url":"a"},{"protocol":"m3u8","url":"b"},{"vcodec":"avc1","url":"c"}],"webpage_url":"w"}"#;
    assert_eq!(soundcloud::parse_ytdlp_resolve(hls), own("b"));
    assert_eq!(soundcloud::parse_ytdlp_resolve(r#"{"webpage_url":"w"}"#), own("w"));
    assert_eq!(soundcloud::parse_ytdlp_resolve("{}"), None);
    assert_eq!(soundcloud::parse_ytdlp_resolve("bad"), None);
    assert_eq!(
        played(p.resolve_reply(Ok(hls.to_string()), "x")),
        ("b".to_string(), own("audio"))
    );
    assert_eq!(
        played(p.resolve_reply(Ok("bad".to_string()), " x ")),
        ("x".to_string(), own("audio"))
    );
    assert_eq!(failure(p.resolve_reply(Err("e".to_string()), "x")), failed("resolve_failed", "e"));
}

// Roon

fn roon_config() -> roon::RoonConfig {
    roon::RoonConfig {
        server: "host".to_string(),
        core_id: "core".to_string(),
        token: "tok".to_string(),
        port: 9100,
    }
}

#[test]
fn roon_is_configured() {
    let mut cache = Table::new();
    assert_eq!(roon::discover_roon(&cache), Ok(vec![]));
    cache.insert("roon_server", "h".to_string());
    assert_eq!(roon::discover_roon(&cache), Ok(vec!["h".to_string()]));
    roon::configure_roon(&mut cache, "h\"", "c", "t");
    assert_eq!(
        cache.get("roon_config").unwrap(),
        r#"{"server":"h\"","core_id":"c","token":"t","port":9330}"#
    );
    assert_eq!(
        roon::get_roon_config(None).unwrap_err(),
        "Roon not configured. Please set up Roon server in stui settings."
    );
    assert_eq!(
        roon::get_roon_config(Some(Err("e".to_string()))).unwrap_err(),
        "parse error: e"
    );
    assert_eq!(roon::get_roon_config(Some(Ok(roon_config()))).unwrap().port, 9100);
}

#[test]
fn roon_searches() {
    let p = roon::Roon;
    assert_eq!((p.name(), p.version()), ("roon", "0.2.0"));
    assert!(matches!(p.plugin_type(), PluginType::Provider));
    let config = roon_config();
    assert!(p.search(&config, " ").is_none());
    let q = p.search(&config, " a\"b ").unwrap();
    assert_eq!(q.url, "http://host:9100/api/browse");
    assert_eq!(
        q.body,
        r#"{"browse_key":"","input":{"search_query":"a\"b","search_type":"library_tracks"},"limit":20,"offset":0}"#
    );
    assert_eq!(
        roon::roon_payload(&q.url, "tok", "{}"),
        r#"{"url":"http://host:9100/api/browse","body":"{}","__stui_headers":{"Roon-Token":"tok"}}"#
    );
    let body = r#"{"items":[
        {"item_type":"track","item_key":"1:2","title":"T","subtitle":"A","genre":"g","image_key":"i"},
        {"item_type":"playlist"},
        {"item_type":"genre","item_key":"x"},{}]}"#;
    let items = listed(p.search_reply(&config, Some(Ok(body.to_string()))));
    assert_eq!(items.len(), 2);
    assert_eq!((items[0].id.as_str(), items[0].title.as_str()), ("roon:track:1:2", "T — A"));
    assert_eq!((items[0].genre.clone(), items[0].description.clone()), (own("g"), own("A")));
    assert_eq!(items[0].poster_url, own("http://host:9100/api/image/i"));
    assert_eq!((items[1].id.as_str(), items[1].title.as_str()), ("roon:playlist:", "Unknown"));
    assert_eq!(
        roon::parse_roon_id(&items[0].id),
        Some(("track".to_string(), "1:2".to_string()))
    );
    assert!(listed(p.search_reply(&config, Some(Err("e".to_string())))).is_empty());
    assert!(listed(p.search_reply(&config, None)).is_empty());
}

#[test]
fn roon_plays() {
    let p = roon::Roon;
    let config = roon_config();
    for (kind, action) in [
        ("track", "play_tracks"),
        ("album", "play_album"),
        ("artist", "play_artist"),
        ("playlist", "play_playlist"),
        ("other", "play_tracks"),
    ] {
        let q = p.resolve(&config, &format!(" roon:{kind}:k ")).unwrap();
        assert_eq!(q.url, "http://host:9100/api/queue_and_play");
        assert_eq!(q.body, format!("{{\"action\":\"{action}\",\"item_key\":\"k\",\"offset\":0}}"));
    }
    assert_eq!(failure(p.resolve(&config, " ").unwrap_err()), failed("resolve_failed", "empty entry_id"));
    assert_eq!(
        failure(p.resolve(&config, "roon:x").unwrap_err()),
        failed("resolve_failed", "invalid Roon ID format")
    );
    let z = roon::zones_request(&config);
    assert_eq!((z.url.as_str(), z.body.as_str()), ("http://host:9100/api/zones", "{}"));
    let done = |zones: Option<&str>| {
        played(p.resolve_reply(&config, Ok(String::new()), zones.map(str::to_string)))
    };
    assert_eq!(
        done(Some(r#"{"zones":[{"now_playing":{"quality":"hi"}},{}]}"#)),
        ("roon://host:9330".to_string(), own("hi"))
    );
    assert_eq!(done(Some(r#"{"zones":[{"now_playing":"x"}]}"#)).1, own("unknown"));
    assert_eq!(done(None).1, own("unknown"));
    assert_eq!(
        failure(p.resolve_reply(&config, Err("e".to_string()), None)),
        failed("resolve_failed", "e")
    );
    assert_eq!(failure(p.not_configured::<u8>("e")), failed("not_configured", "e"));
}

// Rate Your Music

fn wanted(q: &str, scope: SearchScope) -> SearchRequest {
    SearchRequest {
        query: q.to_string(),
        scope,
        page: 0,
        limit: 100,
        per_scope_limit: None,
        locale: None,
    }
}

#[test]
fn rym_asks_for_albums_and_artists() {
    let p = rym::RymPlugin::new(manifest("rym-provider"));
    assert_eq!(p.manifest().plugin.name, "rym-provider");
    match p.search(&wanted("a b/\u{e9}\u{100}", SearchScope::Album)) {
        Step::Fetch(u) => assert_eq!(
            u,
            "https://rateyourmusic.com/album-search?searchterm=a%20b%2F%E9%00"
        ),
        _ => panic!("expected a page"),
    }
    match p.search(&wanted("x", SearchScope::Artist)) {
        Step::Fetch(u) => assert_eq!(u, "https://rateyourmusic.com/artist-search?searchterm=x"),
        _ => panic!("expected a page"),
    }
    match p.search(&wanted("x", SearchScope::Movie)) {
        Step::Answer(a) => assert_eq!(
            failure(a),
            failed("unsupported_scope", "RYM only supports album/artist scopes")
        ),
        _ => panic!("expected an answer"),
    }
}

#[test]
fn rym_lists_links() {
    let p = rym::RymPlugin::new(manifest("rym-provider"));
    let html = r#"<a href="/artist/pink-floyd/" class="x"><span class="y">Pink Floyd</span></a>
<a href="/artist/none/">None</a><a href="/a/b/"><span>B &amp; C</span>"#;
    let found = match p.search_reply(Ok(html.to_string()), SearchScope::Artist) {
        PluginResult::Success(r) => r,
        PluginResult::Failure(e) => panic!("{}", e.message),
    };
    assert_eq!(found.total, 2);
    assert_eq!((found.items[0].id.as_str(), found.items[0].title.as_str()), ("artist/pink-floyd", "Pink Floyd"));
    assert_eq!(found.items[0].kind, EntryKind::Artist);
    assert_eq!(found.items[0].source, "rym");
    assert_eq!((found.items[1].id.as_str(), found.items[1].title.as_str()), ("artist/b", "B &amp; C"));
    let many = "<a href=\"/x/s/\"><span>T<".repeat(30);
    let items = rym::parse_search_results(&many, "album");
    assert_eq!(items.len(), 25);
    assert_eq!((items[0].id.as_str(), items[0].kind), ("album/s", EntryKind::Album));
    let kept = rym::match_entries(
        vec![(own("s"), None), (None, own("t")), (own("s"), own("t"))],
        "album",
    );
    assert_eq!(kept.len(), 1);
    assert_eq!(
        failure(p.search_reply(Err("e".to_string()), SearchScope::Album)),
        failed("remote_error", "e")
    );
}

// Rating weights

#[test]
fn weights_are_set_and_counted() {
    let mut p: RatingWeightsPlugin<f32> = RatingWeightsPlugin::new(manifest("rjm-rating-weights"), 1.0);
    assert_eq!(p.manifest().plugin.name, "rjm-rating-weights");
    for name in ["omdb", "tmdb", "musicbrainz", "lastfm"] {
        assert_eq!(p.get_weight(name), Some(1.0));
    }
    assert_eq!(p.get_weight("rym"), None);
    assert_eq!(p.weight_or("rym", 1.5), 1.5);
    assert_eq!(p.set_weight("rym", 2.0), None);
    assert_eq!(p.set_weight("rym", 0.5), Some(2.0));
    assert_eq!(p.weight_or("rym", 1.5), 0.5);
    assert_eq!(p.get_weight("omdb"), Some(1.0));
}
