use stui_plugins::sdk::auth::parse_auth_json;
use stui_plugins::sdk::capabilities::{
    err_not_implemented, normalize_crew_role, CrewRole, DefaultPluginLogger, InitContext,
    InitRequest,
};
use stui_plugins::sdk::description::clean_description;
use stui_plugins::sdk::error_codes;
use stui_plugins::sdk::host::post_form_payload;
use stui_plugins::sdk::id_sources::{is_canonical, ALL, MUSICBRAINZ, TMDB};
use stui_plugins::sdk::kinds::{EntryKind, SearchScope};
use stui_plugins::sdk::logging::log_url;
use stui_plugins::sdk::manifest::{PluginManifest, PluginMeta};
use stui_plugins::sdk::plugin::{CatalogPlugin, Plugin};
use stui_plugins::sdk::result::PluginResult;
use stui_plugins::sdk::testing::MockHost;
use stui_plugins::sdk::types::{SearchRequest, SearchResponse};
use stui_plugins::text::table::Table;

#[test]
fn normalize_crew_role_common_aliases() {
    assert!(matches!(normalize_crew_role("Director"), CrewRole::Director));
    assert!(matches!(
        normalize_crew_role("director of photography"),
        CrewRole::Cinematographer
    ));
    assert!(matches!(normalize_crew_role("DOP"), CrewRole::Cinematographer));
    assert!(matches!(
        normalize_crew_role("Original Music Composer"),
        CrewRole::Composer
    ));
}

#[test]
fn normalize_crew_role_unknown_is_other() {
    match normalize_crew_role("Foley Artist") {
        CrewRole::Other(s) => assert_eq!(s, "Foley Artist"),
        _ => panic!("expected Other variant"),
    }
}

#[test]
fn init_context_from_request_attaches_logger() {
    let mut env = Table::new();
    env.insert("K", "V".to_string());
    let req = InitRequest {
        env,
        config: Table::new(),
        cache_dir: "/tmp".to_string(),
    };
    let logger = DefaultPluginLogger;
    let ctx = InitContext::from_request(&req, &logger);
    assert_eq!(ctx.env.get("K").map(String::as_str), Some("V"));
    assert_eq!(ctx.cache_dir, "/tmp");
}

#[test]
fn err_not_implemented_returns_error() {
    let r: PluginResult<i32> = err_not_implemented();
    match r {
        PluginResult::Failure(e) => {
            assert_eq!(e.code, error_codes::NOT_IMPLEMENTED);
        }
        _ => panic!("expected Err"),
    }
}

#[test]
fn canonical_values_stable() {
    assert_eq!(TMDB, "tmdb");
    assert_eq!(MUSICBRAINZ, "musicbrainz");
}

#[test]
fn is_canonical_rejects_unknown() {
    assert!(is_canonical("tmdb"));
    assert!(!is_canonical("unknown"));
    assert!(!is_canonical(""));
}

#[test]
fn all_contains_every_constant() {
    assert_eq!(ALL.len(), 8);
    for s in ALL {
        assert!(is_canonical(s));
    }
}

#[test]
fn scope_matches_kind() {
    assert!(SearchScope::Track.matches(EntryKind::Track));
    assert!(!SearchScope::Track.matches(EntryKind::Artist));
}

#[test]
fn strips_api_key() {
    assert_eq!(
        log_url("https://api.tmdb.org/3/search/movie?query=matrix&api_key=deadbeef"),
        "https://api.tmdb.org/3/search/movie?query=matrix&api_key=***",
    );
}

#[test]
fn preserves_innocuous_params() {
    assert_eq!(
        log_url("https://x.example/y?page=2&limit=5"),
        "https://x.example/y?page=2&limit=5",
    );
}

#[test]
fn handles_multiple_sensitive_keys() {
    let out = log_url("https://a?apikey=A&token=B&other=ok&access_token=C");
    assert!(out.contains("apikey=***"));
    assert!(out.contains("token=***"));
    assert!(out.contains("access_token=***"));
    assert!(out.contains("other=ok"));
}

#[test]
fn case_insensitive_key_match() {
    assert_eq!(log_url("https://a?API_KEY=X"), "https://a?API_KEY=***");
}

#[test]
fn preserves_fragment() {
    assert_eq!(
        log_url("https://a/b?api_key=X#section"),
        "https://a/b?api_key=***#section",
    );
}

#[test]
fn no_query_is_passthrough() {
    assert_eq!(log_url("https://a/b"), "https://a/b");
}

#[test]
fn br_becomes_newline() {
    let s = clean_description("Line one<br>Line two<br/>Line three");
    assert_eq!(s, "Line one\nLine two\nLine three");
}

#[test]
fn strips_arbitrary_html_tags() {
    let s = clean_description("Hello <i>italic</i> and <b>bold</b>.");
    assert_eq!(s, "Hello italic and bold.");
}

#[test]
fn strips_trailing_source_attribution() {
    let s = clean_description("A long synopsis here. (Source: Wikipedia)");
    assert_eq!(s, "A long synopsis here.");
}

#[test]
fn keeps_word_source_when_not_attribution() {
    let s = clean_description("The protagonist is the source of all chaos.");
    assert_eq!(s, "The protagonist is the source of all chaos.");
}

#[test]
fn decodes_entities() {
    let s = clean_description("Tom &amp; Jerry &quot;chase&quot; the cat&#39;s tail");
    assert_eq!(s, "Tom & Jerry \"chase\" the cat's tail");
}

#[test]
fn collapses_excess_blank_lines() {
    let s = clean_description("Para 1.<br><br><br><br>Para 2.");
    assert_eq!(s, "Para 1.\n\nPara 2.");
}

#[test]
fn idempotent_on_clean_text() {
    let already_clean = "A perfectly normal description.";
    assert_eq!(clean_description(already_clean), already_clean);
}

#[test]
fn handles_empty_input() {
    assert_eq!(clean_description(""), "");
}

#[test]
fn fixture_satisfies_http_get() {
    let host = MockHost::new().with_fixture_response("https://a/x", r#"{"k":"v"}"#);
    assert_eq!(host.http_get("https://a/x").unwrap(), r#"{"k":"v"}"#);
}

#[test]
fn unregistered_url_still_errors() {
    let host = MockHost::new();
    let err = host.http_get("https://never-registered.example").unwrap_err();
    assert!(err.contains("only available in WASM"));
}

#[test]
fn multiple_fixtures_chain() {
    let host = MockHost::new()
        .with_fixture_response("https://a", "A")
        .with_fixture_response("https://b", "B");
    assert_eq!(host.http_get("https://a").unwrap(), "A");
    assert_eq!(host.http_get("https://b").unwrap(), "B");
}

#[test]
fn reset_clears_everything() {
    let mut host = MockHost::new().with_fixture_response("https://x", "body");
    assert!(host.http_get("https://x").is_ok());
    host.reset();
    assert!(host.http_get("https://x").is_err());
}

struct Stub {
    manifest: PluginManifest,
}

impl Plugin for Stub {
    fn manifest(&self) -> &PluginManifest {
        &self.manifest
    }
}

impl CatalogPlugin for Stub {
    fn search(&self, _req: SearchRequest) -> PluginResult<SearchResponse> {
        PluginResult::ok(SearchResponse {
            items: vec![],
            total: 0,
        })
    }
}

fn assert_plugin<T: Plugin>(_: &T) {}

fn assert_catalog<T: CatalogPlugin>(_: &T) {}

fn stub() -> Stub {
    Stub {
        manifest: PluginManifest {
            plugin: PluginMeta {
                name: "stub".to_string(),
            },
        },
    }
}

#[test]
fn plugin_trait_compiles() {
    let s = stub();
    assert_plugin(&s);
    assert_catalog(&s);
    assert_eq!(s.manifest().plugin.name, "stub");
}

#[test]
fn catalog_only_plugin_satisfies_bounds() {
    let mut s = stub();
    assert_catalog(&s);
    let found = s.search(SearchRequest {
        query: "q".to_string(),
        scope: SearchScope::Movie,
        page: 0,
        limit: 1,
        per_scope_limit: None,
        locale: None,
    });
    assert!(matches!(found, PluginResult::Success(r) if r.total == 0 && r.items.is_empty()));
    assert!(s.shutdown().is_ok());
}

fn make_auth_json(code: Option<&str>, state: Option<&str>, error: Option<&str>) -> String {
    let mut map = serde_json::Map::new();
    if let Some(c) = code {
        map.insert("code".into(), serde_json::Value::from(c));
    }
    if let Some(s) = state {
        map.insert("state".into(), serde_json::Value::from(s));
    }
    if let Some(e) = error {
        map.insert("error".into(), serde_json::Value::from(e));
    }
    serde_json::to_string(&serde_json::Value::Object(map)).unwrap()
}

#[test]
fn test_parse_auth_json_success() {
    let json = make_auth_json(Some("mycode"), Some("csrf"), None);
    let result = parse_auth_json(&json);
    assert!(result.is_ok());
    let cb = result.unwrap();
    assert_eq!(cb.code, "mycode");
    assert_eq!(cb.state, Some("csrf".to_string()));
}

#[test]
fn test_parse_auth_json_denied() {
    let json = make_auth_json(None, None, Some("access_denied"));
    let result = parse_auth_json(&json);
    assert_eq!(result.unwrap_err(), "denied: access_denied");
}

#[test]
fn test_parse_auth_json_timed_out() {
    let json = make_auth_json(None, None, Some("timed_out"));
    let result = parse_auth_json(&json);
    assert_eq!(result.unwrap_err(), "timed_out");
}

#[test]
fn test_parse_auth_json_malformed_fallback() {
    // Neither a code nor an error: taken for a time-out.
    let json = r#"{"state":"xyz"}"#;
    let result = parse_auth_json(json);
    assert_eq!(result.unwrap_err(), "timed_out");
}

#[test]
fn test_http_post_form_payload_format() {
    let url = "https://api.example.com/token";
    let body = "grant_type=authorization_code&code=abc";
    let payload = post_form_payload(url, body);
    assert_eq!(
        payload,
        format!(
            "{{\"url\":{url_json},\"body\":{body_json},\"__stui_headers\":{{\"Content-Type\":\"application/x-www-form-urlencoded\"}}}}",
            url_json = serde_json::to_string(url).unwrap(),
            body_json = serde_json::to_string(body).unwrap(),
        )
    );
    let val: serde_json::Value = serde_json::from_str(&payload).unwrap();
    assert_eq!(val["url"].as_str().unwrap(), url);
    assert_eq!(
        val["__stui_headers"]["Content-Type"].as_str().unwrap(),
        "application/x-www-form-urlencoded"
    );
}

#[test]
fn new_error_codes_are_stable() {
    assert_eq!(error_codes::NOT_IMPLEMENTED, "not_implemented");
    assert_eq!(error_codes::RATE_LIMITED, "rate_limited");
    assert_eq!(error_codes::UNKNOWN_ID, "unknown_id");
    assert_eq!(error_codes::TRANSIENT, "transient");
    assert_eq!(error_codes::REMOTE_ERROR, "remote_error");
}
