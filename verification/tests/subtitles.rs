use stui_plugins::providers::common::{Reply, ResolveAnswer, Step};
use stui_plugins::providers::listing::{Listing, ListingAnswer};
use stui_plugins::providers::{kitsunekko, opensubtitles, subscene, yify_subs};
use stui_plugins::sdk::kinds::SearchScope;
use stui_plugins::sdk::host::http_outcome;
use stui_plugins::sdk::plugin::PluginType;
use stui_plugins::sdk::result::PluginResult;
use stui_plugins::sdk::types::{ResolveRequest, SearchRequest};
use stui_plugins::text::chars::to_chars;
use stui_plugins::text::table::Table;

fn query(q: &str, limit: u32) -> SearchRequest {
    SearchRequest {
        query: q.to_string(),
        scope: SearchScope::Movie,
        page: 0,
        limit,
        per_scope_limit: None,
        locale: None,
    }
}

fn entry(id: &str) -> ResolveRequest {
    ResolveRequest {
        entry_id: id.to_string(),
    }
}

fn own(s: &str) -> Option<String> {
    Some(s.to_string())
}

fn listed(a: ListingAnswer) -> Vec<Listing> {
    match a {
        PluginResult::Success(r) => {
            assert_eq!(r.total as usize, r.items.len());
            r.items
        }
        PluginResult::Failure(e) => panic!("{}: {}", e.code, e.message),
    }
}

fn played(a: ResolveAnswer) -> (String, Option<String>) {
    match a {
        PluginResult::Success(r) => {
            assert!(r.subtitles.is_empty());
            (r.stream_url, r.quality)
        }
        PluginResult::Failure(e) => panic!("{}: {}", e.code, e.message),
    }
}

fn failure<T>(a: PluginResult<T>) -> (String, String) {
    match a {
        PluginResult::Failure(e) => (e.code, e.message),
        PluginResult::Success(_) => panic!("expected a failure"),
    }
}

fn failed(code: &str, message: &str) -> (String, String) {
    (code.to_string(), message.to_string())
}

fn page<A>(s: Step<A>) -> String {
    match s {
        Step::Fetch(u) => u,
        Step::Answer(_) => panic!("expected a page"),
    }
}

fn answer<A>(s: Step<A>) -> A {
    match s {
        Step::Answer(a) => a,
        Step::Fetch(u) => panic!("unexpected page {u}"),
    }
}

// OpenSubtitles

fn settings(pairs: &[(&str, &str)]) -> Table<String> {
    let mut t = Table::new();
    for (k, v) in pairs {
        t.insert(&format!("__env:{k}"), v.to_string());
    }
    t
}

fn subtitle(file_id: u64) -> opensubtitles::SubtitleItem {
    opensubtitles::SubtitleItem {
        id: "9".to_string(),
        attributes: opensubtitles::SubtitleAttributes {
            subtitle_id: "9".to_string(),
            language: "en".to_string(),
            download_count: 42,
            ratings: "7.5".to_string(),
            release: "Rel".to_string(),
            hearing_impaired: false,
            ai_translated: false,
            machine_translated: false,
            hd: false,
            files: vec![opensubtitles::SubtitleFile {
                file_id,
                file_name: own("a.srt"),
                cd_number: None,
            }],
            feature_details: opensubtitles::FeatureDetails {
                title: "T".to_string(),
                year: Some(1999),
                imdb_id: Some(133093),
                tmdb_id: None,
            },
            url: "http://u".to_string(),
        },
    }
}

#[test]
fn opensubtitles_asks_by_id_or_title() {
    let p = opensubtitles::OpenSubtitlesProvider;
    assert_eq!((p.name(), p.version()), ("opensubtitles-provider", "0.1.0"));
    assert!(matches!(p.plugin_type(), PluginType::Provider));
    assert_eq!(
        failure(answer(p.search(&Table::new(), &query("x", 1)))),
        failed(
            "CONFIG_ERROR",
            "OS_API_KEY is not set. Get one at https://www.opensubtitles.com/en/consumers"
        )
    );
    let mut s = settings(&[("OS_API_KEY", "k")]);
    assert_eq!(
        page(p.search(&s, &query("tt0133093", 1))),
        "https://api.opensubtitles.com/api/v1/subtitles?imdb_id=0133093&languages=en&per_page=20&Api-Key=k"
    );
    for (text, asked) in [
        ("tt7", "imdb_id=7"),
        ("ttfoo", "query=ttfoo"),
        ("tt12a", "query=tt12a"),
        ("tt 1", "query=tt%201"),
    ] {
        assert_eq!(
            page(p.search(&s, &query(text, 1))),
            format!("https://api.opensubtitles.com/api/v1/subtitles?{asked}&languages=en&per_page=20&Api-Key=k")
        );
    }
    s.insert("os_base_url", "vip".to_string());
    assert_eq!(
        page(p.search(&s, &query("tt", 1))),
        "https://vip/api/v1/subtitles?query=tt&languages=en&per_page=20&Api-Key=k"
    );
    s.insert("os_base_url", String::new());
    s.insert("__env:OS_LANGUAGE", "de,fr".to_string());
    assert_eq!(
        page(p.search(&s, &query("The Matrix", 1))),
        "https://api.opensubtitles.com/api/v1/subtitles?query=The%20Matrix&languages=de,fr&per_page=20&Api-Key=k"
    );
}

#[test]
fn opensubtitles_lists_files() {
    let p = opensubtitles::OpenSubtitlesProvider;
    let mut second = subtitle(6);
    second.attributes.hearing_impaired = true;
    second.attributes.hd = true;
    second.attributes.ai_translated = true;
    second.attributes.machine_translated = true;
    second.attributes.files[0].file_name = None;
    second.attributes.feature_details.imdb_id = None;
    second.attributes.feature_details.year = None;
    let mut third = subtitle(7);
    third.attributes.files.clear();
    third.attributes.language = "pt-br".to_string();
    let items = listed(p.search_reply(Reply::Parsed(vec![subtitle(5), second, third, subtitle(8)]), 3));
    assert_eq!(items.len(), 3);
    assert_eq!(items[0].id, "os:5");
    assert_eq!(items[0].title, "[EN] a.srt  ★7.5  ↓42");
    assert_eq!(items[0].year, own("1999"));
    assert_eq!(items[0].genre, own("en"));
    assert_eq!(items[0].rating, own("7.5"));
    assert_eq!(items[0].description, own("http://u"));
    assert_eq!(items[0].imdb_id, own("tt0133093"));
    assert_eq!(items[1].title, "[EN] Rel [HI HD AI MT]  ★7.5  ↓42");
    assert_eq!((items[1].imdb_id.clone(), items[1].year.clone()), (None, None));
    assert_eq!(items[2].id, "os:0");
    assert_eq!(items[2].title, "[PT-BR] Rel  ★7.5  ↓42");
    // What is listed names the file that it stands for.
    assert_eq!(opensubtitles::parse_file_id(&items[0].id), Some(5));
    assert_eq!(failure(p.search_reply(Reply::HttpError("e".to_string()), 1)), failed("HTTP_ERROR", "e"));
    assert_eq!(failure(p.search_reply(Reply::ParseError("e".to_string()), 1)), failed("PARSE_ERROR", "e"));
}

#[test]
fn opensubtitles_reads_file_ids() {
    assert_eq!(opensubtitles::parse_file_id("12"), Some(12));
    assert_eq!(opensubtitles::parse_file_id("os:12"), Some(12));
    assert_eq!(opensubtitles::parse_file_id("+12"), Some(12));
    assert_eq!(opensubtitles::parse_file_id("os:os:12"), None);
    assert_eq!(opensubtitles::parse_file_id("-1"), None);
    assert_eq!(opensubtitles::parse_file_id("18446744073709551616"), None);
    assert_eq!(opensubtitles::parse_file_id(""), None);
}

#[test]
fn opensubtitles_signs_in_to_download() {
    let p = opensubtitles::OpenSubtitlesProvider;
    let mut s = settings(&[("OS_API_KEY", "k")]);
    match p.resolve(&s, &entry("x")) {
        opensubtitles::ResolveStep::Answer(a) => {
            assert_eq!(failure(a), failed("INVALID_ID", "could not parse file_id"))
        }
        _ => panic!("expected an answer"),
    }
    match p.resolve(&s, &entry("os:5")) {
        opensubtitles::ResolveStep::Answer(a) => assert_eq!(
            failure(a),
            failed(
                "AUTH_REQUIRED",
                "OS_USERNAME and OS_PASSWORD must be set for subtitle downloads. Anonymous users are limited to 5 downloads per 24h."
            )
        ),
        _ => panic!("expected an answer"),
    }
    s.insert("__env:OS_USERNAME", "u\"v".to_string());
    s.insert("__env:OS_PASSWORD", "p".to_string());
    match p.resolve(&s, &entry("os:5")) {
        opensubtitles::ResolveStep::Login(post) => {
            assert_eq!(post.url, "https://api.opensubtitles.com/api/v1/login");
            let v: serde_json::Value = serde_json::from_str(&post.body).unwrap();
            assert_eq!(v["username"], "u\"v");
            assert_eq!(v["password"], "p");
            assert_eq!(v["__stui_headers"]["Api-Key"], "k");
            assert_eq!(v["__stui_headers"]["User-Agent"], "stui v0.1.0");
            assert_eq!(v["__stui_headers"]["Content-Type"], "application/json");
            assert!(v["__stui_headers"].get("Authorization").is_none());
        }
        _ => panic!("expected a login"),
    }
    let response = |token: &str, base: &str, status: u16| opensubtitles::LoginResponse {
        token: token.to_string(),
        base_url: base.to_string(),
        status,
    };
    assert_eq!(
        opensubtitles::login(&mut s, response("jwt", "b", 401)),
        Err("login failed: status=401".to_string())
    );
    assert_eq!(
        opensubtitles::login(&mut s, response("", "b", 200)),
        Err("login failed: status=200".to_string())
    );
    assert!(s.get(opensubtitles::JWT_CACHE_KEY).is_none());
    assert_eq!(
        opensubtitles::login(&mut s, response("jwt", "vip", 200)),
        Ok("jwt".to_string())
    );
    assert_eq!(s.get(opensubtitles::JWT_CACHE_KEY), Some(&"jwt".to_string()));
    assert_eq!(s.get(opensubtitles::BASE_URL_CACHE_KEY), Some(&"vip".to_string()));
    match p.resolve(&s, &entry("5")) {
        opensubtitles::ResolveStep::Download(post) => {
            assert_eq!(post.url, "https://vip/api/v1/download");
            let v: serde_json::Value = serde_json::from_str(&post.body).unwrap();
            assert_eq!(v["file_id"], 5);
            assert_eq!(v["__stui_headers"]["Authorization"], "Bearer jwt");
        }
        _ => panic!("expected a download"),
    }
    assert_eq!(failure(p.login_failed("no")), failed("AUTH_REQUIRED", "no"));
}

#[test]
fn opensubtitles_hands_out_the_link() {
    let p = opensubtitles::OpenSubtitlesProvider;
    let reply = |link: &str| {
        Reply::Parsed(opensubtitles::DownloadResponse {
            link: link.to_string(),
            file_name: own("a.srt"),
            remaining: 3,
        })
    };
    assert_eq!(played(p.resolve_reply(reply("http://l"))), ("http://l".to_string(), own("a.srt")));
    assert_eq!(failure(p.resolve_reply(reply(""))), failed("DOWNLOAD_ERROR", "empty download link"));
    assert_eq!(
        failure(p.resolve_reply(Reply::HttpError("e".to_string()))),
        failed("DOWNLOAD_ERROR", "e")
    );
    assert_eq!(
        failure(p.resolve_reply(Reply::ParseError("e".to_string()))),
        failed("PARSE_ERROR", "e")
    );
}

#[test]
fn opensubtitles_signs_in_again_where_a_token_is_refused() {
    let p = opensubtitles::OpenSubtitlesProvider;
    let mut s = settings(&[("OS_API_KEY", "k"), ("OS_USERNAME", "u"), ("OS_PASSWORD", "p")]);
    s.insert(opensubtitles::JWT_CACHE_KEY, "old".to_string());
    assert!(matches!(p.resolve(&s, &entry("5")), opensubtitles::ResolveStep::Download(_)));
    let cfg = opensubtitles::Config::load(&s).unwrap();
    let error = |status: u16| Reply::HttpError(http_outcome(status, "no".to_string()).unwrap_err());
    match p.download_reply(&cfg, error(401)) {
        opensubtitles::RetryStep::Login(post) => {
            assert_eq!(post.url, "https://api.opensubtitles.com/api/v1/login");
            let v: serde_json::Value = serde_json::from_str(&post.body).unwrap();
            assert_eq!((v["username"].as_str(), v["password"].as_str()), (Some("u"), Some("p")));
        }
        _ => panic!("expected a login"),
    }
    let fresh = opensubtitles::LoginResponse {
        token: "new".to_string(),
        base_url: String::new(),
        status: 200,
    };
    assert_eq!(opensubtitles::login(&mut s, fresh), Ok("new".to_string()));
    assert_eq!(s.get(opensubtitles::JWT_CACHE_KEY), Some(&"new".to_string()));
    let again = p.download_post(&cfg, 5, "new");
    let v: serde_json::Value = serde_json::from_str(&again.body).unwrap();
    assert_eq!(v["__stui_headers"]["Authorization"], "Bearer new");
    assert_eq!(failure(p.resolve_reply(error(401))), failed("DOWNLOAD_ERROR", "HTTP 401: no"));
    // Only a refused token leads to a login, and only where there is an account.
    for status in [400, 40, 403, 4010, 500] {
        match p.download_reply(&cfg, error(status)) {
            opensubtitles::RetryStep::Answer(a) => {
                assert_eq!(failure(a), failed("DOWNLOAD_ERROR", &format!("HTTP {status}: no")))
            }
            _ => panic!("expected an answer"),
        }
    }
    let nobody = opensubtitles::Config::load(&settings(&[("OS_API_KEY", "k")])).unwrap();
    match p.download_reply(&nobody, error(401)) {
        opensubtitles::RetryStep::Answer(a) => {
            assert_eq!(failure(a), failed("DOWNLOAD_ERROR", "HTTP 401: no"))
        }
        _ => panic!("expected an answer"),
    }
    let found = opensubtitles::DownloadResponse {
        link: "http://l".to_string(),
        file_name: None,
        remaining: 1,
    };
    match p.download_reply(&cfg, Reply::Parsed(found)) {
        opensubtitles::RetryStep::Answer(a) => assert_eq!(played(a), ("http://l".to_string(), None)),
        _ => panic!("expected an answer"),
    }
}

#[test]
fn headers_go_into_objects_only() {
    let v: serde_json::Value =
        serde_json::from_str(&opensubtitles::inject_api_key_header("not json", "k")).unwrap();
    assert_eq!(v["__stui_headers"]["Api-Key"], "k");
    assert_eq!(opensubtitles::inject_auth_headers("[1, 2]", "k", "j"), "[1,2]");
    let v: serde_json::Value = serde_json::from_str(&opensubtitles::inject_auth_headers(
        "{\"a\":1,\"__stui_headers\":2}",
        "k",
        "j",
    ))
    .unwrap();
    assert_eq!(v["a"], 1);
    assert_eq!(v["__stui_headers"]["Authorization"], "Bearer j");
}

// Kitsunekko

#[test]
fn kitsunekko_urls_are_on_the_site() {
    for u in ["https://kitsunekko.net/x", "https://www.kitsunekko.net", "https://kitsunekko.net/@"] {
        assert!(kitsunekko::is_valid_kitsunekko_url(u), "{u}");
    }
    for u in [
        "http://kitsunekko.net/x",
        "https://kitsunekko.net.evil/x",
        "https://u@kitsunekko.net/x",
        "https://u%40kitsunekko.net/x",
        "https://kitsunekko.net:8080/",
        "kitsunekko.net",
        "",
    ] {
        assert!(!kitsunekko::is_valid_kitsunekko_url(u), "{u}");
    }
}

#[test]
fn kitsunekko_lists_directories() {
    let p = kitsunekko::KitsunekkoProvider;
    assert_eq!((p.name(), p.version()), ("kitsunekko", "0.1.0"));
    assert!(matches!(p.plugin_type(), PluginType::Subtitle));
    assert!(listed(answer(p.search(&query("  ", 1)))).is_empty());
    assert_eq!(
        page(p.search(&query(" a b ", 1))),
        "https://kitsunekko.net/dirlist.php?dir=subtitles/&search=a%20b"
    );
    let html = "<a href=\"/dirlist.php?dir=subtitles/japanese/My+Show_2\">x</a>\n\
<a href=\"/dirlist.php?dir=subtitles/english/Two&amp;x\">x</a>\r\n\
<a href=\"/dirlist.php?dir=subtitles/\">root</a>\n\
<a href=\"/dirlist.php?dir=subtitles/.hidden\">x</a>\n\
<a href=\"/other.php?dir=subtitles/x\">x</a>\n\
<a href=\"/dirlist.php?dir=subtitles/Three\">x</a>";
    let items = listed(p.search_reply(Ok(html.to_string()), 0));
    let seen: Vec<(&str, &str, Option<&str>)> = items
        .iter()
        .map(|e| (e.id.as_str(), e.title.as_str(), e.description.as_deref()))
        .collect();
    assert_eq!(
        seen,
        vec![
            (
                "https://kitsunekko.net/dirlist.php?dir=subtitles/japanese/My+Show_2",
                "My Show 2",
                Some("Japanese")
            ),
            (
                "https://kitsunekko.net/dirlist.php?dir=subtitles/english/Two",
                "Two",
                Some("English")
            ),
            ("https://kitsunekko.net/dirlist.php?dir=subtitles/Three", "Three", Some("Unknown")),
        ]
    );
    assert_eq!(listed(p.search_reply(Ok(html.to_string()), 2)).len(), 2);
    assert_eq!(failure(p.search_reply(Err("e".to_string()), 2)), failed("HTTP_ERROR", "e"));
}

#[test]
fn kitsunekko_finds_files() {
    let base = "https://kitsunekko.net/dirlist.php?dir=subtitles/japanese/Show/&x=1";
    let html = "<a href=\"a.srt\">\n<a href=\"/b.zip\">\n<a href=\"../c.7z\">\n<a href=\"./d.srt\">\n\
<a href=\"https://evil.example/e.srt\">\n<a href=\"f.txt\">\n<a href=\"/b.zip\">\n<a href=\"https://kitsunekko.net/g.srt\">\n\
<a href=\"../../../../h.srt\">";
    assert_eq!(
        kitsunekko::extract_file_links(html, base),
        vec![
            "https://kitsunekko.net/subtitles/japanese/Show//a.srt",
            "https://kitsunekko.net/b.zip",
            "https://kitsunekko.net/subtitles/japanese/c.7z",
            "https://kitsunekko.net/subtitles/japanese/Show/d.srt",
            "https://kitsunekko.net/g.srt",
            "https://kitsunekko.net/subtitles/h.srt",
        ]
    );
    assert_eq!(
        kitsunekko::extract_file_links("<a href=\"a.srt\">", "https://kitsunekko.net/"),
        vec!["https://kitsunekko.net/./a.srt"]
    );
    let p = kitsunekko::KitsunekkoProvider;
    assert_eq!(failure(answer(p.resolve(&entry("")))), failed("INVALID_URL", "empty entry_id"));
    assert_eq!(
        failure(answer(p.resolve(&entry("https://x/")))),
        failed("INVALID_URL", "URL must be from kitsunekko.net")
    );
    assert_eq!(page(p.resolve(&entry(base))), base);
    assert_eq!(
        played(p.resolve_reply(Ok(html.to_string()), base)),
        (
            "https://kitsunekko.net/subtitles/japanese/Show//a.srt".to_string(),
            own("kitsunekko")
        )
    );
    assert_eq!(
        failure(p.resolve_reply(Ok(String::new()), base)),
        failed("PARSE_ERROR", "no subtitle files found")
    );
    assert_eq!(failure(p.resolve_reply(Err("e".to_string()), base)), failed("HTTP_ERROR", "e"));
    assert_eq!(
        kitsunekko::extract_dir_param(to_chars("x dir=a/b\" y").as_slice()),
        own("a/b")
    );
    assert_eq!(kitsunekko::extract_dir_param(to_chars("dir=&").as_slice()), None);
}

// Subscene

#[test]
fn subscene_urls_are_on_the_site() {
    assert!(subscene::is_valid_subscene_url("https://subscene.com/x"));
    assert!(subscene::is_valid_subscene_url("https://www.subscene.com"));
    for u in ["http://subscene.com/", "https://a@subscene.com/", "https://subscene.com.x/", ""] {
        assert!(!subscene::is_valid_subscene_url(u), "{u}");
    }
}

fn row(url: &str, title: &str, lang: &str) -> String {
    format!(
        "<tr class=\"subtitle\">\n  <td><a href=\"{url}\">\n</td>\n<td>\n<span> {title} </span></td>\n<td><span>{lang}</span></td>\n</tr>\n"
    )
}

#[test]
fn subscene_lists_rows() {
    let p = subscene::SubsceneProvider;
    assert_eq!((p.name(), p.version()), ("subscene", "0.1.0"));
    assert!(matches!(p.plugin_type(), PluginType::Subtitle));
    assert!(listed(answer(p.search(&query("", 1)))).is_empty());
    assert_eq!(
        page(p.search(&query("a b", 1))),
        "https://www.subscene.com/subtitles/search?q=a%20b"
    );
    let html = format!(
        "{}{}{}{}<tr>\n<td><a href=\"/no\"></td>\n</tr>",
        row("/one", "One", "English"),
        row("two", "Two", ""),
        row("https://x/three", "Three", "German"),
        row("/four", "", "English"),
    );
    let items = listed(p.search_reply(Ok(html.clone()), 0));
    let seen: Vec<(&str, &str, Option<&str>)> = items
        .iter()
        .map(|e| (e.id.as_str(), e.title.as_str(), e.description.as_deref()))
        .collect();
    assert_eq!(
        seen,
        vec![
            ("https://www.subscene.com/one", "One", Some("English")),
            ("https://www.subscene.com/two", "Two", None),
            ("https://x/three", "Three", Some("German")),
        ]
    );
    assert_eq!(listed(p.search_reply(Ok(html), 1)).len(), 1);
    assert_eq!(failure(p.search_reply(Err("e".to_string()), 1)), failed("HTTP_ERROR", "e"));
}

#[test]
fn subscene_finds_the_download() {
    let p = subscene::SubsceneProvider;
    assert_eq!(failure(answer(p.resolve(&entry("")))), failed("INVALID_URL", "empty entry_id"));
    assert_eq!(
        failure(answer(p.resolve(&entry("https://x/")))),
        failed("INVALID_URL", "URL must be from subscene.com")
    );
    assert_eq!(page(p.resolve(&entry("https://subscene.com/a"))), "https://subscene.com/a");
    let find = |html: &str| subscene::extract_download_link(html);
    assert_eq!(
        find("x\n<a class=\"download\" href=\"/subtitle/1\">"),
        own("https://www.subscene.com/subtitle/1")
    );
    assert_eq!(find("download href=\"a.zip\""), own("https://www.subscene.com/a.zip"));
    assert_eq!(
        find("download href=\"https://evil/a.zip\"\ndownload href=\"b.zip\""),
        own("https://www.subscene.com/b.zip")
    );
    assert_eq!(find("download href=\"a.rar\""), None);
    assert_eq!(
        played(p.resolve_reply(Ok("download href=\"a.zip\"".to_string()))),
        ("https://www.subscene.com/a.zip".to_string(), own("subscene"))
    );
    assert_eq!(
        failure(p.resolve_reply(Ok(String::new()))),
        failed("PARSE_ERROR", "could not find download link")
    );
    assert_eq!(failure(p.resolve_reply(Err("e".to_string()))), failed("HTTP_ERROR", "e"));
    assert_eq!(
        subscene::extract_text_between(to_chars("a<span x>b<").as_slice(), "<span", '<'),
        own("b")
    );
    assert_eq!(subscene::extract_attr(to_chars("href=\"open").as_slice(), "href"), None);
}

// YIFY Subtitles

#[test]
fn yify_trusts_its_own_hosts() {
    for u in [
        "https://yts-subs.com/x",
        "https://WWW.yts-subs.com",
        "https://yifysubtitles.org/a.zip",
        "https://yts-subs.com:443/x",
    ] {
        assert!(yify_subs::is_trusted_url(u), "{u}");
    }
    for u in [
        "http://yts-subs.com/x",
        "https://u@yts-subs.com/",
        "https://u:p@yts-subs.com/",
        "https://yts-subs.com.evil/",
        "https://evil/yts-subs.com",
        "not a url",
        "",
    ] {
        assert!(!yify_subs::is_trusted_url(u), "{u}");
    }
}

#[test]
fn yify_knows_imdb_ids() {
    for s in ["tt123", "tt1", "tt0133093"] {
        assert!(yify_subs::is_imdb_id(s), "{s}");
    }
    for s in ["tt12a", "xx123", "tt", "", "tt１２３"] {
        assert!(!yify_subs::is_imdb_id(s), "{s}");
    }
}

#[test]
fn yify_lists_movies_and_subtitles() {
    let p = yify_subs::YifySubsProvider::new();
    assert_eq!((p.name(), p.version()), ("yify-subs", "0.1.0"));
    assert!(matches!(p.plugin_type(), PluginType::Subtitle));
    assert!(listed(answer(p.search(&query(" ", 1)))).is_empty());
    assert_eq!(page(p.search(&query("tt0133093", 1))), "https://yts-subs.com/movie-imdb/tt0133093");
    assert_eq!(page(p.search(&query("a b", 1))), "https://yts-subs.com/browse?search=a%20b");
    let browse = "<a href=\"/movie-imdb/tt123x\"> The Film </a>\n<a href=\"/movie-imdb/ttx\">no</a>\n<a href=\"/movie-imdb/tt9\"></a>";
    let items = listed(p.search_reply(Ok(browse.to_string()), "film", 0));
    let seen: Vec<(&str, &str, Option<&str>)> = items
        .iter()
        .map(|e| (e.id.as_str(), e.title.as_str(), e.imdb_id.as_deref()))
        .collect();
    assert_eq!(
        seen,
        vec![
            ("https://yts-subs.com/movie-imdb/tt123", "The Film", Some("tt123")),
            ("https://yts-subs.com/movie-imdb/tt9", "tt9", Some("tt9")),
        ]
    );
    let movie = "<a href=\"/subtitles/film-english\"><span>English</span> download</a>\n\
<a href=\"/subtitles/bad slug\"><b>French</b> download\n\
<a href=\"/subtitles/film_de\"><b>German</b> download";
    let items = listed(p.search_reply(Ok(movie.to_string()), " tt0133093 ", 0));
    let seen: Vec<(&str, &str, Option<&str>)> = items
        .iter()
        .map(|e| (e.id.as_str(), e.title.as_str(), e.description.as_deref()))
        .collect();
    assert_eq!(
        seen,
        vec![
            ("film-english", "English", Some("English")),
            ("film_de", "German", Some("German")),
        ]
    );
    assert_eq!(listed(p.search_reply(Ok(movie.to_string()), "tt0133093", 1)).len(), 1);
    assert!(listed(p.search_reply(Err("down".to_string()), "x", 1)).is_empty());
}

#[test]
fn yify_resolves_in_steps() {
    let p = yify_subs::YifySubsProvider::default();
    let first = |id: &str| match p.resolve(&entry(id)) {
        yify_subs::ResolveStep::Answer(a) => Err(failure(a)),
        yify_subs::ResolveStep::FetchMovie(u) => Ok(("movie", u)),
        yify_subs::ResolveStep::FetchSubtitle(u) => Ok(("subtitle", u)),
    };
    assert_eq!(first(""), Err(failed("INVALID_SLUG", "empty entry_id")));
    assert_eq!(first("a b"), Err(failed("INVALID_SLUG", "slug contains invalid characters")));
    assert_eq!(first("https://evil/"), Err(failed("INVALID_URL", "URL must be from yts-subs.com")));
    assert_eq!(first("a-b_1"), Ok(("subtitle", "https://yts-subs.com/subtitles/a-b_1".to_string())));
    assert_eq!(
        first("https://yts-subs.com/movie-imdb/tt1"),
        Ok(("movie", "https://yts-subs.com/movie-imdb/tt1".to_string()))
    );
    assert_eq!(
        page(p.movie_page(Ok("<a href=\"/subtitles/s1\"><b>English</b> download".to_string()))),
        "https://yts-subs.com/subtitles/s1"
    );
    assert_eq!(
        failure(answer(p.movie_page(Ok(String::new())))),
        failed("NO_SUBTITLES", "no subtitles found for this title")
    );
    assert_eq!(failure(answer(p.movie_page(Err("e".to_string())))), failed("HTTP_ERROR", "e"));
    assert_eq!(
        played(p.resolve_reply(Ok("download href=\"/x.zip\"".to_string()))),
        ("https://yts-subs.com/x.zip".to_string(), own("yify-subs"))
    );
    assert_eq!(
        failure(p.resolve_reply(Ok("nothing".to_string()))),
        failed("PARSE_ERROR", "no download link found")
    );
    assert_eq!(failure(p.resolve_reply(Err("e".to_string()))), failed("HTTP_ERROR", "e"));
}

#[test]
fn yify_downloads_come_from_trusted_hosts() {
    let find = |html: &str| yify_subs::extract_download_url(html);
    assert_eq!(find("download href=\"//yifysubtitles.org/a.rar\""), own("https://yifysubtitles.org/a.rar"));
    assert_eq!(find("download href=\"x/download/1\""), own("https://yts-subs.com/x/download/1"));
    assert_eq!(
        find("download href=\"https://evil/a.zip\"\n download href=\"b.zip\""),
        own("https://yts-subs.com/b.zip")
    );
    assert_eq!(find("download href=\"b.txt\""), None);
}

#[test]
fn yify_reads_lines() {
    let cs = |s: &str| to_chars(s);
    assert_eq!(yify_subs::extract_subtitle_slug(&cs("/subtitles/a-b c")), own("a-b"));
    assert_eq!(yify_subs::extract_subtitle_slug(&cs("/subtitles/a.b\"")), None);
    assert_eq!(yify_subs::extract_language(&cs("<a> <b>English<c>")), own("English"));
    assert_eq!(yify_subs::extract_language(&cs("<a>download me<b>")), None);
    assert_eq!(
        yify_subs::extract_language(&cs("<a>abcdefghijklmnopqrstuvwxyzabcd<b>Greek<c>")),
        own("Greek")
    );
    assert_eq!(yify_subs::extract_subtitle_title(&cs("<a> <b> Title <c>")), own("Title"));
    assert_eq!(yify_subs::extract_imdb_id(&cs("/movie-imdb/tt007\"")), own("tt007"));
    assert_eq!(yify_subs::extract_movie_title(&cs("<a> x <b>")), own("x"));
    assert_eq!(yify_subs::extract_movie_title(&cs("<a> <b>")), None);
    assert_eq!(yify_subs::extract_href(&cs("href=\"u\"")), own("u"));
}
