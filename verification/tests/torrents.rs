use stui_plugins::magnet::{bare_magnet_of, parse_release_group, synth_magnet};
use stui_plugins::providers::common::{Reply, SearchAnswer, Step, StreamsAnswer};
use stui_plugins::providers::rutracker::{extract_magnet, html_decode, parse_search_html};
use stui_plugins::providers::{
    animetosho, jackett, nyaa, prowlarr, rutracker, torapi, torrentio,
};
use stui_plugins::release::{extract_codec, extract_hdr, extract_quality, extract_source};
use stui_plugins::sdk::kinds::{EntryKind, SearchScope};
use stui_plugins::sdk::manifest::{PluginManifest, PluginMeta};
use stui_plugins::sdk::plugin::Plugin;
use stui_plugins::sdk::result::{PluginError, PluginResult};
use stui_plugins::sdk::types::{FindStreamsRequest, PluginEntry, SearchRequest, Stream};
use stui_plugins::size::{humanize_bytes, parse_human_size, parse_size_token};
use stui_plugins::text::chars::to_chars;
use stui_plugins::text::table::Table;

fn manifest(name: &str) -> PluginManifest {
    PluginManifest {
        plugin: PluginMeta {
            name: name.to_string(),
        },
    }
}

fn settings(pairs: &[(&str, &str)]) -> Table<String> {
    let mut t = Table::new();
    for (k, v) in pairs {
        t.insert(&format!("__env:{k}"), v.to_string());
    }
    t
}

fn query(q: &str, scope: SearchScope, limit: u32) -> SearchRequest {
    SearchRequest {
        query: q.to_string(),
        scope,
        page: 0,
        limit,
        per_scope_limit: None,
        locale: None,
    }
}

fn wanted(title: &str, kind: EntryKind) -> FindStreamsRequest {
    let mut r = FindStreamsRequest::default();
    r.title = title.to_string();
    r.kind = kind;
    r
}

fn streams(a: StreamsAnswer) -> Vec<Stream> {
    match a {
        PluginResult::Success(r) => r.streams,
        PluginResult::Failure(e) => panic!("{}: {}", e.code, e.message),
    }
}

fn entries(a: SearchAnswer) -> (Vec<PluginEntry>, u32) {
    match a {
        PluginResult::Success(r) => (r.items, r.total),
        PluginResult::Failure(e) => panic!("{}: {}", e.code, e.message),
    }
}

fn failure<T>(a: PluginResult<T>) -> (String, String) {
    match a {
        PluginResult::Failure(PluginError { code, message }) => (code, message),
        PluginResult::Success(_) => panic!("expected a failure"),
    }
}

fn page<A>(s: Step<A>) -> String {
    match s {
        Step::Fetch(u) => u,
        Step::Answer(_) => panic!("expected a page"),
    }
}

fn answer<A>(s: Step<A>) -> A {
    match s {
        Step::Answer(a) => a,
        Step::Fetch(u) => panic!("unexpected page {u}"),
    }
}

fn own(s: &str) -> Option<String> {
    Some(s.to_string())
}

const TRACKERS: &str = "tr=udp%3A%2F%2Ftracker.opentrackr.org%3A1337%2Fannounce\
&tr=udp%3A%2F%2Fopen.demonii.com%3A1337%2Fannounce\
&tr=udp%3A%2F%2Fopen.tracker.cl%3A1337%2Fannounce\
&tr=udp%3A%2F%2Fexodus.desync.com%3A6969%2Fannounce\
&tr=udp%3A%2F%2Ftracker.torrent.eu.org%3A451%2Fannounce";

#[test]
fn extracts_magnet_from_topic_html() {
    let html = r#"<div><a class="magnet-link" href="magnet:?xt=urn:btih:abc123&dn=Foo">link</a></div>"#;
    assert_eq!(
        extract_magnet(html).as_deref(),
        Some("magnet:?xt=urn:btih:abc123&dn=Foo"),
    );
}

#[test]
fn parse_search_html_extracts_topic_id_title_seeders() {
    let html = r#"
            <tr id="trs-tr-12345" class="hl-tr">
                <td><a class="med tLink some-class">My Show S01E01 1080p</a></td>
                <td data-ts_text="1234567890">1.1 GB</td>
                <td class="seedmed"><b>42</b></td>
            </tr>
        "#;
    let rows = parse_search_html(html);
    assert_eq!(rows.len(), 1);
    assert_eq!(rows[0].topic_id, "12345");
    assert_eq!(rows[0].title, "My Show S01E01 1080p");
    assert_eq!(rows[0].seeders, Some(42));
    assert_eq!(rows[0].size_bytes, Some(1234567890));
}

// Release titles

#[test]
fn release_titles_name_their_codec() {
    assert_eq!(extract_codec("Show.x265-GRP"), own("h265"));
    assert_eq!(extract_codec("Show HEVC x264"), own("h265"));
    assert_eq!(extract_codec("Show av1"), own("av1"));
    assert_eq!(extract_codec("Show H.264"), own("h264"));
    assert_eq!(extract_codec("Show"), None);
}

#[test]
fn release_titles_name_their_source() {
    assert_eq!(extract_source("A bluray WEB-DL"), own("BluRay"));
    assert_eq!(extract_source("A BDRemux"), own("BDRemux"));
    assert_eq!(extract_source("A webdl"), own("WEB-DL"));
    assert_eq!(extract_source("A WEBRip"), own("WEBRip"));
    assert_eq!(extract_source("A HDTV"), own("HDTV"));
    assert_eq!(extract_source("A DVDRip"), own("DVDRip"));
    assert_eq!(extract_source("A HDCAM"), own("CAM"));
    assert_eq!(extract_source("A.TS.mkv"), own("TS"));
    assert_eq!(extract_source("A"), None);
}

#[test]
fn release_titles_name_their_quality() {
    assert_eq!(extract_quality("A 2160p UHD"), own("2160p"));
    assert_eq!(extract_quality("A uhd 1080p"), own("uhd"));
    assert_eq!(extract_quality("A 4k"), own("4k"));
    assert_eq!(extract_quality("A bdremux"), own("BD Remux"));
    assert_eq!(extract_quality("A BluRay"), own("Blu-ray"));
    assert_eq!(extract_quality("A web-dl"), own("WEB-DL"));
    assert_eq!(extract_quality("A"), None);
}

#[test]
fn upper_case_beyond_ascii_counts() {
    // The long s has the capital letter S.
    assert_eq!(extract_source("A t\u{17f} B"), own("TS"));
}

#[test]
fn release_titles_tell_of_hdr() {
    for t in ["A hdr10+", "A HDR", "A Dolby Vision", "A DV x", "A DV.mkv"] {
        assert!(extract_hdr(t), "{t}");
    }
    for t in ["A", "ADV", "dvd"] {
        assert!(!extract_hdr(t), "{t}");
    }
}

#[test]
fn release_groups_stand_in_brackets() {
    assert_eq!(
        parse_release_group("  [Erai-raws] Show - 03 [1080p].mkv"),
        own("Erai-raws")
    );
    assert_eq!(parse_release_group("[ A b ] x"), own("A b"));
    assert_eq!(parse_release_group("[] x"), None);
    assert_eq!(parse_release_group("[open"), None);
    assert_eq!(parse_release_group("Show [A]"), None);
}

#[test]
fn magnets_hold_hash_name_and_trackers() {
    assert_eq!(
        bare_magnet_of("abc", "A b"),
        "magnet:?xt=urn:btih:abc&dn=A%20b"
    );
    assert_eq!(
        synth_magnet("abc", "A%20b"),
        format!("magnet:?xt=urn:btih:abc&dn=A%20b&{TRACKERS}")
    );
}

// Sizes

#[test]
fn sizes_are_written_as_by_division() {
    let by_division = |b: u64| -> String {
        let (g, m, k) = (1u64 << 30, 1u64 << 20, 1u64 << 10);
        if b >= g {
            format!("{:.1} GiB", b as f64 / g as f64)
        } else if b >= m {
            format!("{:.0} MiB", b as f64 / m as f64)
        } else if b >= k {
            format!("{:.0} KiB", b as f64 / k as f64)
        } else {
            format!("{} B", b)
        }
    };
    assert_eq!(humanize_bytes(0), "0 B");
    assert_eq!(humanize_bytes(1023), "1023 B");
    assert_eq!(humanize_bytes(1536), "2 KiB");
    assert_eq!(humanize_bytes(2560), "2 KiB");
    assert_eq!(humanize_bytes(1 << 30), "1.0 GiB");
    assert_eq!(humanize_bytes(10_200_547_328), "9.5 GiB");
    assert_eq!(humanize_bytes(u64::MAX), "17179869184.0 GiB");
    let mut x: u64 = 0x9e37_79b9_7f4a_7c15;
    for i in 0..20000u32 {
        x ^= x << 13;
        x ^= x >> 7;
        x ^= x << 17;
        let b = x >> (i % 64);
        assert_eq!(humanize_bytes(b), by_division(b), "{b}");
    }
    for e in 0..64u32 {
        for d in [0u64, 1, 2, 3, 511, 512, 513, 1023] {
            for b in [
                (1u64 << e).wrapping_add(d),
                (1u64 << e).wrapping_sub(d),
                (1u64 << e).wrapping_add(1u64 << (e / 2)),
            ] {
                assert_eq!(humanize_bytes(b), by_division(b), "{b}");
            }
        }
    }
}

#[test]
fn written_sizes_have_a_number_and_a_unit() {
    let read = |s: &str, tera: bool| {
        parse_human_size(to_chars(s).as_slice(), tera).map(|w| (w.number, w.unit))
    };
    assert_eq!(read("2.2 GiB", false), Some(("2.2".to_string(), 1 << 30)));
    assert_eq!(read(" 650   mb x", false), Some(("650".to_string(), 1 << 20)));
    assert_eq!(read("7 KIB", false), Some(("7".to_string(), 1 << 10)));
    assert_eq!(read("7 B", false), Some(("7".to_string(), 1)));
    assert_eq!(read("1.4 TB", false), None);
    assert_eq!(read("1.4 TB", true), Some(("1.4".to_string(), 1 << 40)));
    assert_eq!(read("1.4", true), None);
    assert_eq!(read("", true), None);
}

#[test]
fn sizes_are_found_in_titles() {
    let read = |s: &str| parse_size_token(to_chars(s).as_slice()).map(|w| (w.number, w.unit));
    assert_eq!(read("Show 1999 9.5 GB"), Some(("9.5".to_string(), 1 << 30)));
    assert_eq!(read("1.2.3 GB 4MB"), Some(("4".to_string(), 1 << 20)));
    assert_eq!(read("12 TB"), None);
    assert_eq!(read("none"), None);
}

// Jackett

fn torznab(title: &str, attrs: &[(&str, &str)]) -> jackett::TorznabItem {
    jackett::TorznabItem {
        title: title.to_string(),
        link: None,
        size: None,
        jackettindexer: None,
        attrs: attrs
            .iter()
            .map(|(n, v)| jackett::TorznabAttr {
                name: n.to_string(),
                value: v.to_string(),
            })
            .collect(),
    }
}

#[test]
fn jackett_wants_its_key() {
    let p = jackett::JackettProvider::new(manifest("jackett-provider"));
    assert_eq!(p.manifest().plugin.name, "jackett-provider");
    let message =
        "JACKETT_API_KEY is not set. Add it to ~/.config/stui/config.toml or set the env var.";
    let e = failure(answer(p.search(&Table::new(), &query("q", SearchScope::Movie, 5))));
    assert_eq!(e, ("CONFIG_ERROR".to_string(), message.to_string()));
    let e = failure(answer(
        p.find_streams(&settings(&[("JACKETT_API_KEY", "")]), &wanted("t", EntryKind::Movie)),
    ));
    assert_eq!(e.1, message);
}

#[test]
fn jackett_asks_by_scope_and_kind() {
    let p = jackett::JackettProvider::new(manifest("jackett-provider"));
    let s = settings(&[("JACKETT_API_KEY", "k")]);
    let base = "http://localhost:9117/api/v2.0/indexers/all/results/torznab/api?apikey=k";
    assert_eq!(
        page(p.search(&s, &query("a b", SearchScope::Movie, 5))),
        format!("{base}&t=movie&q=a%20b&cat=2000,2010,2020,2030")
    );
    assert_eq!(
        page(p.search(&s, &query("a", SearchScope::Episode, 5))),
        format!("{base}&t=tvsearch&q=a&cat=5000,5020,5040,5070,5080")
    );
    assert_eq!(
        page(p.search(&s, &query("a", SearchScope::Album, 5))),
        format!("{base}&t=music&q=a&cat=3000,3010,3020,3040")
    );
    let mut req = wanted("Show", EntryKind::Series);
    req.year = Some(1999);
    req.season = Some(1);
    req.episode = Some(12);
    assert_eq!(
        page(p.find_streams(&s, &req)),
        format!("{base}&t=tvsearch&q=Show&cat=5000,5020,5040,5070,5080&season=1&ep=12")
    );
    let mut req = wanted("Film", EntryKind::Movie);
    req.year = Some(1999);
    assert_eq!(
        page(p.find_streams(&s, &req)),
        format!("{base}&t=movie&q=Film%201999&cat=2000,2010,2020,2030")
    );
    assert_eq!(
        page(p.find_streams(&s, &wanted("X", EntryKind::Track))),
        format!("{base}&t=search&q=X&cat=2000,5000")
    );
}

#[test]
fn jackett_items_become_streams() {
    let p = jackett::JackettProvider::new(manifest("jackett-provider"));
    let mut linked = torznab("Linked", &[("seeders", "-3"), ("size", "0")]);
    linked.link = own("http://l");
    linked.jackettindexer = Some(jackett::JackettIndexer {
        name: "1337x".to_string(),
    });
    let got = streams(p.find_streams_reply(Reply::Parsed(vec![
        torznab(
            "A 1080p x264 WEB-DL",
            &[("magneturl", "magnet:m"), ("infohash", "h"), ("seeders", "7"), ("size", "5")],
        ),
        torznab("B c", &[("magneturl", ""), ("infohash", "h"), ("seeders", "x")]),
        torznab("nothing", &[]),
        linked,
    ])));
    assert_eq!(got.len(), 3);
    assert_eq!(got[0].url, "magnet:m");
    assert_eq!(got[0].provider, "jackett-provider");
    assert_eq!(got[0].quality, own("1080p"));
    assert_eq!(got[0].codec, own("h264"));
    assert_eq!(got[0].source, own("WEB-DL"));
    assert!(!got[0].hdr);
    assert_eq!((got[0].seeders, got[0].size_bytes), (Some(7), Some(5)));
    assert_eq!(got[1].url, "magnet:?xt=urn:btih:h&dn=B%20c");
    assert_eq!((got[1].seeders, got[1].size_bytes), (None, None));
    assert_eq!(got[2].url, "http://l");
    assert_eq!(got[2].provider, "1337x");
    assert_eq!((got[2].seeders, got[2].size_bytes), (Some(0), None));
    assert!(got.iter().all(|s| !s.url.is_empty()));
}

#[test]
fn jackett_items_become_entries() {
    let p = jackett::JackettProvider::new(manifest("jackett-provider"));
    let mut first = torznab(
        "A 1080p",
        &[("infohash", "h"), ("seeders", "7"), ("peers", "9"), ("imdbid", "123")],
    );
    first.link = own("http://l");
    first.size = Some(2048);
    first.jackettindexer = Some(jackett::JackettIndexer {
        name: "1337x".to_string(),
    });
    let second = torznab("B", &[("seeders", "9"), ("peers", "7"), ("imdb", "tt5")]);
    let third = torznab("C", &[]);
    let (items, total) = entries(p.search_reply(
        Reply::Parsed(vec![first, second, third]),
        SearchScope::Episode,
        2,
    ));
    assert_eq!(total, 2);
    assert_eq!(items[0].id, "h||http://l");
    assert_eq!(items[0].kind, EntryKind::Series);
    assert_eq!(items[0].description, own("1080p · 2 KiB  ↑7 ↓2  1337x"));
    assert_eq!(items[0].imdb_id, own("tt123"));
    assert_eq!(items[1].id, "||");
    assert_eq!(items[1].description, own("0 B  ↑9 ↓0  "));
    assert_eq!(items[1].imdb_id, own("tt5"));
    assert_eq!(items[1].source, "");
}

#[test]
fn jackett_reports_failures() {
    let p = jackett::JackettProvider::new(manifest("jackett-provider"));
    let e = failure(p.search_reply(
        Reply::HttpError("down".to_string()),
        SearchScope::Movie,
        5,
    ));
    assert_eq!(e, ("HTTP_ERROR".to_string(), "down".to_string()));
    let e = failure(p.find_streams_reply(Reply::ParseError("bad".to_string())));
    assert_eq!(e, ("PARSE_ERROR".to_string(), "bad".to_string()));
}

// Prowlarr

fn hit(title: &str) -> prowlarr::ProwlarrResult {
    prowlarr::ProwlarrResult {
        title: title.to_string(),
        size: 0,
        seeders: 0,
        leechers: 0,
        indexer: None,
        protocol: None,
        download_url: None,
        magnet_url: None,
        info_url: None,
        info_hash: None,
        imdb_id: None,
        tmdb_id: None,
    }
}

#[test]
fn prowlarr_asks_with_its_key() {
    let p = prowlarr::ProwlarrProvider::new(manifest("prowlarr-provider"));
    let e = failure(answer(p.search(&Table::new(), &query("q", SearchScope::Movie, 5))));
    assert_eq!(
        e,
        (
            "CONFIG_ERROR".to_string(),
            "PROWLARR_API_KEY is not set. Add it to ~/.config/stui/config.toml or set the env var."
                .to_string()
        )
    );
    let s = settings(&[("PROWLARR_API_KEY", "k"), ("PROWLARR_URL", "http://p")]);
    assert_eq!(
        page(p.search(&s, &query("a b", SearchScope::Track, 5))),
        "http://p/api/v1/search?query=a%20b&indexerIds=-1&categories=3000&categories=3010&categories=3020&categories=3040&type=search&apikey=k"
    );
    let mut req = wanted("Show", EntryKind::Series);
    req.season = Some(1);
    req.episode = Some(2);
    assert_eq!(
        page(p.find_streams(&s, &req)),
        "http://p/api/v1/search?query=Show%20S01E02&indexerIds=-1&categories=5000&categories=5020&categories=5040&categories=5070&categories=5080&type=search&apikey=k"
    );
    assert_eq!(
        page(p.find_streams(&s, &wanted("X", EntryKind::Album))),
        "http://p/api/v1/search?query=X&indexerIds=-1&categories=2000&categories=5000&type=search&apikey=k"
    );
}

#[test]
fn prowlarr_queries_name_season_episode_or_year() {
    let mut req = wanted("T", EntryKind::Movie);
    assert_eq!(prowlarr::build_query(&req), "T");
    req.year = Some(1999);
    assert_eq!(prowlarr::build_query(&req), "T 1999");
    req.episode = Some(3);
    assert_eq!(prowlarr::build_query(&req), "T 1999");
    req.season = Some(123);
    assert_eq!(prowlarr::build_query(&req), "T S123E03");
    req.episode = None;
    req.season = Some(1);
    assert_eq!(prowlarr::build_query(&req), "T S01");
    assert_eq!(prowlarr::build_cat_params("1, 2"), "categories=1&categories=2");
}

#[test]
fn prowlarr_hits_become_streams() {
    let p = prowlarr::ProwlarrProvider::new(manifest("prowlarr-provider"));
    let mut a = hit("A");
    a.magnet_url = own("magnet:m");
    a.download_url = own("http://d");
    a.seeders = -1;
    let mut b = hit("B");
    b.magnet_url = own("");
    b.download_url = own("http://d");
    b.info_hash = own("h");
    b.indexer = own("1337x");
    b.seeders = 4;
    b.size = 9;
    let mut c = hit("C d");
    c.info_hash = own("h");
    let got = streams(p.find_streams_reply(Reply::Parsed(vec![a, b, c, hit("none")])));
    assert_eq!(got.len(), 3);
    assert_eq!(got[0].url, "magnet:m");
    assert_eq!((got[0].seeders, got[0].size_bytes), (None, None));
    assert_eq!(got[0].provider, "prowlarr-provider");
    assert_eq!(got[1].url, "http://d");
    assert_eq!((got[1].seeders, got[1].size_bytes), (Some(4), Some(9)));
    assert_eq!(got[1].provider, "1337x");
    assert_eq!(got[2].url, "magnet:?xt=urn:btih:h&dn=C%20d");
}

#[test]
fn prowlarr_hits_become_entries() {
    let p = prowlarr::ProwlarrProvider::new(manifest("prowlarr-provider"));
    let mut a = hit("A 720p");
    a.info_hash = own("h");
    a.download_url = own("http://d|e");
    a.indexer = own("ix");
    a.protocol = own("torrent");
    a.info_url = own("http://i");
    a.imdb_id = Some(123);
    a.seeders = -2;
    a.leechers = 3;
    let mut b = hit("B");
    b.imdb_id = Some(0);
    let (items, total) = entries(p.search_reply(Reply::Parsed(vec![a, b]), SearchScope::Movie, 9));
    assert_eq!(total, 2);
    assert_eq!(items[0].id, "h|http://d|e");
    assert_eq!(
        items[0].description,
        own("720p · 0 B  ↑-2 ↓3  ix · Protocol: torrent  InfoURL: http://i")
    );
    assert_eq!(items[0].imdb_id, own("tt0000123"));
    assert_eq!(items[0].kind, EntryKind::Movie);
    assert_eq!(
        prowlarr::parse_entry_id(&items[0].id),
        ("h".to_string(), "http://d|e".to_string())
    );
    assert_eq!(items[1].description, own("0 B  ↑0 ↓0   · Protocol:   InfoURL: "));
    assert_eq!(items[1].imdb_id, None);
    assert_eq!(
        prowlarr::parse_entry_id("bare"),
        ("bare".to_string(), String::new())
    );
}

// AnimeTosho

fn tosho(title: &str) -> animetosho::ToshoEntry {
    animetosho::ToshoEntry {
        title: title.to_string(),
        magnet_uri: None,
        torrent_url: None,
        info_hash: None,
        total_size: None,
        status: None,
        nyaa_id: None,
        anidex_id: None,
        nekobt_id: None,
        seeders: None,
    }
}

#[test]
fn animetosho_asks_for_title_and_episode() {
    let p = animetosho::AnimeToshoProvider::new(manifest("animetosho-provider"));
    let mut req = wanted(" Show ", EntryKind::Series);
    req.episode = Some(3);
    assert_eq!(
        page(p.find_streams(&Table::new(), &req)),
        "https://animetosho.org/feed/json?q=Show&qx=1"
    );
    req.season = Some(1);
    assert_eq!(
        page(p.find_streams(
            &settings(&[("ANIMETOSHO_BASE_URL", "http://t//"), ("ANIMETOSHO_QX", "0")]),
            &req
        )),
        "http://t/feed/json?q=Show%2003&qx=0"
    );
    assert!(streams(answer(p.find_streams(&Table::new(), &wanted(" ", EntryKind::Movie)))).is_empty());
    assert_eq!(
        failure(p.search(&query("q", SearchScope::Movie, 1))),
        (
            "UNSUPPORTED".to_string(),
            "animetosho is wired for streams only — use anilist/jackett for catalog browse"
                .to_string()
        )
    );
}

#[test]
fn animetosho_hands_out_good_torrents() {
    let p = animetosho::AnimeToshoProvider::new(manifest("animetosho-provider"));
    let mut list = Vec::new();
    for status in [1u32, 2, 4, 8] {
        let mut e = tosho(&format!("[Grp] Show {status}"));
        e.magnet_uri = own("magnet:m");
        e.status = Some(status);
        list.push(e);
    }
    let mut hashed = tosho("Show x");
    hashed.info_hash = own("h");
    hashed.torrent_url = own("http://t");
    hashed.anidex_id = Some(5);
    hashed.seeders = Some(-2);
    hashed.total_size = Some(0);
    list.push(hashed);
    let mut filed = tosho("Show y");
    filed.torrent_url = own("http://t");
    filed.total_size = Some(8);
    list.push(filed);
    list.push(tosho("nothing"));
    let got = streams(p.find_streams_reply(Reply::Parsed(list)));
    assert_eq!(got.len(), 3);
    assert_eq!((got[0].title.as_str(), got[0].provider.as_str()), ("[Grp] Show 1", "Grp"));
    assert_eq!(
        got[1].url,
        format!("magnet:?xt=urn:btih:h&dn=Show%20x&{TRACKERS}")
    );
    assert_eq!(got[1].provider, "AniDex");
    assert_eq!((got[1].seeders, got[1].size_bytes), (Some(0), None));
    assert_eq!(got[2].url, "http://t");
    assert_eq!(got[2].provider, "animetosho-provider");
    assert_eq!(got[2].size_bytes, Some(8));
}

// Nyaa

#[test]
fn nyaa_asks_and_answers() {
    let p = nyaa::NyaaProvider::new(manifest("nyaa-provider"));
    let mut req = wanted("Show", EntryKind::Series);
    req.episode = Some(3);
    assert_eq!(
        page(p.find_streams(&Table::new(), &req)),
        "https://nyaa.si/?page=rss&q=Show%2003&c=1_0&f=0"
    );
    assert!(streams(answer(p.find_streams(&Table::new(), &wanted("", EntryKind::Movie)))).is_empty());
    let item = |title: &str, hash: Option<String>, link: Option<String>, seeders: &str| nyaa::NyaaItem {
        title: title.to_string(),
        link,
        seeders: own(seeders),
        leechers: None,
        info_hash: hash,
        size_bytes: Some(6),
        trusted: None,
    };
    let got = streams(p.find_streams_reply(Reply::Parsed(vec![
        item("[G] A", own("h"), own("http://l"), "+5"),
        item("B", own(""), own("http://l"), "-1"),
        item("C", None, None, "1"),
        item("D", None, own("http://l"), "x"),
    ])));
    assert_eq!(got.len(), 3);
    assert_eq!(got[0].url, format!("magnet:?xt=urn:btih:h&dn=%5BG%5D%20A&{TRACKERS}"));
    assert_eq!((got[0].provider.as_str(), got[0].seeders, got[0].size_bytes), ("G", Some(5), Some(6)));
    assert_eq!((got[1].url.as_str(), got[1].provider.as_str(), got[1].seeders), ("http://l", "nyaa-provider", Some(0)));
    assert_eq!(got[2].seeders, None);
    assert_eq!(failure(p.search(&query("q", SearchScope::Movie, 1))).0, "UNSUPPORTED");
}

// TorAPI

#[test]
fn torapi_asks_and_answers() {
    let p = torapi::TorApiProvider::new(manifest("torapi-provider"));
    let mut req = wanted("Film", EntryKind::Movie);
    req.year = Some(1999);
    assert_eq!(
        page(p.find_streams(&Table::new(), &req)),
        "https://torapi.vercel.app/api/search/title/all?query=Film%201999&limit=20"
    );
    let item = |name: &str, hash: Option<String>| torapi::TorApiItem {
        name: name.to_string(),
        hash,
        torrent: own("http://t"),
        size_bytes: None,
        seeds: own("3"),
        peers: None,
    };
    let got = streams(p.find_streams_reply(Reply::Parsed(torapi::TorApiResponse {
        rutracker: vec![item("walled", None)],
        kinozal: vec![item("K", None)],
        rutor: vec![item("R", own("h"))],
        nonameclub: vec![item("N", own(""))],
    })));
    let seen: Vec<(&str, &str)> =
        got.iter().map(|s| (s.title.as_str(), s.provider.as_str())).collect();
    assert_eq!(seen, vec![("R", "RuTor"), ("K", "Kinozal"), ("N", "NoNameClub")]);
    assert_eq!(got[0].url, format!("magnet:?xt=urn:btih:h&dn=R&{TRACKERS}"));
    assert_eq!(got[1].url, "http://t");
    assert_eq!(got[1].seeders, Some(3));
    assert_eq!(failure(p.find_streams_reply(Reply::HttpError("x".to_string()))).0, "HTTP_ERROR");
}

// Torrentio

#[test]
fn torrentio_asks_by_imdb_id() {
    let p = torrentio::TorrentioProvider::new(manifest("torrentio-provider"));
    let none = Table::new();
    assert!(streams(answer(p.find_streams(&none, &wanted("T", EntryKind::Movie)))).is_empty());
    let mut req = wanted("T", EntryKind::Movie);
    req.imdb_id = own("tt0816692");
    assert_eq!(
        page(p.find_streams(&none, &req)),
        "https://torrentio.strem.fun/stream/movie/tt0816692.json"
    );
    let mut req = wanted("T", EntryKind::Episode);
    req.imdb_id = own("");
    req.external_ids.insert("imdb", "tt0944947".to_string());
    assert!(streams(answer(p.find_streams(&none, &req))).is_empty());
    req.season = Some(1);
    req.episode = Some(2);
    assert_eq!(
        page(p.find_streams(
            &settings(&[
                ("TORRENTIO_PROVIDERS", "yts|eztv"),
                ("TORRENTIO_DEBRID", "realdebrid=T"),
                ("TORRENTIO_BASE_URL", "http://x/")
            ]),
            &req
        )),
        "http://x/providers=yts|eztv|realdebrid=T/stream/series/tt0944947:1:2.json"
    );
    req.kind = EntryKind::Track;
    assert!(streams(answer(p.find_streams(&none, &req))).is_empty());
    assert_eq!(
        failure(p.search(&query("q", SearchScope::Movie, 1))).1,
        "torrentio is IMDB-keyed only — no text search"
    );
}

#[test]
fn torrentio_titles_are_taken_apart() {
    let title = "The Matrix 1999 1080p BluRay x264-AMIABLE\n👤 1,234 💾 9.5 GB ⚙️ The_Pirate.Bay x\nMulti Audio";
    assert_eq!(
        torrentio::first_line(title),
        "The Matrix 1999 1080p BluRay x264-AMIABLE"
    );
    assert_eq!(torrentio::parse_indexer(title), own("The_Pirate.Bay x"));
    assert_eq!(torrentio::parse_indexer("a ⚙️ ThePirateBay"), own("ThePirateBay"));
    assert_eq!(torrentio::parse_indexer("a ⚙️ Nyaa Si 👤 5"), own("Nyaa Si"));
    assert_eq!(torrentio::parse_indexer("⚙️ \nnext"), None);
    assert_eq!(torrentio::parse_indexer("⚙️ RARBG 🇬🇧"), own("RARBG"));
    assert_eq!(torrentio::parse_indexer("⚙️ Кинозал ⭐ 5"), own("Кинозал"));
    assert_eq!(torrentio::parse_indexer("no mark"), None);
    assert_eq!(torrentio::parse_indexer("⚙️ "), None);
    assert_eq!(torrentio::parse_seeders(title), Some(1234));
    assert_eq!(torrentio::parse_seeders("Seeders: 12,5"), Some(12));
    assert_eq!(torrentio::parse_seeders("👤 x SEEDS: 7"), Some(7));
    assert_eq!(torrentio::parse_seeders("👤 99999999999"), None);
    assert_eq!(torrentio::parse_seeders("none"), None);
    let size = torrentio::parse_size(title).unwrap();
    assert_eq!((size.number.as_str(), size.unit), ("9.5", 1 << 30));
    let size = torrentio::parse_size("4 MB 💾 none").unwrap();
    assert_eq!((size.number.as_str(), size.unit), ("4", 1 << 20));
    assert!(torrentio::parse_size("none").is_none());
}

#[test]
fn torrentio_hands_out_streams() {
    let p = torrentio::TorrentioProvider::new(manifest("torrentio-provider"));
    let item = |title: &str, hash: &str, url: &str| torrentio::TorrentioStream {
        name: "Torrentio\n4k".to_string(),
        title: title.to_string(),
        info_hash: own(hash),
        url: own(url),
        size_bytes: Some(11),
    };
    let got = streams(p.find_streams_reply(Reply::Parsed(vec![
        item("A 720p\n👤 2 ⚙️ YTS", "h", ""),
        item("B", "h", "http://d"),
        item("C", "", ""),
    ])));
    assert_eq!(got.len(), 2);
    assert_eq!(got[0].url, format!("magnet:?xt=urn:btih:h&dn=A%20720p&{TRACKERS}"));
    assert_eq!((got[0].title.as_str(), got[0].provider.as_str()), ("A 720p", "YTS"));
    assert_eq!((got[0].seeders, got[0].size_bytes), (Some(2), Some(11)));
    assert_eq!((got[1].url.as_str(), got[1].provider.as_str()), ("http://d", "torrentio-provider"));
}

// RuTracker

#[test]
fn rutracker_configuration() {
    let p = rutracker::RuTrackerProvider::new(manifest("rutracker-provider"));
    let req = wanted("Film", EntryKind::Movie);
    match p.find_streams(&Table::new(), &req) {
        rutracker::SearchStep::Answer(a) => assert_eq!(
            failure(a),
            (
                "CONFIG_ERROR".to_string(),
                "RUTRACKER_BB_SESSION is empty — paste the bb_session cookie value from a logged-in browser into the plugin config".to_string()
            )
        ),
        _ => panic!("expected an answer"),
    }
    let load = |max: &str| {
        rutracker::Config::load(&settings(&[
            ("RUTRACKER_BB_SESSION", "s"),
            ("RUTRACKER_MAX_RESULTS", max),
        ]))
        .unwrap()
        .max_results
    };
    assert_eq!(load("3"), 3);
    assert_eq!(load("0"), 1);
    assert_eq!(load("99"), 50);
    assert_eq!(load("x"), 8);
    assert_eq!(load("-1"), 8);
}

#[test]
fn rutracker_rows_are_read_one_by_one() {
    let html = "<tr id=\"trs-tr-1\"><a class=\"tLink\">A &amp; B&nbsp;</a></tr>\
<tr id=\"trs-tr-2\"><a>no title</a></tr>\
<tr id=\"trs-tr-3\"><a class=\"tLink\">C</a><td class=\"seedmed\"><b> x </b></td></tr>\
<tr id=\"trs-tr-4\"><a class=\"tLink\">open</a>";
    let rows = parse_search_html(html);
    assert_eq!(rows.len(), 2);
    assert_eq!((rows[0].topic_id.as_str(), rows[0].title.as_str()), ("1", "A & B"));
    assert_eq!((rows[0].seeders, rows[0].size_bytes), (None, None));
    assert_eq!((rows[1].topic_id.as_str(), rows[1].seeders), ("3", None));
    assert_eq!(
        html_decode(to_chars(" &lt;&laquo;x&raquo;&gt; &mdash;&ndash;&quot;&#039; ").as_slice()),
        "<«x»> —–\"'"
    );
}

#[test]
fn rutracker_sessions_expire() {
    let p = rutracker::RuTrackerProvider::new(manifest("rutracker-provider"));
    let cfg = rutracker::Config::load(&settings(&[("RUTRACKER_BB_SESSION", "s")])).unwrap();
    for html in ["<input name=\"login_username\">", "login.php"] {
        match p.search_page(&cfg, Ok(html.to_string())) {
            rutracker::TopicStep::Answer(a) => assert_eq!(failure(a).0, "AUTH_ERROR"),
            _ => panic!("expected an answer"),
        }
    }
    match p.search_page(&cfg, Ok("login.php class=\"hl-tr\"".to_string())) {
        rutracker::TopicStep::Topics(t) => assert!(t.is_empty()),
        _ => panic!("expected topics"),
    }
    match p.search_page(&cfg, Err("down".to_string())) {
        rutracker::TopicStep::Answer(a) => {
            assert_eq!(failure(a), ("HTTP_ERROR".to_string(), "down".to_string()))
        }
        _ => panic!("expected an answer"),
    }
}

#[test]
fn rutracker_topics_become_streams() {
    let p = rutracker::RuTrackerProvider::new(manifest("rutracker-provider"));
    let cfg = rutracker::Config::load(&settings(&[
        ("RUTRACKER_BB_SESSION", "s"),
        ("RUTRACKER_MAX_RESULTS", "2"),
        ("RUTRACKER_BASE_URL", "http://r/"),
    ]))
    .unwrap();
    let row = |n: u32| format!("<tr id=\"trs-tr-{n}\"><a class=\"tLink\">T{n} 1080p</a></tr>");
    let html = format!("{}{}{}", row(1), row(2), row(3));
    let topics = match p.search_page(&cfg, Ok(html)) {
        rutracker::TopicStep::Topics(t) => t,
        _ => panic!("expected topics"),
    };
    assert_eq!(topics.len(), 2);
    assert_eq!(
        rutracker::RuTrackerProvider::topic_url(&cfg, &topics[0]),
        "http://r/forum/viewtopic.php?t=1"
    );
    let mut pages = vec![own("no magnet"), own("<a href=\"magnet:?x\">")];
    let pairs = topics.into_iter().map(|t| (t, pages.remove(0))).collect();
    let got = streams(p.topic_pages(pairs));
    assert_eq!(got.len(), 1);
    assert_eq!((got[0].url.as_str(), got[0].provider.as_str()), ("magnet:?x", "RuTracker"));
    assert_eq!((got[0].title.as_str(), got[0].quality.as_deref()), ("T2 1080p", Some("1080p")));
}

#[test]
fn rutracker_asks_with_its_cookie() {
    let p = rutracker::RuTrackerProvider::new(manifest("rutracker-provider"));
    let mut req = wanted(" Film ", EntryKind::Movie);
    req.year = Some(1999);
    assert_eq!(rutracker::build_query(&req), "Film 1999");
    req.kind = EntryKind::Series;
    assert_eq!(rutracker::build_query(&req), "Film");
    match p.find_streams(&settings(&[("RUTRACKER_BB_SESSION", "s")]), &req) {
        rutracker::SearchStep::Fetch { url, cookie, .. } => {
            assert_eq!(url, "https://rutracker.org/forum/tracker.php?nm=Film");
            assert_eq!(cookie, "bb_session=s");
        }
        _ => panic!("expected a page"),
    }
}
