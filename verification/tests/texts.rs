use stui_plugins::json::Json;
use stui_plugins::sdk::auth::parse_auth_json;
use stui_plugins::sdk::capabilities::{
    normalize_crew_role, CrewRole, DefaultPluginLogger, InitResultEnvelope, PluginInitError,
    PluginLogger,
};
use stui_plugins::sdk::cell::WasmPluginCell;
use stui_plugins::sdk::description::{clean_description, find_trailing_source_attribution};
use stui_plugins::sdk::host;
use stui_plugins::sdk::id_sources;
use stui_plugins::sdk::kinds::{EntryKind, SearchScope};
use stui_plugins::sdk::logging::log_url;
use stui_plugins::sdk::plugin::PluginType;
use stui_plugins::sdk::result::PluginResult;
use stui_plugins::sdk::testing::MockHost;
use stui_plugins::sdk::types::{FindStreamsRequest, PluginEntry};
use stui_plugins::text::chars::{is_space, to_chars, to_text};
use stui_plugins::text::number::{
    decimal_text, padded_text, parse_i32, parse_natural, parse_u64, signed_text,
};
use stui_plugins::text::order::sort_by_key;
use stui_plugins::text::percent::url_encode;
use stui_plugins::text::replace::{replace_all, replace_all_any_case};
use stui_plugins::text::split::{join_texts, lines_of, split_at_char};
use stui_plugins::text::table::Table;
use stui_plugins::text::trim::{trim_tail_char, trim_text};

// Text

#[test]
fn spaces_are_those_of_unicode() {
    for n in 0u32..=0x10ffff {
        if let Some(c) = char::from_u32(n) {
            assert_eq!(is_space(c), c.is_whitespace(), "{n:x}");
        }
    }
}

#[test]
fn trimming_takes_spaces_off_both_ends() {
    for s in ["", " ", " a b\u{3000}\n", "a", "\u{200b}a ", "\u{85}x\u{a0}"] {
        assert_eq!(trim_text(s), s.trim());
    }
    let cs = to_chars("a//");
    assert_eq!(to_text(trim_tail_char(&cs, '/')), "a");
}

#[test]
fn numbers_are_written_and_read() {
    for n in [0u64, 7, 10, 99, 12345, u64::MAX] {
        assert_eq!(decimal_text(n), n.to_string());
        assert_eq!(parse_u64(&decimal_text(n)), Some(n));
        assert_eq!(padded_text(n, 7), format!("{n:07}"));
    }
    for n in [0i64, -1, 5, i64::MAX, i64::MIN + 1] {
        assert_eq!(signed_text(n), n.to_string());
    }
    for s in ["", "+", "-", "+5", "-0", "-5", "007", "1_0", " 1", "1 ", "\u{661}", "2147483647",
        "2147483648", "-2147483648", "-2147483649", "18446744073709551615", "18446744073709551616", "++1", "x"]
    {
        assert_eq!(parse_u64(s), s.parse::<u64>().ok(), "{s}");
        assert_eq!(parse_i32(s), s.parse::<i32>().ok(), "{s}");
        assert_eq!(
            parse_natural(&to_chars(s), u32::MAX as u64),
            s.parse::<u32>().ok().map(u64::from),
            "{s}"
        );
    }
}

#[test]
fn percent_encoding() {
    assert_eq!(url_encode("aZ09-_.~"), "aZ09-_.~");
    assert_eq!(url_encode(" /?\u{e9}\u{1f600}\n"), "%20%2F%3F%C3%A9%F0%9F%98%80%0A");
    assert_ne!(url_encode("%20"), url_encode(" "));
}

#[test]
fn lines_and_pieces() {
    let pieces = |s: &str| -> Vec<String> {
        split_at_char(&to_chars(s), ',').into_iter().map(to_text).collect()
    };
    let rows = |s: &str| -> Vec<String> {
        lines_of(&to_chars(s)).into_iter().map(to_text).collect()
    };
    for s in ["", ",", "a,b,,c,", "abc"] {
        assert_eq!(pieces(s), s.split(',').map(String::from).collect::<Vec<_>>());
    }
    for s in ["", "\n", "a\nb", "a\r\nb\n", "a\r", "\r\n\n\r", "a\n\nb\r\r\n"] {
        assert_eq!(rows(s), s.lines().map(String::from).collect::<Vec<_>>(), "{s:?}");
    }
    assert_eq!(join_texts(&vec!["a".to_string(), "b".to_string()], "&"), "a&b");
    assert_eq!(join_texts(&vec![], "&"), "");
}

#[test]
fn replacing() {
    for (s, from, to) in [("aaa", "aa", "b"), ("&amp;lt;", "&amp;", "&"), ("x", "y", "z"), ("", "a", "b")] {
        assert_eq!(to_text(&replace_all(&to_chars(s), from, to)), s.replace(from, to));
    }
    assert_eq!(to_text(&replace_all_any_case(&to_chars("a<BR>b<bR>c"), "<br>", "\n")), "a\nb\nc");
}

#[test]
fn pairs_are_sorted_by_key_and_keep_their_order() {
    let given = [("b", "1"), ("a", "2"), ("b", "0"), ("", "3"), ("\u{e9}", "4"), ("ab", "5")];
    let mut wanted = given.to_vec();
    wanted.sort_by_key(|&(k, _)| k);
    assert_eq!(sort_by_key(&given), wanted);
}

#[test]
fn tables_keep_the_last_value() {
    let mut t = Table::new();
    assert!(t.get("a").is_none());
    t.insert("a", 1);
    t.insert("b", 2);
    t.insert("a", 3);
    assert_eq!((t.get("a"), t.get("b"), t.contains_key("c")), (Some(&3), Some(&2), false));
    t.clear();
    assert!(!t.contains_key("a"));
}

// JSON

#[test]
fn json_is_read() {
    let v = Json::parse(r#"{"s":"t","n":5,"m":-5,"x":1.5,"a":[1,"b"],"e":"","o":{"k":null},"s":"u"}"#).unwrap();
    assert_eq!(v.get("s").text(), Some("u".to_string()));
    assert_eq!(v.get("none").text_or("d"), "d");
    assert_eq!(v.get("e").filled(), None);
    assert_eq!(v.get("n").uint_or_zero(), 5);
    assert_eq!(v.get("m").uint_or_zero(), 0);
    assert_eq!(v.get("x").uint_or_zero(), 0);
    assert_eq!((v.get("m").as_i64(), v.get("n").as_i64(), v.get("x").as_i64()), (Some(-5), Some(5), None));
    assert_eq!(v.get("a").as_array().unwrap().len(), 2);
    assert_eq!(v.get("a").first().uint_or_zero(), 1);
    assert!(matches!(v.get("o").get("k"), Json::Null));
    assert!(matches!(v.get("s").get("k").first(), Json::Null));
    assert!(matches!(Json::parse("18446744073709551615").unwrap(), Json::Uint(u64::MAX)));
    assert_eq!(
        Json::parse("{").err(),
        serde_json::from_str::<serde_json::Value>("{").err().map(|e| e.to_string())
    );
}

// Descriptions

#[test]
fn descriptions_are_cleaned() {
    assert_eq!(clean_description("a<Br />b<BR>c"), "a\nb\nc");
    assert_eq!(clean_description("1 < 2"), "1 < 2");
    assert_eq!(clean_description("a <b>x</b> > y"), "a x > y");
    assert_eq!(clean_description("&amp;lt;&nbsp;&#039;&apos;"), "< ''");
    assert_eq!(clean_description(" a\n\n\n\n\nb "), "a\n\nb");
    assert_eq!(clean_description("Text.\n(SOURCE: ANN, edited)"), "Text.");
    assert_eq!(clean_description("Text (source code) on\nanother line"), "Text (source code) on\nanother line");
    assert_eq!(clean_description("(Source: A) then (Source: B)"), "(Source: A) then");
    assert_eq!(clean_description("A (Source: X) and more."), "A (Source: X) and more.");
    assert_eq!(clean_description("A (Source: X) (see B)"), "A (Source: X) (see B)");
    assert_eq!(clean_description("Plot. (Source: Wiki (en))"), "Plot.");
    assert_eq!(clean_description("Plot. (Source: Wiki (en), edited (x)) "), "Plot.");
    assert_eq!(clean_description("Plot. (Source: Wiki (en)"), "Plot.");
    assert_eq!(clean_description("Plot. (Source: Wiki (en)) on"), "Plot. (Source: Wiki (en)) on");
    assert_eq!(clean_description("(see (Source: X))"), "(see (Source: X))");
    assert_eq!(clean_description("A (Source: X)  "), "A");
    let long = format!("A (source: {}) end", "x".repeat(200));
    assert_eq!(clean_description(&long), long);
    for s in ["A perfectly normal description.", "a\n\nb", ""] {
        assert_eq!(clean_description(s), s);
    }
    assert_eq!(
        clean_description("<i>Note: Mahō…</i><br><br>\nIn a world<br>\n(Source: Crunchyroll)"),
        "Note: Mahō…\n\nIn a world"
    );
    assert_eq!(find_trailing_source_attribution(&to_chars("ab (Source: x)")), Some(3));
    assert_eq!(find_trailing_source_attribution(&to_chars("ab")), None);
}

// Logged addresses

#[test]
fn logged_addresses_hide_secrets() {
    assert_eq!(
        log_url("https://api.example.com/x?query=matrix&api_key=deadbeef"),
        "https://api.example.com/x?query=matrix&api_key=***"
    );
    assert_eq!(log_url("u?secret=a=b&key&Token=#key=x?y"), "u?secret=***&key&Token=***#key=x?y");
    assert_eq!(log_url("u?mykey=1&keys=2"), "u?mykey=1&keys=2");
    assert_eq!(log_url("u#f?key=1"), "u#f?key=1");
    assert_eq!(log_url("https://a/b#f?token=X"), "https://a/b#f?token=X");
    assert_eq!(log_url("u?key=1#f?key=2#key=3"), "u?key=***#f?key=2#key=3");
    let once = log_url("u?a=1&KEY=2#f");
    assert_eq!(log_url(&once), once);
}

// The host

#[test]
fn packed_places_are_unpacked() {
    assert_eq!(host::pack(1, 2), 0x1_0000_0002);
    for (p, l) in [(0, 0), (u32::MAX, u32::MAX), (0x8000_0000, 7)] {
        assert_eq!(host::unpack(host::pack(p, l)), (p, l));
    }
    assert_eq!(host::STUI_ABI_VERSION, 1);
}

#[test]
fn host_replies_become_results() {
    assert_eq!(host::http_outcome(200, "b".to_string()), Ok("b".to_string()));
    assert_eq!(host::http_outcome(299, "b".to_string()), Ok("b".to_string()));
    assert_eq!(host::http_outcome(300, "b".to_string()), Err("HTTP 300: b".to_string()));
    assert_eq!(host::http_outcome(199, "b".to_string()), Err("HTTP 199: b".to_string()));
    assert_eq!(host::exec_outcome(0, "o".to_string(), "e".to_string()), Ok("o".to_string()));
    assert_eq!(host::exec_outcome(-1, "o".to_string(), "e".to_string()), Err("e".to_string()));
}

#[test]
fn payloads_are_json() {
    assert_eq!(
        host::get_with_headers_payload("u\"\u{1}", &[("Cookie", "a\\b"), ("X", "\u{e9}")]),
        "{\"url\":\"u\\\"\\u0001\",\"__stui_headers\":{\"Cookie\":\"a\\\\b\",\"X\":\"\u{e9}\"}}"
    );
    assert_eq!(host::get_with_headers_payload("u", &[]), "{\"url\":\"u\",\"__stui_headers\":{}}");
    assert_eq!(host::post_json_payload("u", "{}\n"), "{\"url\":\"u\",\"body\":\"{}\\n\"}");
    assert_eq!(
        host::exec_payload("yt-dlp", &["-j", "a\"b"], 30000),
        "{\"cmd\":\"yt-dlp\",\"args\":[\"-j\",\"a\\\"b\"],\"timeout_ms\":30000}"
    );
    assert_eq!(
        host::exec_payload("c", &[], 0),
        "{\"cmd\":\"c\",\"args\":[],\"timeout_ms\":0}"
    );
    for n in 0u32..0x300 {
        let s = char::from_u32(n).unwrap().to_string();
        assert_eq!(
            host::post_json_payload("u", &s),
            format!("{{\"url\":\"u\",\"body\":{}}}", serde_json::to_string(&s).unwrap())
        );
    }
}

// The rest of the kit

#[test]
fn sign_in_replies() {
    let err = |s: &str| parse_auth_json(s).unwrap_err();
    assert_eq!(err(r#"{"error":"denied","message":"no"}"#), "denied: no");
    assert_eq!(err(r#"{"error":"denied"}"#), "denied: unknown");
    assert_eq!(err(r#"{"code":"","error":"x"}"#), "denied: x");
    assert!(err("bad").starts_with("timed_out (parse error: "));
    assert_eq!(parse_auth_json(r#"{"code":"c"}"#).unwrap().state, None);
}

#[test]
fn crew_roles() {
    let is = |s: &str, want: fn(&CrewRole) -> bool| assert!(want(&normalize_crew_role(s)), "{s}");
    is("SCREENPLAY", |r| matches!(r, CrewRole::Writer));
    is("Executive Producer", |r| matches!(r, CrewRole::ExecutiveProducer));
    is("dp", |r| matches!(r, CrewRole::Cinematographer));
    is("session musician", |r| matches!(r, CrewRole::Instrumentalist));
    is("Visual Effects Supervisor", |r| matches!(r, CrewRole::VfxSupervisor));
    is(" director", |r| matches!(r, CrewRole::Other(s) if s == " director"));
    // The capital letter with the dot becomes two characters, and matches nothing.
    is("D\u{130}RECTOR", |r| matches!(r, CrewRole::Other(_)));
}

#[test]
fn kinds_and_scopes() {
    let kinds = [
        (SearchScope::Artist, EntryKind::Artist),
        (SearchScope::Album, EntryKind::Album),
        (SearchScope::Track, EntryKind::Track),
        (SearchScope::Movie, EntryKind::Movie),
        (SearchScope::Series, EntryKind::Series),
        (SearchScope::Episode, EntryKind::Episode),
    ];
    for (i, (scope, _)) in kinds.iter().enumerate() {
        for (j, (_, kind)) in kinds.iter().enumerate() {
            assert_eq!(scope.matches(*kind), i == j);
        }
    }
    assert_eq!(EntryKind::default(), EntryKind::Track);
    assert_eq!(PluginEntry::default().kind, EntryKind::Track);
    assert_eq!(FindStreamsRequest::default().kind, EntryKind::Track);
    assert_eq!(PluginType::Metadata.as_str(), "metadata");
    assert_eq!(PluginType::Indexer.as_str(), "indexer");
    assert_eq!(
        id_sources::ALL,
        ["tmdb", "imdb", "tvdb", "musicbrainz", "discogs", "anilist", "kitsu", "myanimelist"]
    );
}

#[test]
fn envelopes_give_back_their_results() {
    let ok: InitResultEnvelope = Ok::<(), PluginInitError>(()).into();
    let back: Result<(), PluginInitError> = ok.into();
    assert!(back.is_ok());
    let err: InitResultEnvelope = Err::<(), _>(PluginInitError::MissingConfig {
        fields: vec!["api_key".to_string()],
        hint: None,
    })
    .into();
    let back: Result<(), PluginInitError> = err.into();
    match back {
        Err(PluginInitError::MissingConfig { fields, .. }) => {
            assert_eq!(fields, vec!["api_key".to_string()]);
        }
        _ => panic!("expected MissingConfig"),
    }
}

#[test]
fn loggers_record_levels() {
    let l = DefaultPluginLogger;
    let seen: Vec<(i32, String)> = [l.debug("d"), l.info("i"), l.warn("w"), l.error("e")]
        .into_iter()
        .map(|r| (r.level, r.message))
        .collect();
    let want = [(1, "d"), (2, "i"), (3, "w"), (4, "e")];
    assert_eq!(seen, want.map(|(n, s)| (n, s.to_string())));
}

#[test]
fn cells_make_their_value_once() {
    let mut cell: WasmPluginCell<Vec<u8>> = WasmPluginCell::new();
    assert!(cell.borrow_mut().is_empty());
    cell.borrow_mut().push(1);
    assert_eq!(*cell.borrow_mut(), vec![1]);
}

#[test]
fn mock_hosts_answer_exactly() {
    let host = MockHost::default().with_fixture_response("u", "1").with_fixture_response("u", "2");
    assert_eq!(host.try_fixture("u"), Some("2".to_string()));
    assert_eq!(
        host.http_get("u/").unwrap_err(),
        "http_get only available in WASM context (url: u/)"
    );
}

#[test]
fn results_hold_values_or_errors() {
    assert!(matches!(PluginResult::ok(5), PluginResult::Success(5)));
    match PluginResult::<u8>::err("c", "m") {
        PluginResult::Failure(e) => assert_eq!((e.code.as_str(), e.message.as_str()), ("c", "m")),
        _ => panic!("expected a failure"),
    }
}
