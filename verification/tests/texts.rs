use phira_mp::auth::{
    fresh_token, is_authorized, is_guarded, is_known, is_valid_token, level_for, log_level, login,
    mime_type, token_from, validate_credentials, LogLevel,
};
use phira_mp::resolver::{bare_address_text, bare_host, from_records, route, Route};
use phira_mp::text::{
    bool_text, contains_id, i32_text, i64_text, parse_i32, parse_id_list, same, starts_with,
    strip_prefix, trim, u64_text,
};

#[test]
fn numbers_in_decimal() {
    assert_eq!(u64_text(0), "0");
    assert_eq!(u64_text(u64::MAX), u64::MAX.to_string());
    assert_eq!(i32_text(-7), "-7");
    assert_eq!(i32_text(i32::MIN), i32::MIN.to_string());
    assert_eq!(i64_text(i64::MIN), i64::MIN.to_string());
    assert_eq!(i64_text(1234567890123), "1234567890123");
    assert_eq!(bool_text(true), "true");
    assert_eq!(bool_text(false), "false");
}

#[test]
fn numbers_are_parsed_as_std_does() {
    for s in [
        "0", "7", "-7", "+7", "007", "2147483647", "2147483648", "-2147483648", "-2147483649", "",
        "-", "+", "1a", " 1", "١", "--1", "99999999999999999999999",
    ] {
        assert_eq!(parse_i32(s), s.parse::<i32>().ok(), "{s:?}");
    }
}

#[test]
fn lists_of_ids() {
    assert_eq!(parse_id_list("1, 2 ,3,2,x,,-4"), vec![1, 2, 3, -4]);
    assert_eq!(parse_id_list(""), Vec::<i32>::new());
    assert_eq!(parse_id_list("\t5\u{3000}"), vec![5]);
    assert!(contains_id(&vec![1, 2], 2));
    assert!(!contains_id(&vec![1, 2], 3));
}

#[test]
fn trimming_follows_std() {
    for s in ["", " ", " a ", "\u{85}x\u{2028}", "a b", "\u{feff}a", "\u{3000}谱\u{200b}"] {
        assert_eq!(trim(s), s.trim());
    }
}

#[test]
fn prefixes() {
    assert!(starts_with("谱面", "谱"));
    assert!(!starts_with("a", "ab"));
    assert_eq!(strip_prefix("Bearer x", "Bearer "), Some("x"));
    assert_eq!(strip_prefix("bearer x", "Bearer "), None);
    assert!(same("a", "a"));
    assert!(!same("a", "b"));
}

#[test]
fn guarded_paths() {
    assert!(is_guarded("/api/ban"));
    assert!(is_guarded("/api/banana"));
    assert!(is_guarded("/api/maintenance/status"));
    assert!(is_guarded("/api/unban/7"));
    assert!(!is_guarded("/api/rooms/x"));
    assert!(!is_guarded("/api/login"));
    assert!(!is_guarded("/ws"));
}

#[test]
fn tokens_open_guarded_paths() {
    let token = "a".repeat(32);
    let header = format!("Bearer {token}");
    assert!(is_authorized("/api/ban", Some(&header)));
    assert!(!is_authorized("/api/ban", Some(&token)));
    assert!(!is_authorized("/api/ban", None));
    assert!(!is_authorized("/api/ban", Some("Bearer short")));
    assert!(is_authorized("/api/rooms", None));
    assert!(is_valid_token(&token));
    assert!(!is_valid_token(&"é".repeat(32)));
    assert!(is_valid_token(&"é".repeat(16)));
}

#[test]
fn tokens_are_hexadecimal() {
    assert_eq!(token_from(&vec![0, 9, 10, 15, 16, 255]), "09af0f");
    let a = fresh_token();
    let b = fresh_token();
    assert_eq!(a.len(), 32);
    assert!(a.chars().all(|c| c.is_ascii_hexdigit()));
    assert_ne!(a, b);
}

#[test]
fn passwords_are_compared() {
    let pairs = vec![
        ("ann".to_string(), "secret".to_string()),
        ("bob".to_string(), "other".to_string()),
    ];
    assert!(is_known(&pairs, "ann", "secret"));
    assert!(is_known(&pairs, "bob", "other"));
    assert!(!is_known(&pairs, "ann", "Secret"));
    assert!(!is_known(&pairs, "ann", "other"));
    assert!(!is_known(&pairs, "cid", "secret"));
    assert!(!is_known(&vec![], "ann", "secret"));
    assert!(is_valid_token(&login(true).unwrap()));
    assert_eq!(login(false), None);
}

#[test]
fn passwords_are_read_from_json() {
    let file = r#" { "bob": "other", "ann": "se\u0063ret" } "#;
    assert!(validate_credentials(Some(file), "ann", "secret"));
    assert!(validate_credentials(Some(file), "bob", "other"));
    assert!(!validate_credentials(Some(file), "ann", "other"));
    assert!(!validate_credentials(Some(file), "Ann", "secret"));
    assert!(!validate_credentials(Some(file), "", ""));
    assert!(!validate_credentials(None, "ann", "secret"));
    for broken in ["", "[]", "{\"ann\": 1}", "{\"ann\": \"secret\"", "{\"ann\": \"secret\"} x"] {
        assert!(!validate_credentials(Some(broken), "ann", "secret"));
    }
    let twice = r#"{"ann": "old", "ann": "new"}"#;
    assert!(validate_credentials(Some(twice), "ann", "new"));
    assert!(!validate_credentials(Some(twice), "ann", "old"));
}

#[test]
fn kinds_of_files() {
    for (ending, kind) in [
        ("html", "text/html"),
        ("css", "text/css"),
        ("js", "application/javascript"),
        ("json", "application/json"),
        ("png", "image/png"),
        ("jpg", "image/jpeg"),
        ("jpeg", "image/jpeg"),
        ("gif", "image/gif"),
        ("svg", "image/svg+xml"),
        ("ico", "image/x-icon"),
        ("wasm", "application/octet-stream"),
        ("HTML", "application/octet-stream"),
    ] {
        assert_eq!(mime_type(Some(ending)), kind);
    }
    assert_eq!(mime_type(None), "application/octet-stream");
}

#[test]
fn log_levels_in_any_case() {
    assert_eq!(log_level("TRACE"), LogLevel::Trace);
    assert_eq!(log_level("Debug"), LogLevel::Debug);
    assert_eq!(log_level("warn"), LogLevel::Warn);
    assert_eq!(log_level("eRRor"), LogLevel::Error);
    assert_eq!(log_level("info"), LogLevel::Info);
    assert_eq!(log_level("whatever"), LogLevel::Info);
    assert_eq!(level_for("TRACE"), LogLevel::Info);
}

#[test]
fn hosts_without_brackets() {
    assert_eq!(bare_host("[::1]"), "::1");
    assert_eq!(bare_host("example.org"), "example.org");
    assert_eq!(bare_host("[[x]]"), "x");
    assert_eq!(bare_host("[]"), "");
    assert_eq!(bare_host(bare_host("[::1]")), "::1");
}

#[test]
fn routes_to_servers() {
    assert_eq!(route("h", Some(1), false), Route::Direct("h".to_string(), 1));
    assert_eq!(route("1.2.3.4", Some(1), true), Route::Direct("1.2.3.4".to_string(), 1));
    assert_eq!(route("1.2.3.4", None, true), Route::BareAddress);
    assert_eq!(route("h.org", None, false), Route::Records("_phira._tcp.h.org".to_string()));
    assert_eq!(bare_address_text(), "Bare IP address is not supported");
}

#[test]
fn the_first_record_counts() {
    assert_eq!(
        from_records(Some(("mp.example.org.".to_string(), 12346))),
        Ok(("mp.example.org".to_string(), 12346))
    );
    assert_eq!(from_records(None), Err("No SRV records found"));
}
