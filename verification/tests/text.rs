use shop_ledger::digest::to_hex_lower;
use shop_ledger::error::{Rule, StoreError};
use shop_ledger::records::owner::KeyValue;
use shop_ledger::relay::{relay_method, request_header_lines, text_same_but_case, RelayMethod};
use shop_ledger::rows::distinct_texts;
use shop_ledger::settings::{
    build_status, configured_db_path, greet, logout, require_db_path, set_db_path,
    unconfigured_status, AppState, DbStatus,
};
use shop_ledger::text::{
    chars_of, is_blank, text_before, text_eq, text_holds, text_is, text_starts_with,
    texts_distinct,
};

fn like(pattern: &str, text: &str) -> bool {
    shop_ledger::text::chars_like(&chars_of(pattern), &chars_of(text))
}

#[test]
fn texts_sort_by_their_characters() {
    assert!(text_before("a", "b"));
    assert!(!text_before("b", "a"));
    assert!(!text_before("a", "a"));
    assert!(text_before("", "a"));
    assert!(!text_before("a", ""));
    assert!(!text_before("", ""));
    assert!(text_before("ab", "abc"));
    assert!(text_before("abc", "abd"));
    assert!(text_before("Z", "a"));
    assert!(text_before("2024-01-31T00:00:00+00:00", "2024-01-31T00:00:00.5+00:00"));
    assert!(text_before("z", "가"));
    assert!(text_before("가", "나"));
    assert_eq!(text_before("é", "z"), "é" < "z");
    assert_eq!(text_before("\u{10000}", "\u{ffff}"), "\u{10000}" < "\u{ffff}");
}

#[test]
fn patterns_match_as_in_a_search() {
    assert!(like("", ""));
    assert!(!like("", "a"));
    assert!(like("%", ""));
    assert!(like("%", "anything"));
    assert!(like("a%", "abc"));
    assert!(!like("a%", "xabc"));
    assert!(like("%c", "abc"));
    assert!(like("%b%", "abc"));
    assert!(!like("%d%", "abc"));
    assert!(like("a_c", "abc"));
    assert!(!like("a_c", "ac"));
    assert!(!like("a_c", "abbc"));
    assert!(like("_", "가"));
    assert!(!like("_", ""));
    assert!(like("ABC", "abc"));
    assert!(like("abc", "ABC"));
    assert!(!like("é", "É"));
    assert!(like("%a%b%", "xxaxxbxx"));
    assert!(!like("%a%b%", "xxbxxaxx"));
    assert!(like("a%%b", "ab"));
    assert!(!like("abc", "ab"));
    assert!(!like("ab", "abc"));
}

#[test]
fn text_helpers_say_what_they_find() {
    assert!(text_eq("abc", "abc"));
    assert!(!text_eq("abc", "abd"));
    assert!(!text_eq("abc", "ABC"));
    assert!(text_is(&Some("x".to_string()), "x"));
    assert!(!text_is(&Some("x".to_string()), "y"));
    assert!(!text_is(&None, "x"));
    for c in [' ', '\t', '\n', '\r', '\u{0b}', '\u{0c}', '\u{85}', '\u{a0}', '\u{1680}', '\u{2000}',
        '\u{200a}', '\u{2028}', '\u{2029}', '\u{202f}', '\u{205f}', '\u{3000}']
    {
        assert!(is_blank(c));
    }
    for c in ['a', ';', '_', '\u{08}', '\u{0e}', '\u{1f}', '\u{200b}', '\u{feff}', '가'] {
        assert!(!is_blank(c));
    }
    for n in 0..0x3100u32 {
        if let Some(c) = char::from_u32(n) {
            assert_eq!(is_blank(c), c.is_whitespace());
        }
    }
    assert!(text_holds("green tea", "tea"));
    assert!(text_holds("green tea", "N T"));
    assert!(!text_holds("green tea", "cup"));
    assert!(text_starts_with("2024-03-05", "2024-03"));
    assert!(!text_starts_with("2024-03-05", "2024-04"));
    assert!(text_starts_with("2024-03-05", ""));
    assert_eq!(chars_of("a가b"), vec!['a', '가', 'b']);
    let t = |v: &[&str]| v.iter().map(|s| s.to_string()).collect::<Vec<String>>();
    assert!(texts_distinct(&t(&[])));
    assert!(texts_distinct(&t(&["a", "b", "A"])));
    assert!(!texts_distinct(&t(&["a", "b", "a"])));
    assert_eq!(distinct_texts(&t(&["b", "a", "b", "c", "a"])), t(&["b", "a", "c"]));
}

#[test]
fn bytes_are_written_in_lower_case_hexadecimal() {
    assert_eq!(to_hex_lower(&vec![]), "");
    assert_eq!(to_hex_lower(&vec![0x00, 0x0f, 0xa0, 0xff, 0x12]), "000fa0ff12");
}

#[test]
fn the_path_is_settled_once() {
    let mut state = AppState::new();
    assert_eq!(state.db_path(), None);
    assert_eq!(require_db_path(&state), Err(StoreError::NotConfigured));
    assert_eq!(configured_db_path(&mut state, None), None);
    assert_eq!(configured_db_path(&mut state, Some(String::new())), None);
    assert_eq!(state.db_path(), None);
    assert_eq!(configured_db_path(&mut state, Some("/a.db".to_string())), Some("/a.db".to_string()));
    assert_eq!(configured_db_path(&mut state, Some("/b.db".to_string())), Some("/a.db".to_string()));
    assert_eq!(configured_db_path(&mut state, None), Some("/a.db".to_string()));
    assert_eq!(require_db_path(&state), Ok("/a.db".to_string()));
    set_db_path(&mut state, "/c.db".to_string());
    assert_eq!(state.db_path(), Some("/c.db".to_string()));
    logout(&mut state);
    assert_eq!(state.db_path(), None);
    assert_eq!(require_db_path(&state), Err(StoreError::NotConfigured));
}

#[test]
fn the_status_counts_only_a_file_that_exists() {
    let tables = vec!["tbl_user".to_string()];
    assert_eq!(
        build_status("/a.db".to_string(), true, true, Some(10), tables.clone()),
        DbStatus {
            configured: true,
            path: "/a.db".to_string(),
            exists: true,
            size_bytes: Some(10),
            tables: tables.clone(),
        }
    );
    assert_eq!(
        build_status("/a.db".to_string(), true, false, Some(10), tables),
        DbStatus {
            configured: true,
            path: "/a.db".to_string(),
            exists: false,
            size_bytes: None,
            tables: vec![],
        }
    );
    assert_eq!(
        unconfigured_status(),
        DbStatus { configured: false, path: String::new(), exists: false, size_bytes: None, tables: vec![] }
    );
}

#[test]
fn the_greeting_names_the_guest() {
    assert_eq!(greet("Ann"), "Hello, Ann! You've been greeted from Rust!");
    assert_eq!(greet(""), "Hello, ! You've been greeted from Rust!");
}

#[test]
fn the_relay_sends_the_cookie_header_last() {
    let kv = |k: &str, v: &str| KeyValue { key: k.to_string(), value: v.to_string() };
    assert_eq!(request_header_lines(&vec![]), Vec::<String>::new());
    assert_eq!(
        request_header_lines(&vec![kv("Accept", "*/*"), kv("cookie", "a=1"), kv("Agent", "x")]),
        vec!["Accept: */*", "Agent: x", "Cookie: a=1"]
    );
    assert_eq!(
        request_header_lines(&vec![kv("COOKIE", "a=1"), kv("X", "y"), kv("Cookie", "b=2")]),
        vec!["X: y", "Cookie: b=2"]
    );
    assert_eq!(
        request_header_lines(&vec![kv("Cookies", "a=1"), kv("Cooki", "b")]),
        vec!["Cookies: a=1", "Cooki: b"]
    );
    assert!(text_same_but_case("Cookie", "cOOKIE"));
    assert!(!text_same_but_case("Cookie", "Cookies"));
    assert_eq!(relay_method("POST"), RelayMethod::Post);
    assert_eq!(relay_method("PUT"), RelayMethod::Put);
    assert_eq!(relay_method("DELETE"), RelayMethod::Delete);
    assert_eq!(relay_method("GET"), RelayMethod::Get);
    assert_eq!(relay_method("post"), RelayMethod::Get);
    assert_eq!(relay_method(""), RelayMethod::Get);
}

#[test]
fn every_kind_of_refusal_is_told_apart() {
    let all = [
        StoreError::NotConfigured,
        StoreError::NotFound,
        StoreError::Validation,
        StoreError::Constraint(Rule::IdentifierTaken),
        StoreError::Constraint(Rule::NameTaken),
        StoreError::Transport,
    ];
    for (i, a) in all.iter().enumerate() {
        for (j, b) in all.iter().enumerate() {
            assert_eq!(a == b, i == j);
        }
    }
}
