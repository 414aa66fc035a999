use luoxu_rs::config::{choose_login, index_settings, is_room_alias, missing_indices, LoginChoice};
use luoxu_rs::document::LuoxuMessage;
use luoxu_rs::ids::{KeyEventId, LuoxuAvatar};
use luoxu_rs::query::{
    cursor_filter, has_more, search_request, search_result, search_results, AppError, Params,
};

fn doc(ts: u64) -> LuoxuMessage {
    LuoxuMessage {
        event_id: KeyEventId(format!("ev{}", ts)),
        body: "hello".to_string(),
        external_url: None,
        user_id: "@a:x".to_string(),
        user_display_name: Some("A".to_string()),
        user_avatar: Some(LuoxuAvatar("https://hs/a".to_string())),
        timestamp: ts,
        room_id: "!r:x".to_string(),
        ocr_body: None,
    }
}

#[test]
fn pagination_pages_and_more_flag() {
    // Matches at 100, 90, 80, 70; a page holds two.
    let first = search_request("idx".to_string(), Params { query: "hello".to_string(), offset: None });
    assert!(first.filter.is_none());
    let hits = vec![(doc(100), "a".to_string()), (doc(90), "b".to_string())];
    let page = search_results(&hits, 4, 2);
    let ts: Vec<u64> = page.messages.iter().map(|m| m.timestamp).collect();
    assert_eq!(ts, vec![100, 90]);
    assert!(page.has_more);

    let next = search_request("idx".to_string(), Params { query: "hello".to_string(), offset: Some(90) });
    assert_eq!(next.filter.as_deref(), Some("timestamp < 90"));
    let hits = vec![(doc(80), "c".to_string()), (doc(70), "d".to_string())];
    let page = search_results(&hits, 2, 2);
    let ts: Vec<u64> = page.messages.iter().map(|m| m.timestamp).collect();
    assert_eq!(ts, vec![80, 70]);
    assert!(!page.has_more);
}

#[test]
fn request_is_sorted_and_highlighted() {
    let r = search_request("idx".to_string(), Params { query: "q".to_string(), offset: None });
    assert_eq!(r.index_name, "idx");
    assert_eq!(r.query, "q");
    assert_eq!(r.sort, "timestamp:desc");
    assert_eq!(r.search_on, "body");
    assert_eq!(r.highlight, "body");
    assert_eq!(r.highlight_pre_tag, "<span class=\"keyword\">");
    assert_eq!(r.highlight_post_tag, "</span>");
}

#[test]
fn cursor_filter_values() {
    assert_eq!(cursor_filter(0), "timestamp < 0");
    assert_eq!(cursor_filter(1700000000123), "timestamp < 1700000000123");
    assert_eq!(cursor_filter(u64::MAX), "timestamp < 18446744073709551615");
}

#[test]
fn more_flag_compares_estimate_with_limit() {
    assert!(has_more(21, 20));
    assert!(!has_more(20, 20));
    assert!(!has_more(0, 20));
}

#[test]
fn result_shows_document() {
    let r = search_result(&doc(42), "<span class=\"keyword\">hello</span>".to_string());
    assert_eq!(r.event_id, "$ev42");
    assert_eq!(r.html_body, "<span class=\"keyword\">hello</span>");
    assert_eq!(r.display_name.as_deref(), Some("A"));
    assert_eq!(r.avatar_url.as_deref(), Some("https://hs/a"));
    assert_eq!(r.timestamp, 42);
    assert_eq!(r.room_id, "!r:x");
    assert!(r.external_url.is_none());
}

#[test]
fn error_response_text() {
    assert_eq!(AppError("boom".to_string()).response_text(), "Something went wrong: boom");
}

#[test]
fn only_missing_indices_are_created() {
    let configured = vec!["a".to_string(), "b".to_string(), "c".to_string()];
    let existing = vec!["b".to_string(), "z".to_string()];
    assert_eq!(missing_indices(&configured, &existing), vec!["a".to_string(), "c".to_string()]);
    assert!(missing_indices(&configured, &configured).is_empty());
}

#[test]
fn new_index_settings() {
    let s = index_settings();
    assert_eq!(s.primary_key, "event_id");
    assert_eq!(s.filterable_attributes, vec!["user_id".to_string()]);
    assert_eq!(s.sortable_attributes, vec!["timestamp".to_string()]);
}

#[test]
fn aliases_start_with_hash() {
    assert!(is_room_alias("#room:example.org"));
    assert!(!is_room_alias("!room:example.org"));
    assert!(!is_room_alias(""));
}

#[test]
fn login_prefers_saved_session() {
    assert_eq!(choose_login(true, true), LoginChoice::Session);
    assert_eq!(choose_login(false, true), LoginChoice::Session);
    assert_eq!(choose_login(true, false), LoginChoice::Password);
    assert_eq!(choose_login(false, false), LoginChoice::MissingCredentials);
}
