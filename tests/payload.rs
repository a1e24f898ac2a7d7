use get_music::args::Args;
use get_music::payload::{build_artist_lookup, build_page_query, PAGE_SIZE};

#[test]
fn artist_lookup_payload() {
    let p = build_artist_lookup(&"query L".to_string(), &"otographic".to_string());
    assert_eq!(p.query, "query L");
    assert_eq!(p.variables.username.as_deref(), Some("otographic"));
    assert_eq!(p.variables.id, None);
    assert_eq!(p.variables.cursor, None);
    assert_eq!(p.variables.order_by, "LATEST");
    assert_eq!(p.variables.count, PAGE_SIZE);
}

#[test]
fn first_explicit_page_has_no_cursor() {
    let p = build_page_query(&"query P".to_string(), &"U1".to_string(), None);
    assert_eq!(p.query, "query P");
    assert_eq!(p.variables.id.as_deref(), Some("U1"));
    assert_eq!(p.variables.cursor, None);
    assert_eq!(p.variables.username, None);
    assert_eq!(p.variables.order_by, "LATEST");
    assert_eq!(p.variables.count, 10);
}

#[test]
fn later_page_carries_cursor() {
    let cursor = "abc".to_string();
    let p = build_page_query(&"query P".to_string(), &"U1".to_string(), Some(&cursor));
    assert_eq!(p.variables.cursor.as_deref(), Some("abc"));
}

#[test]
fn handle_given() {
    let args = Args { artist: Some("otographic".to_string()) };
    assert_eq!(args.handle().map(|h| h.as_str()), Some("otographic"));
}

#[test]
fn handle_missing_or_empty() {
    assert!(Args { artist: None }.handle().is_none());
    assert!(Args { artist: Some(String::new()) }.handle().is_none());
}
