use bastion_http::docs::{docs_headers, docs_served, embed_etag, etag_matches, file_etag};
use bastion_http::jobs_crud::normalize_timezone;
use bastion_http::list_paging::{decode_cursor_bytes, encode_cursor_bytes};

#[test]
fn etag_matches_any_listed_entry() {
    assert!(etag_matches(Some("W/\"1-2\""), "W/\"1-2\""));
    assert!(etag_matches(Some("\"a\", W/\"1-2\" ,\"b\""), "W/\"1-2\""));
    assert!(etag_matches(Some("\"a\",W/\"1-2\""), "W/\"1-2\""));
    assert!(!etag_matches(Some("\"a\", \"b\""), "W/\"1-2\""));
    assert!(!etag_matches(Some(""), "W/\"1-2\""));
    assert!(!etag_matches(None, "W/\"1-2\""));
}

#[test]
fn file_etag_is_length_and_mtime_in_hex() {
    assert_eq!(file_etag(255, Some(4096)), "W/\"ff-1000\"");
    assert_eq!(file_etag(0, None), "W/\"0-0\"");
    let e = embed_etag(b"abc");
    assert!(e.starts_with("W/\"3-"));
    assert_eq!(e.len(), "W/\"3-".len() + 16 + 1);
}

#[test]
fn docs_headers_follow_the_served_path() {
    let h = docs_headers("guide/index.html", "W/\"1-2\"");
    assert_eq!(h.content_type, "text/html");
    assert_eq!(h.cache_control, "no-cache");
    assert_eq!(h.etag, "W/\"1-2\"");
    let h = docs_headers("assets/app.js", "x");
    assert_eq!(h.cache_control, "public, max-age=31536000, immutable");
    assert!(h.content_type.contains("javascript"));
    let h = docs_headers("blob", "x");
    assert_eq!(h.content_type, "application/octet-stream");
    assert_eq!(h.cache_control, "public, max-age=3600");
}

#[test]
fn timezone_is_trimmed_defaulted_and_checked() {
    assert_eq!(normalize_timezone(Some(" Asia/Shanghai "), "UTC").unwrap(), "Asia/Shanghai");
    assert_eq!(normalize_timezone(None, " UTC ").unwrap(), "UTC");
    assert_eq!(normalize_timezone(Some("   "), "Europe/Berlin").unwrap(), "Europe/Berlin");
    let err = normalize_timezone(Some("Mars/Base"), "UTC").unwrap_err();
    assert_eq!((err.status, err.code.as_str(), err.message.as_str()), (400, "invalid_timezone", "Invalid schedule timezone"));
    assert!(normalize_timezone(None, "Nowhere").is_err());
}

#[test]
fn cursor_bytes_round_trip() {
    let json = br#"{"rank":1,"name":"a b"}"#;
    let text = encode_cursor_bytes(json);
    assert_ne!(text.as_bytes(), &json[..]);
    assert!(!text.contains('=') && !text.contains('+') && !text.contains('/'));
    assert_eq!(decode_cursor_bytes(&text).unwrap(), json.to_vec());
    assert_eq!(encode_cursor_bytes(b"\xfb\xff"), "-_8");
    let err = decode_cursor_bytes("not base64!").unwrap_err();
    assert_eq!((err.code.as_str(), err.message.as_str()), ("invalid_cursor", "invalid cursor encoding"));
}

#[test]
fn served_docs_set_cookie_on_pages_and_404_on_fallback() {
    assert_eq!(docs_served(0, 3, "guide/index.html", true), (true, false));
    assert_eq!(docs_served(0, 2, "assets/app.js", true), (false, false));
    assert_eq!(docs_served(2, 3, "404.html", true), (true, true));
    assert_eq!(docs_served(2, 3, "404.html", false), (true, false));
    assert_eq!(docs_served(0, 1, "404.html", true), (true, true));
}
