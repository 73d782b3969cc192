use bastion_http::docs::{
    cache_control_for_docs_path, docs_candidates, docs_entry_redirect, docs_locale_from_accept_language,
    docs_locale_from_cookie, docs_locale_from_path, docs_locale_from_query, embed_etag, fnv1a64,
    is_safe_docs_path, locale_from_query_pairs, normalize_docs_candidate, parse_lang_param,
    resolve_docs_locale, DocsLocale,
};
use bastion_http::json::JsonValue;
use bastion_http::labels::{normalize_labels, parse_labels_mode, validate_label, LabelsMode};
use bastion_http::stage_events::{normalize_stage, stage_event_to_record};

fn labels(v: &[&str]) -> Vec<String> {
    v.iter().map(|s| s.to_string()).collect()
}

#[test]
fn labels_mode_defaults_to_and() {
    assert_eq!(parse_labels_mode(None).unwrap(), LabelsMode::And);
    assert_eq!(parse_labels_mode(Some(" or ")).unwrap(), LabelsMode::Or);
    let err = parse_labels_mode(Some("xor")).unwrap_err();
    assert_eq!(err.code, "invalid_labels_mode");
    assert_eq!(err.message, "Invalid labels_mode");
}

#[test]
fn labels_are_sorted_and_deduplicated() {
    let out = normalize_labels(labels(&[" web ", "db", "web", "a-1", "db"])).unwrap();
    assert_eq!(out, labels(&["a-1", "db", "web"]));
    let again = normalize_labels(out.clone()).unwrap();
    assert_eq!(again, out);
    let other_order = normalize_labels(labels(&["db", "a-1", "web"])).unwrap();
    assert_eq!(other_order, out);
    assert_eq!(normalize_labels(Vec::new()).unwrap(), Vec::<String>::new());
}

#[test]
fn first_invalid_label_decides_the_error() {
    let err = normalize_labels(labels(&["ok", "Bad", " "])).unwrap_err();
    assert_eq!(err.message, "Label must be lowercase");
    let err = normalize_labels(labels(&["ok", " ", "Bad"])).unwrap_err();
    assert_eq!(err.message, "Label is required");
    match err.details {
        Some(JsonValue::Object(entries)) => {
            assert_eq!(entries.len(), 1);
            assert_eq!(entries[0].0, "field");
            assert!(matches!(&entries[0].1, JsonValue::Str(s) if s == "labels"));
        }
        _ => panic!("details expected"),
    }
}

#[test]
fn label_rules_in_order() {
    assert_eq!(validate_label("  prod-1 ").unwrap(), "prod-1");
    let err = validate_label(&"a".repeat(33)).unwrap_err();
    assert_eq!(err.message, "Label is too long");
    match err.details {
        Some(JsonValue::Object(entries)) => {
            assert_eq!(entries[0].0, "max_len");
            assert!(matches!(entries[0].1, JsonValue::UInt(32)));
        }
        _ => panic!("details expected"),
    }
    assert!(validate_label(&"a".repeat(32)).is_ok());
    // 17 two-byte characters are 34 bytes: too long before the ASCII rule applies.
    assert_eq!(validate_label(&"é".repeat(17)).unwrap_err().message, "Label is too long");
    assert_eq!(validate_label("é").unwrap_err().message, "Label must be ASCII lowercase");
    assert_eq!(validate_label("Web").unwrap_err().message, "Label must be lowercase");
    assert_eq!(validate_label("a.b").unwrap_err().message, "Label contains invalid characters");
    assert_eq!(validate_label("_a").unwrap_err().message, "Label must start with a letter or digit");
    assert_eq!(validate_label("-").unwrap_err().code, "invalid_label");
}

#[test]
fn stages_are_known_and_recorded_once() {
    assert_eq!(normalize_stage(" upload "), Some("upload"));
    assert_eq!(normalize_stage("Upload"), None);
    assert_eq!(stage_event_to_record(None, "scan"), Some("scan"));
    assert_eq!(stage_event_to_record(Some("scan"), " scan"), None);
    assert_eq!(stage_event_to_record(Some("scan"), "packaging"), Some("packaging"));
    assert_eq!(stage_event_to_record(Some("scan"), "done"), None);
}

#[test]
fn docs_locale_helpers() {
    assert_eq!(DocsLocale::En.docs_root(), "/docs/");
    assert_eq!(DocsLocale::Zh.docs_root(), "/docs/zh/");
    assert_eq!(DocsLocale::Zh.cookie_value(), "zh-CN");
    assert_eq!(DocsLocale::En.cookie_value(), "en-US");
    assert_eq!(parse_lang_param(" ZH-cn "), Some(DocsLocale::Zh));
    assert_eq!(parse_lang_param("En"), Some(DocsLocale::En));
    assert_eq!(parse_lang_param("fr"), None);
    assert_eq!(docs_locale_from_path("/docs/zh"), DocsLocale::Zh);
    assert_eq!(docs_locale_from_path("/docs/zh/guide.html"), DocsLocale::Zh);
    assert_eq!(docs_locale_from_path("/docs/zhx"), DocsLocale::En);
}

#[test]
fn docs_locale_resolution_order() {
    assert_eq!(docs_locale_from_accept_language(Some("en-US,zh;q=0.8")), Some(DocsLocale::Zh));
    assert_eq!(docs_locale_from_accept_language(Some("ZH-tw")), Some(DocsLocale::Zh));
    assert_eq!(docs_locale_from_accept_language(Some("en-US, fr;q=0.5")), None);
    assert_eq!(docs_locale_from_accept_language(Some("z,h")), None);
    assert_eq!(docs_locale_from_accept_language(None), None);
    assert_eq!(docs_locale_from_query(Some("a=1&lang=xx&lang=zh")), Some(DocsLocale::Zh));
    assert_eq!(docs_locale_from_query(Some("lang=%20en%20")), Some(DocsLocale::En));
    assert_eq!(docs_locale_from_query(Some("x=1")), None);
    let pairs = vec![("lang".to_string(), "en-us".to_string())];
    assert_eq!(locale_from_query_pairs(&pairs), Some(DocsLocale::En));
    assert_eq!(docs_locale_from_cookie(Some("zh-CN")), Some(DocsLocale::Zh));
    assert_eq!(resolve_docs_locale(Some("lang=en"), Some("zh-CN"), Some("zh")), (DocsLocale::En, true));
    assert_eq!(resolve_docs_locale(None, Some("zh-CN"), None), (DocsLocale::Zh, false));
    assert_eq!(resolve_docs_locale(None, Some("bogus"), Some("zh")), (DocsLocale::Zh, false));
    assert_eq!(resolve_docs_locale(None, None, None), (DocsLocale::En, false));
    assert_eq!(docs_entry_redirect("/docs/", DocsLocale::Zh, false), Some(DocsLocale::Zh));
    assert_eq!(docs_entry_redirect("/docs/", DocsLocale::En, true), Some(DocsLocale::En));
    assert_eq!(docs_entry_redirect("/docs/", DocsLocale::En, false), None);
    assert_eq!(docs_entry_redirect("/docs/a", DocsLocale::Zh, true), None);
}

#[test]
fn docs_paths_and_caching() {
    assert_eq!(normalize_docs_candidate(""), "index.html");
    assert_eq!(normalize_docs_candidate("guide/"), "guide/index.html");
    assert_eq!(normalize_docs_candidate(" a.css "), "a.css");
    assert!(is_safe_docs_path("guide/index.html"));
    assert!(is_safe_docs_path("a/./b"));
    assert!(is_safe_docs_path(""));
    assert!(!is_safe_docs_path("/etc/passwd"));
    assert!(!is_safe_docs_path("../secret"));
    assert!(!is_safe_docs_path("a/../b"));
    assert!(!is_safe_docs_path("./a"));
    assert!(!is_safe_docs_path("."));
    assert!(!is_safe_docs_path("a/.."));
    assert_eq!(cache_control_for_docs_path("index.html"), "no-cache");
    assert_eq!(cache_control_for_docs_path("assets/app.js"), "public, max-age=31536000, immutable");
    assert_eq!(cache_control_for_docs_path("logo.svg"), "public, max-age=3600");
    assert_eq!(docs_candidates("/docs/guide"), vec!["guide".to_string(), "guide.html".to_string(), "404.html".to_string()]);
    assert_eq!(docs_candidates("/docs/"), vec!["index.html".to_string(), "404.html".to_string()]);
    assert_eq!(docs_candidates("/docs//zh/a.css"), vec!["zh/a.css".to_string(), "404.html".to_string()]);
}

#[test]
fn docs_etags_are_content_addressed() {
    assert_eq!(fnv1a64(b""), 0xcbf29ce484222325);
    assert_eq!(fnv1a64(b"a"), 0xaf63dc4c8601ec8c);
    assert_eq!(embed_etag(b"a"), "W/\"1-af63dc4c8601ec8c\"");
    let bytes = vec![0u8; 300];
    let e = embed_etag(&bytes);
    assert!(e.starts_with("W/\"12c-"));
    assert_eq!(e.len(), "W/\"12c-".len() + 16 + 1);
}
