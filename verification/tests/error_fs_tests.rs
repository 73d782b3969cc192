use bastion_http::error::{
    current_app_error_render_options, from_error_chain, merge_response_details, AppError,
    AppErrorRenderOptions, CauseKind, ErrorCause, IoKind,
};
use bastion_http::fs::{
    list_page, map_io, plan_listing, resolve_cursor, validate_list_path, DirEntryInfo, EntryKind, FsListEntry, FsListOptions,
};
use bastion_http::json::JsonValue;
use bastion_http::notification_settings::invalid_template_error;

fn cause(label: &str, kind: CauseKind) -> ErrorCause {
    ErrorCause { type_label: label.to_string(), kind, io_kind_name: String::new() }
}

fn get<'a>(v: &'a JsonValue, key: &str) -> Option<&'a JsonValue> {
    match v {
        JsonValue::Object(entries) => entries.iter().rev().find(|(k, _)| k == key).map(|(_, v)| v),
        _ => None,
    }
}

fn text(v: Option<&JsonValue>) -> Option<&str> {
    match v {
        Some(JsonValue::Str(s)) => Some(s.as_str()),
        _ => None,
    }
}

#[test]
fn classify_permission_denied_as_403() {
    let chain = vec![cause("&str", CauseKind::Other), cause("std::io::error::Error", CauseKind::Io(IoKind::PermissionDenied))];
    let app = from_error_chain(&chain);
    assert_eq!(app.status, 403);
    assert_eq!(app.code, "permission_denied");
}

#[test]
fn classify_not_found_as_404() {
    let chain = vec![cause("&str", CauseKind::Other), cause("std::io::error::Error", CauseKind::Io(IoKind::NotFound))];
    let app = from_error_chain(&chain);
    assert_eq!(app.status, 404);
    assert_eq!(app.code, "path_not_found");
}

#[test]
fn classify_sqlx_row_not_found_as_404() {
    let chain = vec![cause("sqlx_core::error::Error", CauseKind::RowNotFound)];
    let app = from_error_chain(&chain);
    assert_eq!(app.status, 404);
    assert_eq!(app.code, "not_found");
}

#[test]
fn unclassified_errors_are_internal_with_debug_chain() {
    let chain = vec![cause("&str", CauseKind::Other), cause("std::io::error::Error", CauseKind::Io(IoKind::Other))];
    let app = from_error_chain(&chain);
    assert_eq!(app.status, 500);
    assert_eq!(app.code, "internal_error");
    assert!(app.details.is_none());
    let debug = app.debug_details.expect("debug details");
    let records = match get(get(&debug, "debug").unwrap(), "chain") {
        Some(JsonValue::Array(r)) => r,
        _ => panic!("chain expected"),
    };
    assert_eq!(records.len(), 2);
    assert_eq!(text(get(&records[0], "type")), Some("&str"));
}

#[test]
fn structured_details_helpers_merge_correctly() {
    let mut legacy = Vec::new();
    legacy.push(("legacy".to_string(), JsonValue::Bool(true)));
    let params = JsonValue::Object(vec![("min_length".to_string(), JsonValue::Int(12))]);
    let app = AppError::bad_request("invalid_password", "Password is invalid")
        .with_reason("min_length")
        .with_field("password")
        .with_param("min_length", JsonValue::Int(12))
        .with_details(JsonValue::Object(legacy))
        .with_violation("password", "min_length", Some(params));
    let details = app.details.expect("details");
    assert_eq!(text(get(&details, "reason")), Some("min_length"));
    assert_eq!(text(get(&details, "field")), Some("password"));
    assert!(matches!(get(get(&details, "params").unwrap(), "min_length"), Some(JsonValue::Int(12))));
    assert!(matches!(get(&details, "legacy"), Some(JsonValue::Bool(true))));
    let violations = match get(&details, "violations") {
        Some(JsonValue::Array(v)) => v,
        _ => panic!("violations expected"),
    };
    assert_eq!(text(get(&violations[0], "field")), Some("password"));
    assert_eq!(text(get(&violations[0], "reason")), Some("min_length"));
    assert!(matches!(get(get(&violations[0], "params").unwrap(), "min_length"), Some(JsonValue::Int(12))));
    assert!(matches!(&violations[0], JsonValue::Object(entries) if entries.len() == 3));
}

#[test]
fn invalid_template_error_sets_reason_and_field() {
    let app = invalid_template_error("required_email_subject", "templates.email_subject", "Email subject template is required");
    assert_eq!(app.code, "invalid_template");
    assert_eq!(app.status, 400);
    let details = app.details.expect("details");
    assert_eq!(text(get(&details, "reason")), Some("required_email_subject"));
    assert_eq!(text(get(&details, "field")), Some("templates.email_subject"));
}

fn render_internal_error_details(options: AppErrorRenderOptions) -> Option<JsonValue> {
    let chain = vec![cause("&str", CauseKind::Other)];
    let app = from_error_chain(&chain);
    assert_eq!(app.status, 500);
    assert_eq!(app.code, "internal_error");
    merge_response_details(app.details, app.debug_details, current_app_error_render_options(Some(options)))
}

#[test]
fn debug_details_are_gated_by_render_options() {
    let disabled = render_internal_error_details(AppErrorRenderOptions { debug_errors: false });
    assert!(disabled.is_none());
    let enabled = render_internal_error_details(AppErrorRenderOptions { debug_errors: true }).expect("details");
    assert!(get(&enabled, "debug").is_some());
    assert!(!current_app_error_render_options(None).debug_errors);
}

#[test]
fn render_options_apply_to_each_rendering_separately() {
    let disabled = render_internal_error_details(AppErrorRenderOptions { debug_errors: false });
    let enabled = render_internal_error_details(AppErrorRenderOptions { debug_errors: true });
    assert!(disabled.is_none());
    assert!(enabled.as_ref().and_then(|v| get(v, "debug")).is_some());
}

#[test]
fn own_details_and_debug_details_join_when_debug_is_on() {
    let on = AppErrorRenderOptions { debug_errors: true };
    let debug = JsonValue::Object(vec![("debug".to_string(), JsonValue::Null)]);
    let own = JsonValue::Object(vec![("field".to_string(), JsonValue::Str("x".to_string()))]);
    let merged = merge_response_details(Some(own), Some(debug), on).expect("details");
    assert!(get(&merged, "debug").is_some());
    assert_eq!(text(get(&merged, "field")), Some("x"));
}

fn opts(cursor: Option<String>, limit: Option<u32>, sort_by: Option<&str>, sort_dir: Option<&str>) -> FsListOptions {
    FsListOptions {
        cursor,
        limit,
        q: None,
        kind: None,
        hide_dotfiles: false,
        type_sort: Some("dir_first".to_string()),
        sort_by: sort_by.map(|s| s.to_string()),
        sort_dir: sort_dir.map(|s| s.to_string()),
        size_min_bytes: None,
        size_max_bytes: None,
    }
}

fn entry(name: &str, kind: EntryKind, size: u64, mtime: i64) -> DirEntryInfo {
    DirEntryInfo { name: name.to_string(), path: format!("/d/{name}"), kind, size, mtime: Some(mtime) }
}

const WRITTEN_AT: i64 = 1_700_000_000;

fn basic_dir() -> Vec<DirEntryInfo> {
    vec![
        entry("c.txt", EntryKind::File, 1, WRITTEN_AT),
        entry("a_dir", EntryKind::Dir, 0, WRITTEN_AT),
        entry("b.txt", EntryKind::File, 1, WRITTEN_AT),
    ]
}

fn sample() -> Vec<DirEntryInfo> {
    vec![
        entry("g.txt", EntryKind::File, "ggg".len() as u64, WRITTEN_AT),
        entry("a_dir", EntryKind::Dir, 0, WRITTEN_AT),
        entry("b_small.txt", EntryKind::File, "b".len() as u64, WRITTEN_AT),
        entry("d_big.txt", EntryKind::File, "dddddd".len() as u64, WRITTEN_AT),
        entry("c_med.txt", EntryKind::File, "cc".len() as u64, WRITTEN_AT),
        entry("f.txt", EntryKind::File, "ff".len() as u64, WRITTEN_AT),
        entry("e.txt", EntryKind::File, "e".len() as u64, WRITTEN_AT),
    ]
}

fn names(entries: &[FsListEntry]) -> Vec<String> {
    entries.iter().map(|e| e.name.clone()).collect()
}

#[test]
fn fs_list_paged_not_found_maps_to_path_not_found() {
    let err = map_io("/__missing__", IoKind::NotFound, "No such file or directory");
    assert_eq!(err.code, "path_not_found");
    assert_eq!(err.status, 404);
}

#[test]
fn fs_list_paged_basic_pagination_is_stable() {
    let plan = plan_listing(opts(None, Some(2), None, None)).unwrap();
    let page1 = list_page(&plan, None, basic_dir());
    assert_eq!(page1.entries.len(), 2);
    assert!(page1.next_cursor.is_some());
    let key = resolve_cursor(&plan, page1.next_cursor.unwrap()).unwrap();
    let page2 = list_page(&plan, Some(key), basic_dir());
    assert!(!page2.entries.is_empty());
    let names1 = names(&page1.entries);
    for n in names(&page2.entries) {
        assert!(!names1.contains(&n));
    }
}

#[test]
fn fs_list_paged_sort_modes_are_stable() {
    let cases = [
        (None, None),
        (Some("name"), Some("asc")),
        (Some("name"), Some("desc")),
        (Some("mtime"), Some("asc")),
        (Some("mtime"), Some("desc")),
        (Some("size"), Some("asc")),
        (Some("size"), Some("desc")),
    ];
    for (by, dir) in cases {
        let full_plan = plan_listing(opts(None, Some(2000), by, dir)).unwrap();
        let full = list_page(&full_plan, None, sample());
        assert!(full.entries.len() >= 7);

        let plan = plan_listing(opts(None, Some(3), by, dir)).unwrap();
        let page1 = list_page(&plan, None, sample());
        assert_eq!(page1.entries.len(), 3);
        assert!(page1.next_cursor.is_some());

        let key = resolve_cursor(&plan, page1.next_cursor.unwrap()).unwrap();
        let page2 = list_page(&plan, Some(key), sample());
        assert_eq!(page2.entries.len(), 3);

        let mut combined = names(&page1.entries);
        combined.extend(names(&page2.entries));
        assert_eq!(&combined[..], &names(&full.entries)[..combined.len()]);
    }
}

#[test]
fn fs_list_paged_walks_every_page_to_the_full_listing() {
    for (by, dir) in [(None, None), (Some("size"), Some("desc")), (Some("mtime"), Some("asc"))] {
        let full_plan = plan_listing(opts(None, Some(2000), by, dir)).unwrap();
        let full = list_page(&full_plan, None, sample());
        assert_eq!(full.entries.len(), 7);
        assert!(full.next_cursor.is_none());
        let plan = plan_listing(opts(None, Some(3), by, dir)).unwrap();
        let mut walked = Vec::new();
        let mut cursor = None;
        loop {
            let page = list_page(&plan, cursor, sample());
            assert_eq!(page.total, 7);
            walked.extend(names(&page.entries));
            match page.next_cursor {
                Some(c) => cursor = Some(resolve_cursor(&plan, c).unwrap()),
                None => break,
            }
        }
        assert_eq!(walked, names(&full.entries));
    }
}

#[test]
fn fs_sort_options_are_checked() {
    assert_eq!(plan_listing(opts(None, None, Some("color"), None)).err().unwrap().code, "invalid_sort_by");
    assert_eq!(plan_listing(opts(None, None, Some("size"), Some("up"))).err().unwrap().code, "invalid_sort_dir");
}

#[test]
fn list_paths_are_trimmed_and_required() {
    assert_eq!(validate_list_path("  /srv/data ").unwrap(), "/srv/data");
    let e = validate_list_path("   ").unwrap_err();
    assert_eq!((e.status, e.code.as_str(), e.message.as_str()), (400, "invalid_path", "path is required"));
    assert_eq!(text(get(e.details.as_ref().unwrap(), "field")), Some("path"));
}

#[test]
fn too_many_requests_is_429() {
    let e = AppError::too_many_requests("rate_limited", "Slow down");
    assert_eq!((e.status, e.code.as_str(), e.message.as_str()), (429, "rate_limited", "Slow down"));
    assert!(e.details.is_none());
}
