use bastion_http::agent_ws::{
    delete_backoff_seconds, delete_jitter_seconds, normalize_delete_error_kind, normalize_error_code,
    sanitize_delete_error_string, should_abandon_delete_task, should_persist_agent_last_seen,
    snapshot_delete_hint_text, task_result_hint_text, task_result_is_retriable,
    AGENT_LAST_SEEN_MIN_UPDATE_SECS,
};
use bastion_http::agents::{agent_online, default_enroll_ttl_seconds};
use bastion_http::agents_admin;
use bastion_http::agents_admin::{
    agent_list_page, config_sync_status, normalize_search_query, parse_agent_list_query,
    parse_status_filter, AgentStatusFilter,
};
use bastion_http::enrollment;
use bastion_http::fleet;

#[test]
fn agents_agent_online_false_when_revoked() {
    assert!(!agent_online(true, Some(1000), 1000));
}

#[test]
fn agents_agent_online_false_when_never_seen() {
    assert!(!agent_online(false, None, 1000));
}

#[test]
fn agents_agent_online_false_when_stale() {
    assert!(!agent_online(false, Some(900), 1000));
}

#[test]
fn agents_agent_online_true_when_recent() {
    assert!(agent_online(false, Some(950), 1000));
}

#[test]
fn admin_agent_online_false_when_revoked() {
    assert!(!agents_admin::agent_online(true, Some(1000), 1000));
}

#[test]
fn admin_agent_online_false_when_never_seen() {
    assert!(!agents_admin::agent_online(false, None, 1000));
}

#[test]
fn admin_agent_online_false_when_stale() {
    assert!(!agents_admin::agent_online(false, Some(900), 1000));
}

#[test]
fn admin_agent_online_true_when_recent() {
    assert!(agents_admin::agent_online(false, Some(950), 1000));
}

#[test]
fn should_persist_last_seen_only_after_min_interval() {
    let base = 1_700_000_000_i64;
    assert!(!should_persist_agent_last_seen(base, base));
    assert!(!should_persist_agent_last_seen(base, base + AGENT_LAST_SEEN_MIN_UPDATE_SECS - 1));
    assert!(should_persist_agent_last_seen(base, base + AGENT_LAST_SEEN_MIN_UPDATE_SECS));
    assert!(should_persist_agent_last_seen(base, base + AGENT_LAST_SEEN_MIN_UPDATE_SECS + 5));
}

#[test]
fn online_window_edge_is_inclusive() {
    assert!(agent_online(false, Some(940), 1000));
    assert!(!agent_online(false, Some(939), 1000));
    assert!(fleet::agent_online(false, Some(i64::MIN), i64::MIN + 10));
}

#[test]
fn enrollment_tokens_live_an_hour_by_default() {
    assert_eq!(default_enroll_ttl_seconds(), 3600);
    assert_eq!(enrollment::default_enroll_ttl_seconds(), 3600);
}

#[test]
fn status_filter_defaults_to_all_and_rejects_unknown() {
    assert_eq!(parse_status_filter(None).unwrap(), AgentStatusFilter::All);
    assert_eq!(parse_status_filter(Some("  ")).unwrap(), AgentStatusFilter::All);
    assert_eq!(parse_status_filter(Some(" online ")).unwrap(), AgentStatusFilter::Online);
    assert_eq!(parse_status_filter(Some("revoked")).unwrap(), AgentStatusFilter::Revoked);
    let err = parse_status_filter(Some("Online")).unwrap_err();
    assert_eq!(err.status, 400);
    assert_eq!(err.code, "invalid_status");
    assert_eq!(err.message, "Invalid status");
}

#[test]
fn search_query_is_trimmed_or_dropped() {
    assert_eq!(normalize_search_query(Some("  edge ".to_string())), Some("edge".to_string()));
    assert_eq!(normalize_search_query(Some(" \t".to_string())), None);
    assert_eq!(normalize_search_query(None), None);
}

#[test]
fn config_sync_status_cases() {
    assert_eq!(config_sync_status(false, Some("a"), Some("a"), None), "offline");
    assert_eq!(config_sync_status(true, Some("a"), Some("a"), Some("net")), "error");
    assert_eq!(config_sync_status(true, Some("a"), Some("a"), None), "synced");
    assert_eq!(config_sync_status(true, Some("a"), Some("b"), None), "pending");
    assert_eq!(config_sync_status(true, None, None, None), "pending");
    assert_eq!(fleet::config_sync_state(true, Some("x"), Some("x"), None), "synced");
    assert_eq!(fleet::fleet_status(true, true), "revoked");
    assert_eq!(fleet::fleet_status(false, true), "online");
    assert_eq!(fleet::fleet_status(false, false), "offline");
}

#[test]
fn agent_list_query_reads_labels_and_paging() {
    let pairs = vec![
        ("labels".to_string(), "b".to_string()),
        ("labels[]".to_string(), "a".to_string()),
        ("status".to_string(), "online".to_string()),
        ("page".to_string(), "2".to_string()),
        ("page_size".to_string(), "+7".to_string()),
        ("other".to_string(), "x".to_string()),
        ("q".to_string(), "db".to_string()),
    ];
    let q = parse_agent_list_query(&pairs).unwrap();
    assert_eq!(q.labels, vec!["b".to_string(), "a".to_string()]);
    assert_eq!(q.status, Some("online".to_string()));
    assert_eq!(q.search, Some("db".to_string()));
    assert_eq!(q.page, Some(2));
    assert_eq!(q.page_size, Some(7));

    let bad = vec![("page".to_string(), "two".to_string()), ("page_size".to_string(), "x".to_string())];
    let err = parse_agent_list_query(&bad).unwrap_err();
    assert_eq!(err.code, "invalid_page");
    let bad = vec![("page_size".to_string(), "99999999999999999999".to_string())];
    assert_eq!(parse_agent_list_query(&bad).unwrap_err().code, "invalid_page_size");
}

#[test]
fn agent_list_paging_rules() {
    let all = agent_list_page(None, None, 42).unwrap();
    assert_eq!((all.page, all.page_size, all.offset), (1, 42, None));
    let p = agent_list_page(Some(3), None, 42).unwrap();
    assert_eq!((p.page, p.page_size, p.offset), (3, 20, Some(40)));
    let p = agent_list_page(None, Some(500), 42).unwrap();
    assert_eq!((p.page, p.page_size, p.offset), (1, 100, Some(0)));
    assert_eq!(agent_list_page(Some(0), None, 1).unwrap_err().code, "invalid_page");
    assert_eq!(agent_list_page(Some(1), Some(0), 1).unwrap_err().code, "invalid_page_size");
    let p = agent_list_page(Some(i64::MAX), Some(100), 1).unwrap();
    assert_eq!(p.offset, Some(i64::MAX));
}

#[test]
fn error_codes_are_normalized() {
    assert_eq!(normalize_error_code(Some("  Network Error!! ")), "network_error");
    assert_eq!(normalize_error_code(Some("__a--b__")), "a_b");
    assert_eq!(normalize_error_code(Some("***")), "unknown");
    assert_eq!(normalize_error_code(None), "unknown");
    assert_eq!(normalize_error_code(Some("Ünïcode")), "n_code");
    assert_eq!(normalize_error_code(Some(" Source-Consistency ")), "source_consistency");
}

#[test]
fn normalizing_an_error_code_twice_is_normalizing_once() {
    for raw in [" Source-Consistency ", "__a--b__", "***", "Network Error!!", "x", "Ünïcode", "  "] {
        let once = normalize_error_code(Some(raw));
        assert_eq!(normalize_error_code(Some(once.as_str())), once);
        assert!(!once.is_empty() && !once.starts_with('_') && !once.ends_with('_') && !once.contains("__"));
        assert!(once.chars().all(|c| c.is_ascii_lowercase() || c.is_ascii_digit() || c == '_'));
    }
}

#[test]
fn task_result_hints_and_retries() {
    assert!(task_result_hint_text("source_consistency").starts_with("source changed"));
    assert_eq!(
        task_result_hint_text("timeout"),
        "transient execution failure detected; review agent connectivity and retry once the environment stabilizes"
    );
    assert_eq!(
        task_result_hint_text("whatever"),
        "inspect the related agent logs and run summary for the root cause"
    );
    assert!(task_result_is_retriable("upstream_unavailable"));
    assert!(task_result_is_retriable("rate_limited"));
    assert!(!task_result_is_retriable("integrity_check"));
}

#[test]
fn delete_error_kinds_and_hints() {
    assert_eq!(normalize_delete_error_kind(Some(" auth ")), "auth");
    assert_eq!(normalize_delete_error_kind(Some("HTTP")), "unknown");
    assert_eq!(normalize_delete_error_kind(None), "unknown");
    assert_eq!(snapshot_delete_hint_text("network"), "check network connectivity and retry artifact deletion");
    assert_eq!(snapshot_delete_hint_text("x"), "inspect artifact delete task logs for the root cause");
}

#[test]
fn delete_error_strings_are_flattened_and_cut() {
    assert_eq!(sanitize_delete_error_string("  a\nb\rc  "), "a b c");
    let long = "x".repeat(600);
    let cut = sanitize_delete_error_string(&long);
    assert_eq!(cut, format!("{}…", "x".repeat(500)));
    let exact = "y".repeat(500);
    assert_eq!(sanitize_delete_error_string(&exact), exact);
}

#[test]
fn delete_tasks_are_abandoned_after_limits() {
    assert!(!should_abandon_delete_task(19, 0, 100));
    assert!(should_abandon_delete_task(20, 0, 100));
    assert!(should_abandon_delete_task(1, 0, 30 * 24 * 3600));
    assert!(!should_abandon_delete_task(1, 0, 30 * 24 * 3600 - 1));
}

#[test]
fn delete_backoff_doubles_up_to_cap_with_jitter() {
    let j1 = delete_jitter_seconds("run-1", 1, 30);
    assert!((0..30).contains(&j1));
    assert_eq!(delete_jitter_seconds("run-1", 1, 0), 0);
    // hash("ab") = (97 * 131 + 98) = 12805; + 1 * 97 = 12902; 12902 % 60 = 2
    assert_eq!(delete_jitter_seconds("ab", 1, 60), 2);
    assert_eq!(delete_backoff_seconds("run-1", 1, "network"), 60 + j1);
    let j3 = delete_jitter_seconds("run-1", 3, 30);
    assert_eq!(delete_backoff_seconds("run-1", 3, "http"), 240 + j3);
    let j0 = delete_jitter_seconds("run-1", 1, 60);
    assert_eq!(delete_backoff_seconds("run-1", 0, "weird"), 300 + j0);
    let j40 = delete_jitter_seconds("run-1", 40, 600);
    assert_eq!(delete_backoff_seconds("run-1", 40, "auth"), 86400 + j40);
}
