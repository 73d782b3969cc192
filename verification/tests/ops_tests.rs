use bastion_http::agents_ingest::{check_ingest_ownership, validate_ingest_run, IngestEvent, IngestRun};
use bastion_http::bulk_operations::{
    effective_name_template, free_job_name, normalize_node_ids, planned_base_name, replace_text, validate_kind,
    webdav_preview_action,
};
use bastion_http::incomplete_cleanup::{normalize_reason, validate_status, validate_target_type};
use bastion_http::int_parse::parse_i64;
use bastion_http::integrations::{
    classify_distribution_state, classify_notifications_state, classify_storage_state, DistributionSummary,
    NotificationsSummary, StorageSummary,
};
use bastion_http::jobs_crud::{
    normalize_optional_string, normalize_search_query, parse_jobs_sort, parse_node_filter,
    parse_schedule_mode_filter, require_job_name, JobNodeFilter, JobScheduleModeFilter, JobSort,
};
use bastion_http::operations::{check_restore_selection, plan_restore, RestoreDestination};
use bastion_http::retention::day_start_utc;

fn strings(v: &[&str]) -> Vec<String> {
    v.iter().map(|s| s.to_string()).collect()
}

#[test]
fn node_ids_are_trimmed_sorted_unique() {
    assert_eq!(normalize_node_ids(strings(&[" b ", "a", "", "b", "  "])), strings(&["a", "b"]));
    assert!(normalize_node_ids(strings(&[" "])).is_empty());
}

#[test]
fn bulk_kinds() {
    assert_eq!(validate_kind("job_deploy").unwrap(), "job_deploy");
    assert_eq!(validate_kind("sync_config_now").unwrap(), "sync_config_now");
    let err = validate_kind(" job_deploy").unwrap_err();
    assert_eq!(err.code, "invalid_kind");
    assert_eq!(err.message, "Invalid kind");
}

#[test]
fn bulk_preview_names_and_actions() {
    assert_eq!(webdav_preview_action(true, false), ("skip", Some("already exists".to_string())));
    assert_eq!(webdav_preview_action(true, true), ("update", None));
    assert_eq!(webdav_preview_action(false, false), ("update", None));
    assert_eq!(effective_name_template(None), "{name} ({node})");
    assert_eq!(effective_name_template(Some("  ".to_string())), "{name} ({node})");
    assert_eq!(effective_name_template(Some(" {name}-{node} ".to_string())), "{name}-{node}");
    assert_eq!(replace_text("a{x}b{x}", "{x}", "1"), "a1b1");
    assert_eq!(replace_text("aaa", "aa", "b"), "ba");
    assert_eq!(planned_base_name("{name} ({node})", "Nightly", "edge-1"), "Nightly (edge-1)");
    assert_eq!(planned_base_name(" {node} ", "", ""), "");
    let used = strings(&["Nightly (edge-1)", "Nightly (edge-1) #2", "Other"]);
    assert_eq!(free_job_name("Nightly (edge-1)", &used), "Nightly (edge-1) #3");
    assert_eq!(free_job_name("Fresh", &used), "Fresh");
    assert_eq!(free_job_name("Other", &used), "Other #2");
}

#[test]
fn ingest_reports_are_validated_in_order() {
    let ev = |seq: i64, level: &str| IngestEvent {
        seq,
        ts: 1,
        level: level.to_string(),
        kind: "upload".to_string(),
        message: "ok".to_string(),
    };
    let good = IngestRun {
        id: "r1".to_string(),
        job_id: "j1".to_string(),
        started_at: 10,
        ended_at: 20,
        error: None,
        events: vec![ev(1, "info"), ev(0, "")],
    };
    assert!(validate_ingest_run(&good).is_ok());
    let mut bad = IngestRun { events: vec![ev(2, " ")], ..good };
    assert_eq!(validate_ingest_run(&bad).unwrap_err().code, "invalid_event");
    bad.ended_at = 5;
    assert_eq!(validate_ingest_run(&bad).unwrap_err().code, "invalid_ended_at");
    bad.id = "x".repeat(129);
    let err = validate_ingest_run(&bad).unwrap_err();
    assert_eq!((err.code.as_str(), err.message.as_str()), ("invalid_run_id", "Run id is required"));
    let long_error = IngestRun {
        id: "r".to_string(),
        job_id: "j".to_string(),
        started_at: 0,
        ended_at: 0,
        error: Some("e".repeat(4097)),
        events: Vec::new(),
    };
    assert_eq!(validate_ingest_run(&long_error).unwrap_err().code, "invalid_error");
    let many = IngestRun {
        id: "r".to_string(),
        job_id: "j".to_string(),
        started_at: 0,
        ended_at: 0,
        error: None,
        events: (0..2001).map(|i| ev(i, "info")).collect(),
    };
    assert_eq!(validate_ingest_run(&many).unwrap_err().code, "too_many_events");
    let negative = IngestRun { id: "r".to_string(), job_id: " ".to_string(), started_at: -1, ended_at: 0, error: None, events: Vec::new() };
    assert_eq!(validate_ingest_run(&negative).unwrap_err().code, "invalid_job_id");
}

#[test]
fn ingest_ownership() {
    assert!(check_ingest_ownership(Some(Some("a1")), "a1", None, "j1").is_ok());
    assert!(check_ingest_ownership(Some(Some("a1")), "a1", Some("j1"), "j1").is_ok());
    assert_eq!(check_ingest_ownership(None, "a1", None, "j1").unwrap_err().message, "Job not found");
    assert_eq!(
        check_ingest_ownership(Some(None), "a1", None, "j1").unwrap_err().message,
        "Job is not assigned to this Agent"
    );
    let err = check_ingest_ownership(Some(Some("a1")), "a1", Some("j2"), "j1").unwrap_err();
    assert_eq!(err.code, "invalid_run_id");
}

#[test]
fn restore_planning() {
    assert!(check_restore_selection(&strings(&[" ", ""]), &strings(&[" "])).is_err());
    assert!(check_restore_selection(&strings(&[" "]), &strings(&["etc"])).is_ok());
    assert!(check_restore_selection(&Vec::new(), &strings(&["x"])).is_ok());
    assert_eq!(
        check_restore_selection(&Vec::new(), &Vec::new()).unwrap_err().message,
        "restore selection is empty"
    );

    let local = RestoreDestination::LocalFs { node_id: " n1 ".to_string(), directory: " /restore ".to_string() };
    let plan = plan_restore(&local, None, Some("a9"), "hub").unwrap();
    assert_eq!(plan.executor_node_id, "n1");
    match plan.destination {
        RestoreDestination::LocalFs { node_id, directory } => {
            assert_eq!(node_id, "n1");
            assert_eq!(directory, "/restore");
        }
        _ => panic!("local destination expected"),
    }
    let err = plan_restore(&local, Some("n2"), None, "hub").unwrap_err();
    assert_eq!(err.code, "invalid_executor");
    assert!(plan_restore(&local, Some(" n1 "), None, "hub").is_ok());

    let dav = RestoreDestination::Webdav {
        base_url: "https://dav".to_string(),
        secret_name: "s".to_string(),
        prefix: " p ".to_string(),
    };
    assert_eq!(plan_restore(&dav, None, Some(" a9 "), "hub").unwrap().executor_node_id, "a9");
    assert_eq!(plan_restore(&dav, None, Some("  "), "hub").unwrap().executor_node_id, "hub");
    assert_eq!(plan_restore(&dav, Some("n5"), Some("a9"), "hub").unwrap().executor_node_id, "n5");
    let bad = RestoreDestination::Webdav { base_url: "u".to_string(), secret_name: " ".to_string(), prefix: "p".to_string() };
    let err = plan_restore(&bad, None, None, "hub").unwrap_err();
    assert_eq!((err.code.as_str(), err.message.as_str()), ("invalid_destination", "destination.secret_name is required"));
}

#[test]
fn integer_parameters() {
    assert_eq!(parse_i64("42"), Some(42));
    assert_eq!(parse_i64("-7"), Some(-7));
    assert_eq!(parse_i64("+7"), Some(7));
    assert_eq!(parse_i64("9223372036854775807"), Some(i64::MAX));
    assert_eq!(parse_i64("-9223372036854775808"), Some(i64::MIN));
    assert_eq!(parse_i64("9223372036854775808"), None);
    assert_eq!(parse_i64(""), None);
    assert_eq!(parse_i64("-"), None);
    assert_eq!(parse_i64(" 1"), None);
    assert_eq!(parse_i64("1e3"), None);
    for s in ["0", "-0", "123456789", "-99", "+5", "00012"] {
        assert_eq!(parse_i64(s), s.parse::<i64>().ok());
    }
}

#[test]
fn integration_states() {
    assert_eq!(classify_storage_state(&StorageSummary { items_total: 0, in_use_total: 0, invalid_total: 3 }), "empty");
    assert_eq!(classify_storage_state(&StorageSummary { items_total: 1, in_use_total: 0, invalid_total: 1 }), "degraded");
    assert_eq!(classify_storage_state(&StorageSummary { items_total: 1, in_use_total: 1, invalid_total: 0 }), "ready");
    assert_eq!(
        classify_notifications_state(&NotificationsSummary { destinations_total: 0, recent_failures_total: 0, queue_backlog_total: 0 }),
        "empty"
    );
    assert_eq!(
        classify_notifications_state(&NotificationsSummary { destinations_total: 2, recent_failures_total: 1, queue_backlog_total: 0 }),
        "degraded"
    );
    assert_eq!(
        classify_notifications_state(&NotificationsSummary { destinations_total: 0, recent_failures_total: 0, queue_backlog_total: 4 }),
        "ready"
    );
    assert_eq!(classify_distribution_state(&DistributionSummary { coverage_total: 0, drifted_total: 9, failed_total: 0 }), "empty");
    assert_eq!(classify_distribution_state(&DistributionSummary { coverage_total: 3, drifted_total: 0, failed_total: 1 }), "degraded");
    assert_eq!(classify_distribution_state(&DistributionSummary { coverage_total: 3, drifted_total: 0, failed_total: 0 }), "ready");
}

#[test]
fn job_list_parameters() {
    assert_eq!(require_job_name("  Nightly ").unwrap(), "Nightly");
    let err = require_job_name(" ").unwrap_err();
    assert_eq!((err.code.as_str(), err.message.as_str()), ("invalid_name", "Job name is required"));
    assert_eq!(normalize_optional_string(Some(" x ")), Some("x".to_string()));
    assert_eq!(normalize_optional_string(Some("   ")), None);
    assert_eq!(normalize_search_query(None), None);
    assert!(matches!(parse_node_filter(None), JobNodeFilter::Any));
    assert!(matches!(parse_node_filter(Some(" all ")), JobNodeFilter::Any));
    assert!(matches!(parse_node_filter(Some("hub")), JobNodeFilter::Hub));
    match parse_node_filter(Some(" a1 ")) {
        JobNodeFilter::Agent(a) => assert_eq!(a, "a1"),
        _ => panic!("agent filter expected"),
    }
    assert_eq!(parse_schedule_mode_filter(None).unwrap(), JobScheduleModeFilter::All);
    assert_eq!(parse_schedule_mode_filter(Some("manual")).unwrap(), JobScheduleModeFilter::Manual);
    assert_eq!(parse_schedule_mode_filter(Some("cron")).unwrap_err().code, "invalid_schedule_mode");
    assert_eq!(parse_jobs_sort(None).unwrap(), JobSort::UpdatedDesc);
    assert_eq!(parse_jobs_sort(Some(" name_desc ")).unwrap(), JobSort::NameDesc);
    assert_eq!(parse_jobs_sort(Some("size")).unwrap_err().code, "invalid_sort");
}

#[test]
fn retention_days_and_cleanup_inputs() {
    assert_eq!(day_start_utc(0), 0);
    assert_eq!(day_start_utc(86_399), 0);
    assert_eq!(day_start_utc(86_400 * 3 + 5), 86_400 * 3);
    assert_eq!(day_start_utc(-1), 0);
    assert_eq!(day_start_utc(-86_401), -86_400);
    assert_eq!(day_start_utc(i64::MIN), (i64::MIN / 86_400) * 86_400);
    assert!(validate_status("retrying").is_ok());
    assert_eq!(validate_status("paused").unwrap_err().code, "invalid_status");
    assert!(validate_target_type("local_dir").is_ok());
    assert_eq!(validate_target_type("s3").unwrap_err().message, "Invalid target_type");
    assert_eq!(normalize_reason(None), None);
    assert_eq!(normalize_reason(Some("  ")), None);
    assert_eq!(normalize_reason(Some(" disk full ")), Some("disk full".to_string()));
    assert_eq!(normalize_reason(Some(&"r".repeat(201))), Some(format!("{}…", "r".repeat(200))));
}
