use bastion_http::retention::{
    delete_budget, preview_items, require_retention_enabled, result_truncated, scan_truncated, snapshot_already_gone,
    split_deletions, RetentionDecision, RetentionRow, PREVIEW_KEEP_LIMIT,
};

fn row(id: &str, pinned: bool, size: Option<u64>) -> RetentionRow {
    RetentionRow { run_id: id.to_string(), ended_at: 0, pinned, source_bytes: size, transfer_bytes: None }
}

fn decision(id: &str, ended_at: i64, reason: &str) -> RetentionDecision {
    RetentionDecision { run_id: id.to_string(), ended_at, reasons: vec![reason.to_string()] }
}

#[test]
fn preview_lists_stored_decisions_up_to_the_limit() {
    let rows = vec![row("r1", false, Some(10)), row("r2", true, None), row("r3", false, Some(30))];
    let decisions = vec![decision("r3", 3, "keep_last"), decision("gone", 9, "keep_last"), decision("r2", 2, "pinned"), decision("r1", 1, "keep_days")];
    let items = preview_items(&decisions, &rows, 2);
    assert_eq!(items.len(), 2);
    assert_eq!((items[0].run_id.as_str(), items[0].ended_at, items[0].source_bytes), ("r3", 3, Some(30)));
    assert_eq!(items[0].reasons, vec!["keep_last".to_string()]);
    assert_eq!((items[1].run_id.as_str(), items[1].pinned), ("r2", true));
    let all = preview_items(&decisions, &rows, PREVIEW_KEEP_LIMIT);
    assert_eq!(all.len(), 3);
    assert!(result_truncated(4, 3, 0, 0));
    assert!(!result_truncated(3, 3, 2, 2));
}

#[test]
fn scan_and_apply_limits() {
    assert!(!scan_truncated(20_000));
    assert!(scan_truncated(20_001));
    assert_eq!(delete_budget(50, 200, 0), 50);
    assert_eq!(delete_budget(50, 200, 180), 20);
    assert_eq!(delete_budget(50, 200, 500), 0);
    assert_eq!(delete_budget(50, u32::MAX, u64::MAX), 0);
    assert_eq!(split_deletions(10, 3), (3, 7));
    assert_eq!(split_deletions(2, 3), (2, 0));
    assert_eq!(split_deletions(5, 0), (0, 5));
    assert!(snapshot_already_gone("deleted") && snapshot_already_gone("missing"));
    assert!(!snapshot_already_gone("present"));
    assert!(require_retention_enabled(true).is_ok());
    assert_eq!(require_retention_enabled(false).unwrap_err().code, "retention_disabled");
}
