use bastion_http::archive_cascade::{cascade_page, cascade_start, CascadeItem, CascadeState, CASCADE_MAX_ENQUEUE};
use bastion_http::list_paging::{page_window, PageWindow};
use bastion_http::fleet::{fleet_status, fleet_summary, group_fleet_rows, FleetRow};
use bastion_http::notifications_queue::{
    normalize_filter_list, parse_queue_query, parse_queue_raw_query, queue_filters,
    notification_action_applied, require_notification, require_supported_channel, retry_now_channel_check,
    retry_now_destination_check, NotificationAction,
};

fn fleet_row(id: &str, revoked: bool, last_seen: Option<i64>, label: Option<&str>) -> FleetRow {
    FleetRow {
        id: id.to_string(),
        name: Some(format!("agent {}", id)),
        revoked_at: if revoked { Some(1) } else { None },
        last_seen_at: last_seen,
        desired_config_snapshot_id: Some("s2".to_string()),
        applied_config_snapshot_id: Some("s1".to_string()),
        last_config_sync_error_kind: None,
        last_config_sync_error: None,
        assigned_jobs_total: 3,
        pending_tasks_total: 1,
        label: label.map(|s| s.to_string()),
    }
}

#[test]
fn fleet_status_names() {
    assert_eq!(fleet_status(true, true), "revoked");
    assert_eq!(fleet_status(false, true), "online");
    assert_eq!(fleet_status(false, false), "offline");
}

#[test]
fn fleet_rows_group_by_agent_with_labels() {
    let rows = vec![
        fleet_row("a", false, Some(990), Some("prod")),
        fleet_row("a", false, Some(990), Some("web")),
        fleet_row("b", false, Some(100), None),
        fleet_row("c", true, Some(1000), Some("old")),
    ];
    let items = group_fleet_rows(&rows, 1000);
    assert_eq!(items.len(), 3);
    assert_eq!(items[0].id, "a");
    assert_eq!(items[0].labels, vec!["prod".to_string(), "web".to_string()]);
    assert_eq!(items[0].status, "online");
    assert_eq!(items[0].config_sync_state, "pending");
    assert_eq!(items[0].assigned_jobs_total, 3);
    assert_eq!(items[1].id, "b");
    assert!(items[1].labels.is_empty());
    assert_eq!(items[1].status, "offline");
    assert_eq!(items[1].config_sync_state, "offline");
    assert_eq!(items[2].status, "revoked");
    assert_eq!(items[2].labels, vec!["old".to_string()]);
}

#[test]
fn fleet_summary_counts_each_status_once() {
    let mut rows = vec![
        fleet_row("a", false, Some(990), None),
        fleet_row("b", false, Some(100), None),
        fleet_row("c", true, Some(1000), None),
        fleet_row("d", false, Some(999), None),
    ];
    rows[3].applied_config_snapshot_id = Some("s2".to_string());
    let items = group_fleet_rows(&rows, 1000);
    let s = fleet_summary(&items);
    assert_eq!((s.total, s.online, s.offline, s.revoked, s.drifted), (4, 2, 1, 1, 1));
    assert_eq!(s.online + s.offline + s.revoked, s.total);
}

fn snap(id: &str, ended_at: i64, pinned: bool) -> CascadeItem {
    CascadeItem { run_id: id.to_string(), ended_at, pinned }
}

#[test]
fn cascade_skips_pinned_and_moves_cursor() {
    let start = cascade_start();
    assert_eq!(start.enqueued, 0);
    assert!(!start.done);
    let page = vec![snap("r3", 30, false), snap("r2", 20, true), snap("r1", 10, false)];
    let (state, picked) = cascade_page(start, &page);
    assert_eq!(picked, vec![0, 2]);
    assert_eq!(state.enqueued, 2);
    assert_eq!(state.skipped_pinned, 1);
    assert_eq!(state.before_ended_at, Some(10));
    assert_eq!(state.before_run_id.as_deref(), Some("r1"));
    assert!(!state.done);
    let (end, none) = cascade_page(state, &Vec::new());
    assert!(end.done);
    assert!(none.is_empty());
    assert_eq!(end.enqueued, 2);
}

#[test]
fn cascade_stops_at_the_limit() {
    let state = CascadeState {
        before_ended_at: Some(50),
        before_run_id: Some("x".to_string()),
        enqueued: CASCADE_MAX_ENQUEUE - 1,
        skipped_pinned: 0,
        done: false,
    };
    let page = vec![snap("r3", 30, false), snap("r2", 20, false)];
    let (state, picked) = cascade_page(state, &page);
    assert_eq!(picked, vec![0]);
    assert_eq!(state.enqueued, CASCADE_MAX_ENQUEUE);
    assert!(state.done);
    assert_eq!(state.before_ended_at, Some(20));
}

#[test]
fn queue_channels_are_checked() {
    assert!(require_supported_channel("email").is_ok());
    assert!(require_supported_channel("wecom_bot").is_ok());
    let err = require_supported_channel("sms").unwrap_err();
    assert_eq!((err.status, err.code.as_str()), (400, "invalid_channel"));
    assert!(err.details.is_some());
}

#[test]
fn queue_filter_lists_are_normalized() {
    let out = normalize_filter_list(vec![" failed ".to_string(), "".to_string(), "queued".to_string(), "failed".to_string()]);
    assert_eq!(out, vec!["failed".to_string(), "queued".to_string()]);
    let (s, c) = queue_filters(vec!["sent".to_string()], vec!["email ".to_string(), "email".to_string()]).unwrap();
    assert_eq!(s, vec!["sent".to_string()]);
    assert_eq!(c, vec!["email".to_string()]);
    let err = queue_filters(Vec::new(), vec!["email".to_string(), "pager".to_string()]).unwrap_err();
    assert_eq!(err.code, "invalid_channel");
}

#[test]
fn queue_query_reads_filters_and_paging() {
    let q = parse_queue_raw_query(Some("status=failed&status%5B%5D=queued&channel=email&page=2&page_size=50&x=1")).unwrap();
    assert_eq!(q.statuses, vec!["failed".to_string(), "queued".to_string()]);
    assert_eq!(q.channels, vec!["email".to_string()]);
    assert_eq!((q.page, q.page_size), (Some(2), Some(50)));
    let empty = parse_queue_raw_query(None).unwrap();
    assert!(empty.statuses.is_empty() && empty.page.is_none());
    let err = parse_queue_query(&vec![("page".to_string(), "two".to_string())]).unwrap_err();
    assert_eq!((err.status, err.code.as_str(), err.message.as_str()), (400, "invalid_page", "Invalid page"));
    let err = parse_queue_raw_query(Some("page_size=&page=x")).unwrap_err();
    assert_eq!(err.code, "invalid_page_size");
}

#[test]
fn queue_page_clamps_and_saturates() {
    assert_eq!(page_window(None, None), PageWindow { page: 1, page_size: 20, offset: 0 });
    assert_eq!(page_window(Some(3), Some(500)), PageWindow { page: 3, page_size: 100, offset: 200 });
    assert_eq!(page_window(Some(-4), Some(0)), PageWindow { page: 1, page_size: 1, offset: 0 });
    assert_eq!(page_window(Some(i64::MAX), Some(10)).offset, i64::MAX);
}

#[test]
fn retry_now_checks_settings_channel_and_destination() {
    let e = retry_now_channel_check(false, "email", true, true).unwrap_err();
    assert_eq!((e.status, e.code.as_str()), (409, "notifications_disabled"));
    let e = retry_now_channel_check(true, "wecom_bot", false, true).unwrap_err();
    assert_eq!((e.status, e.code.as_str()), (409, "channel_disabled"));
    assert!(retry_now_channel_check(true, "email", false, true).is_ok());
    let e = retry_now_channel_check(true, "fax", true, true).unwrap_err();
    assert_eq!((e.status, e.code.as_str()), (400, "invalid_channel"));
    assert_eq!(retry_now_destination_check(false, true).unwrap_err().code, "destination_deleted");
    assert_eq!(retry_now_destination_check(true, false).unwrap_err().code, "destination_disabled");
    assert!(retry_now_destination_check(true, true).is_ok());
}

#[test]
fn notification_actions_report_what_was_not_applied() {
    assert!(require_notification(true).is_ok());
    assert_eq!(require_notification(false).unwrap_err().status, 404);
    assert!(notification_action_applied(NotificationAction::Cancel, true).is_ok());
    assert_eq!(notification_action_applied(NotificationAction::Cancel, false).unwrap_err().code, "not_cancelable");
    assert_eq!(notification_action_applied(NotificationAction::RetryNow, false).unwrap_err().message, "Notification is not retryable");
}
