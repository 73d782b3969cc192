use bastion_http::agents_admin::{group_agent_rows, parse_agent_list_raw_query, AgentListRow, AgentStatusFilter};
use bastion_http::dashboard::{agents_offline, executed_offline, fill_trend, offline_flag, recent_run_node};
use bastion_http::jobs_crud::{JobNodeFilter, JobScheduleModeFilter};
use bastion_http::labels::LabelsMode;
use bastion_http::sql_filters::{agent_list_filters, job_list_filters, JobLatestStatusFilter, SqlPiece};
use bastion_http::ws_origin::{expected_host, origin_host_matches, require_ws_same_origin};

fn row(id: &str, label: Option<&str>) -> AgentListRow {
    AgentListRow {
        id: id.to_string(),
        name: None,
        revoked_at: None,
        last_seen_at: Some(995),
        desired_config_snapshot_id: Some("s1".to_string()),
        applied_config_snapshot_id: Some("s1".to_string()),
        last_config_sync_attempt_at: None,
        last_config_sync_error_kind: None,
        last_config_sync_error: None,
        label: label.map(|s| s.to_string()),
    }
}

#[test]
fn agent_rows_group_by_agent_with_labels() {
    let rows = vec![row("a", Some("db")), row("a", Some("web")), row("b", None), row("c", Some("x")), row("a", None)];
    let items = group_agent_rows(&rows, 1000);
    let ids: Vec<&str> = items.iter().map(|i| i.id.as_str()).collect();
    assert_eq!(ids, vec!["a", "b", "c", "a"]);
    assert_eq!(items[0].labels, vec!["db".to_string(), "web".to_string()]);
    assert!(items[1].labels.is_empty());
    assert!(items[0].online);
    assert_eq!(items[0].config_sync_status, "synced");
    assert!(group_agent_rows(&Vec::new(), 0).is_empty());
}

#[test]
fn agent_list_raw_query() {
    let q = parse_agent_list_raw_query(Some("labels=a&labels%5B%5D=b&q=x+y&page=1")).unwrap();
    assert_eq!(q.labels, vec!["a".to_string(), "b".to_string()]);
    assert_eq!(q.search, Some("x y".to_string()));
    assert_eq!(q.page, Some(1));
    assert!(parse_agent_list_raw_query(None).unwrap().labels.is_empty());
}

#[test]
fn dashboard_pieces() {
    assert_eq!(agents_offline(5, 3), 2);
    assert_eq!(agents_offline(i64::MIN, 1), i64::MIN);
    let days = vec!["2024-01-01".to_string(), "2024-01-02".to_string()];
    let rows = vec![("2024-01-02".to_string(), 3, 1), ("2024-01-02".to_string(), 4, 2)];
    let trend = fill_trend(&days, &rows);
    assert_eq!(trend.len(), 2);
    assert_eq!((trend[0].success, trend[0].failed), (0, 0));
    assert_eq!((trend[1].day.as_str(), trend[1].success, trend[1].failed), ("2024-01-02", 4, 2));
    assert_eq!(recent_run_node(None, Some("x".to_string())), ("hub".to_string(), None));
    assert_eq!(recent_run_node(Some("a1".to_string()), Some("Box".to_string())), ("a1".to_string(), Some("Box".to_string())));
    assert!(executed_offline(Some(r#"{"executed_offline": true}"#)));
    assert!(!executed_offline(Some(r#"{"executed_offline": "yes"}"#)));
    assert!(!executed_offline(Some("not json")));
    assert!(!executed_offline(None));
    assert!(offline_flag(Some(true)));
    assert!(!offline_flag(Some(false)));
}

#[test]
fn websocket_origin_checks() {
    assert_eq!(expected_host(true, Some(" Proxy.example:443 , other"), Some("h")), Some("Proxy.example:443".to_string()));
    assert_eq!(expected_host(false, Some("p"), Some("h:8080")), Some("h:8080".to_string()));
    assert_eq!(expected_host(true, None, Some("h")), Some("h".to_string()));
    assert!(origin_host_matches(Some("Example.com"), "example.COM:8080"));
    assert!(!origin_host_matches(None, "example.com"));
    assert!(require_ws_same_origin(Some("https://example.com:9000/x"), false, None, Some("example.com:8443")).is_ok());
    assert!(require_ws_same_origin(Some("https://proxy.example"), true, Some("proxy.example"), Some("internal")).is_ok());
    let err = require_ws_same_origin(Some("https://evil.example"), false, None, Some("example.com")).unwrap_err();
    assert_eq!((err.status, err.code.as_str()), (401, "invalid_origin"));
    assert!(require_ws_same_origin(None, false, None, Some("example.com")).is_err());
    assert!(require_ws_same_origin(Some("not a url"), false, None, Some("example.com")).is_err());
    assert!(require_ws_same_origin(Some("https://example.com"), false, None, None).is_err());
}

fn render(pieces: &[SqlPiece]) -> String {
    let mut out = String::new();
    for p in pieces {
        match p {
            SqlPiece::Text(t) => out.push_str(t),
            SqlPiece::BindText(t) => out.push_str(&format!("[{t}]")),
            SqlPiece::BindInt(n) => out.push_str(&format!("[{n}]")),
        }
    }
    out
}

#[test]
fn agent_filters_sql() {
    assert_eq!(render(&agent_list_filters(&Vec::new(), LabelsMode::And, AgentStatusFilter::All, 0, None)), "");
    let labels = vec!["db".to_string(), "web".to_string()];
    let sql = render(&agent_list_filters(&labels, LabelsMode::And, AgentStatusFilter::Online, 940, Some("Box")));
    assert_eq!(
        sql,
        " WHERE a.id IN (SELECT al2.agent_id FROM agent_labels al2 WHERE al2.label IN ([db], [web]) GROUP BY al2.agent_id HAVING COUNT(DISTINCT al2.label) = [2]) \
AND a.revoked_at IS NULL AND a.last_seen_at IS NOT NULL AND a.last_seen_at >= [940] \
AND (LOWER(COALESCE(a.name, '')) LIKE [%box%] OR LOWER(a.id) LIKE [%box%])"
    );
    let sql = render(&agent_list_filters(&labels, LabelsMode::Or, AgentStatusFilter::Offline, 5, None));
    assert_eq!(
        sql,
        " WHERE a.id IN (SELECT DISTINCT al2.agent_id FROM agent_labels al2 WHERE al2.label IN ([db], [web])) \
AND a.revoked_at IS NULL AND (a.last_seen_at IS NULL OR a.last_seen_at < [5])"
    );
    assert_eq!(
        render(&agent_list_filters(&Vec::new(), LabelsMode::Or, AgentStatusFilter::Revoked, 0, None)),
        " WHERE a.revoked_at IS NOT NULL"
    );
}

#[test]
fn job_filters_sql() {
    let sql = render(&job_list_filters(true, &JobNodeFilter::Any, None, &JobLatestStatusFilter::All, JobScheduleModeFilter::All));
    assert_eq!(sql, "");
    let sql = render(&job_list_filters(
        false,
        &JobNodeFilter::Agent("a1".to_string()),
        Some("NiGHT"),
        &JobLatestStatusFilter::Status("failed".to_string()),
        JobScheduleModeFilter::Scheduled,
    ));
    assert_eq!(
        sql,
        " WHERE j.archived_at IS NULL AND j.agent_id = [a1] AND (LOWER(j.name) LIKE [%night%] OR LOWER(j.id) LIKE [%night%]) \
AND r.status = [failed] AND j.schedule IS NOT NULL"
    );
    let sql = render(&job_list_filters(true, &JobNodeFilter::Hub, None, &JobLatestStatusFilter::Never, JobScheduleModeFilter::Manual));
    assert_eq!(sql, " WHERE j.agent_id IS NULL AND r.id IS NULL AND j.schedule IS NULL");
}
