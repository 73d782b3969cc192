use bastion_http::command_center::{
    activity_rank, activity_suffix_for_operation, activity_suffix_for_run, fleet_href, job_scope_string,
    jobs_scope_href, node_id_for_agent, node_name_for_agent, notifications_queue_href, run_detail_href,
    runs_index_href, scope_label_from_agent, severity_rank, ReadinessOverall, RequestedScope, ResolvedRange,
    SectionState, Severity,
};
use bastion_http::command_center_sections::{
    build_attention, build_critical_activity, build_watchlist, section_from_items, section_or_degraded,
    ActivityOperationRow, ActivityRunRow, AgentIssueRow, AttentionRunRow, CommandCenterSection,
    NotificationFailureRow,
};
use bastion_http::json::JsonValue;
use bastion_http::readiness::{
    build_recovery_readiness, recovery_readiness_or_degraded, ActiveJobRow, JobSignalRow, LatestBackupRow,
    LatestVerifyRow,
};

fn run(id: &str, agent: Option<&str>, status: &str, at: i64) -> AttentionRunRow {
    AttentionRunRow {
        run_id: id.to_string(),
        job_id: format!("job-{id}"),
        job_name: format!("Job {id}"),
        agent_id: agent.map(|s| s.to_string()),
        agent_name: None,
        status: status.to_string(),
        occurred_at: at,
        error: None,
    }
}

fn note(id: &str, agent: Option<&str>, at: i64) -> NotificationFailureRow {
    NotificationFailureRow {
        notification_id: id.to_string(),
        run_id: format!("run-{id}"),
        job_id: "job".to_string(),
        job_name: "Nightly".to_string(),
        agent_id: agent.map(|s| s.to_string()),
        agent_name: None,
        channel: "email".to_string(),
        occurred_at: at,
        error: None,
    }
}

#[test]
fn scope_parsing_and_text() {
    assert!(matches!(RequestedScope::parse(None).unwrap(), RequestedScope::All));
    assert!(matches!(RequestedScope::parse(Some(" hub ")).unwrap(), RequestedScope::Hub));
    match RequestedScope::parse(Some("agent: a1 ")).unwrap() {
        RequestedScope::Agent(a) => assert_eq!(a, "a1"),
        _ => panic!("agent scope expected"),
    }
    let err = RequestedScope::parse(Some("agent:")).unwrap_err();
    assert_eq!(err.code, "invalid_scope");
    assert_eq!(RequestedScope::Agent("x".to_string()).as_str(), "agent:x");
    assert!(RequestedScope::Hub.includes_agent(None));
    assert!(!RequestedScope::Hub.includes_agent(Some("a")));
    assert!(RequestedScope::Agent("a".to_string()).includes_agent(Some("a")));
}

#[test]
fn range_presets() {
    let r = ResolvedRange::parse(None, 1_000_000).unwrap();
    assert_eq!((r.preset.as_str(), r.from, r.to), ("24h", 1_000_000 - 86400, 1_000_000));
    let r = ResolvedRange::parse(Some("7d"), 100).unwrap();
    assert_eq!(r.from, 100 - 604800);
    let r = ResolvedRange::parse(Some("30d"), i64::MIN + 5).unwrap();
    assert_eq!(r.from, i64::MIN);
    assert_eq!(ResolvedRange::parse(Some("1y"), 0).unwrap_err().code, "invalid_range");
}

fn reason_and_field(details: Option<JsonValue>) -> Vec<(String, String)> {
    match details {
        Some(JsonValue::Object(entries)) => entries
            .into_iter()
            .map(|(k, v)| match v {
                JsonValue::Str(s) => (k, s),
                _ => panic!("string expected"),
            })
            .collect(),
        _ => panic!("details object expected"),
    }
}

#[test]
fn scope_and_range_errors_carry_exactly_reason_and_field() {
    for raw in ["agent:", "HUB", "agent:   ", "fleet"] {
        let e = RequestedScope::parse(Some(raw)).unwrap_err();
        assert_eq!((e.status, e.code.as_str(), e.message.as_str()), (400, "invalid_scope", "invalid scope"));
        assert_eq!(
            reason_and_field(e.details),
            vec![("reason".to_string(), "unsupported_value".to_string()), ("field".to_string(), "scope".to_string())]
        );
    }
    let e = ResolvedRange::parse(Some("1y"), 0).unwrap_err();
    assert_eq!((e.status, e.code.as_str(), e.message.as_str()), (400, "invalid_range", "invalid range"));
    assert_eq!(
        reason_and_field(e.details),
        vec![("reason".to_string(), "unsupported_value".to_string()), ("field".to_string(), "range".to_string())]
    );
}

#[test]
fn ranks_hrefs_and_labels() {
    assert!(severity_rank(Severity::Critical) < severity_rank(Severity::Warning));
    assert!(severity_rank(Severity::Warning) < severity_rank(Severity::Info));
    assert_eq!(activity_rank("run_failed"), 0);
    assert_eq!(activity_rank("operation_restore_canceled"), 1);
    assert_eq!(activity_rank("run_running"), 2);
    assert_eq!(activity_rank("operation_verify_success"), 3);
    assert_eq!(activity_rank("run_success"), 4);
    assert_eq!(job_scope_string(Some("a1")), "agent:a1");
    assert_eq!(job_scope_string(None), "hub");
    assert_eq!(node_id_for_agent(None), "hub");
    assert_eq!(node_name_for_agent(Some("a1"), Some("Box")), Some("Box".to_string()));
    assert_eq!(scope_label_from_agent(None), "Hub");
    assert_eq!(run_detail_href("r1", "agent:a 1"), "/runs/r1?from_scope=agent%3Aa+1");
    assert_eq!(jobs_scope_href("agent:a1"), "/jobs?scope=agent%3Aa1");
    assert_eq!(jobs_scope_href("agent:a b/ü*-._~"), "/jobs?scope=agent%3Aa+b%2F%C3%BC*-._%7E");
    assert_eq!(runs_index_href("all"), "/runs?scope=all");
    assert_eq!(fleet_href("offline"), "/fleet?status=offline");
    assert_eq!(notifications_queue_href("failed"), "/integrations/notifications/queue?status=failed");
    assert_eq!(activity_suffix_for_run("rejected"), "was rejected");
    assert_eq!(activity_suffix_for_operation("verify", "failed"), "verification failed");
    assert_eq!(activity_suffix_for_operation("prune", "queued"), "prune queued");
}

#[test]
fn attention_orders_critical_first_then_newest_and_keeps_eight() {
    let runs = vec![
        run("r1", None, "rejected", 50),
        run("r2", Some("a1"), "failed", 10),
        run("r3", None, "failed", 30),
    ];
    let notes = vec![note("n1", None, 100)];
    let agents = vec![AgentIssueRow {
        agent_id: "a2".to_string(),
        agent_name: Some("Box".to_string()),
        revoked_at: None,
        last_seen_at: None,
        created_at: 70,
    }];
    let s = build_attention(&RequestedScope::All, &runs, &notes, &agents);
    assert_eq!(s.state, SectionState::Ready);
    let ids: Vec<&str> = s.items.iter().map(|i| i.id.as_str()).collect();
    assert_eq!(ids, vec!["run:r3", "run:r2", "notification:n1", "agent:a2", "run:r1"]);
    assert_eq!(s.items[3].title, "Box is offline");
    assert_eq!(s.items[3].primary_action.href, "/fleet?status=offline");
    assert_eq!(s.items[0].summary, "Latest run finished as failed.");

    let hub = build_attention(&RequestedScope::Hub, &runs, &notes, &agents);
    let ids: Vec<&str> = hub.items.iter().map(|i| i.id.as_str()).collect();
    assert_eq!(ids, vec!["run:r3", "notification:n1", "run:r1"]);

    let many: Vec<AttentionRunRow> = (0..12).map(|i| run(&format!("x{i}"), None, "failed", 5)).collect();
    let s = build_attention(&RequestedScope::All, &many, &Vec::new(), &Vec::new());
    let ids: Vec<&str> = s.items.iter().map(|i| i.id.as_str()).collect();
    assert_eq!(ids, vec!["run:x0", "run:x1", "run:x2", "run:x3", "run:x4", "run:x5", "run:x6", "run:x7"]);

    let empty = build_attention(&RequestedScope::Agent("zz".to_string()), &runs, &notes, &agents);
    assert_eq!(empty.state, SectionState::Empty);
    assert!(empty.items.is_empty());
}

fn act_run(id: &str, status: &str, started: i64, ended: Option<i64>) -> ActivityRunRow {
    ActivityRunRow {
        run_id: id.to_string(),
        job_id: "j".to_string(),
        job_name: "Job".to_string(),
        agent_id: None,
        agent_name: None,
        status: status.to_string(),
        started_at: started,
        ended_at: ended,
        error: None,
    }
}

fn act_op(id: &str, kind: &str, status: &str, started: i64) -> ActivityOperationRow {
    ActivityOperationRow {
        operation_id: id.to_string(),
        kind: kind.to_string(),
        status: status.to_string(),
        run_id: "r".to_string(),
        job_id: "j".to_string(),
        job_name: "Job".to_string(),
        agent_id: Some("a1".to_string()),
        agent_name: None,
        started_at: started,
        ended_at: None,
        error: None,
    }
}

#[test]
fn critical_activity_and_watchlist() {
    let runs = vec![
        act_run("s", "success", 1, Some(90)),
        act_run("f", "failed", 1, Some(20)),
        act_run("q", "queued", 40, None),
        act_run("g", "running", 60, None),
    ];
    let ops = vec![act_op("v", "verify", "running", 80), act_op("c", "restore", "canceled", 10)];
    let s = build_critical_activity(&RequestedScope::All, &runs, &ops);
    let ids: Vec<&str> = s.items.iter().map(|i| i.id.as_str()).collect();
    assert_eq!(
        ids,
        vec!["activity-run:f", "activity-op:c", "activity-op:v", "activity-run:g", "activity-run:s", "activity-run:q"]
    );
    assert_eq!(s.items[0].title, "Job failed");
    assert_eq!(s.items[0].summary, "Hub scope activity.");
    assert_eq!(s.items[1].kind, "operation_restore_canceled");

    let queued = vec![note("n9", Some("a1"), 70)];
    let w = build_watchlist(&RequestedScope::All, &runs, &ops, &queued);
    let ids: Vec<&str> = w.items.iter().map(|i| i.id.as_str()).collect();
    assert_eq!(ids, vec!["watch-op:v", "watch-notification:n9", "watch-run:g", "watch-run:q"]);
    assert_eq!(w.items[1].primary_action.href, "/integrations/notifications/queue?status=queued");
    let w = build_watchlist(&RequestedScope::Hub, &runs, &ops, &queued);
    assert_eq!(w.items.len(), 2);
}

#[test]
fn sections_and_degraded_fallbacks() {
    let s = section_from_items(Vec::new());
    assert_eq!(s.state, SectionState::Empty);
    assert!(s.note.is_none());
    let failed: Result<CommandCenterSection, String> = Err("db down".to_string());
    let d = section_or_degraded(failed);
    assert_eq!(d.state, SectionState::Degraded);
    assert_eq!(d.note, Some("section_unavailable".to_string()));
    let r = recovery_readiness_or_degraded::<String>(Err("boom".to_string()));
    assert_eq!(r.state, SectionState::Degraded);
    assert_eq!(r.overall, ReadinessOverall::Degraded);
    assert_eq!(r.blockers.len(), 1);
    assert_eq!(r.blockers[0].kind, "section_unavailable");
    assert_eq!(r.blockers[0].href, "/system/runtime");
}

#[test]
fn readiness_reports_coverage_and_blockers() {
    let jobs = vec![
        ActiveJobRow { job_id: "j1".to_string(), agent_id: None },
        ActiveJobRow { job_id: "j2".to_string(), agent_id: None },
        ActiveJobRow { job_id: "j3".to_string(), agent_id: Some("a1".to_string()) },
    ];
    let backups = vec![
        JobSignalRow { job_id: "j1".to_string(), latest_success_at: Some(5) },
        JobSignalRow { job_id: "j2".to_string(), latest_success_at: None },
        JobSignalRow { job_id: "j3".to_string(), latest_success_at: Some(5) },
    ];
    let verifies = vec![JobSignalRow { job_id: "j1".to_string(), latest_success_at: Some(9) }];
    let latest_b = vec![
        LatestBackupRow { run_id: "rb3".to_string(), job_id: "j3".to_string(), job_name: "J3".to_string(), agent_id: Some("a1".to_string()), ended_at: 300 },
        LatestBackupRow { run_id: "rb1".to_string(), job_id: "j1".to_string(), job_name: "J1".to_string(), agent_id: None, ended_at: 200 },
    ];
    let latest_v = vec![LatestVerifyRow {
        operation_id: "op1".to_string(),
        run_id: "rv1".to_string(),
        job_id: "j1".to_string(),
        job_name: "J1".to_string(),
        agent_id: None,
        ended_at: 100,
    }];
    let r = build_recovery_readiness(&RequestedScope::Hub, &jobs, &backups, &verifies, &latest_b, &latest_v);
    assert_eq!(r.state, SectionState::Degraded);
    assert_eq!(r.overall, ReadinessOverall::Degraded);
    assert_eq!(r.backup.active_jobs, 2);
    assert_eq!(r.backup.covered_jobs, 1);
    assert_eq!(r.backup.recent_run_id, Some("rb1".to_string()));
    assert_eq!(r.verify.recent_operation_id, Some("op1".to_string()));
    let kinds: Vec<&str> = r.blockers.iter().map(|b| b.kind.as_str()).collect();
    assert_eq!(kinds, vec!["partial_backup_coverage", "partial_verification_coverage", "verify_older_than_backup"]);
    assert_eq!(r.blockers[0].summary, "1 of 2 active jobs have a successful backup.");
    assert_eq!(r.blockers[0].href, "/jobs?scope=hub");
    assert_eq!(r.blockers[2].href, "/runs/rb1?from_scope=hub");

    let none = build_recovery_readiness(&RequestedScope::Agent("zz".to_string()), &jobs, &backups, &verifies, &latest_b, &latest_v);
    assert_eq!(none.state, SectionState::Empty);
    assert_eq!(none.overall, ReadinessOverall::Empty);
    assert!(none.blockers.is_empty());

    let missing = build_recovery_readiness(&RequestedScope::All, &jobs, &backups, &Vec::new(), &Vec::new(), &Vec::new());
    let kinds: Vec<&str> = missing.blockers.iter().map(|b| b.kind.as_str()).collect();
    assert_eq!(kinds, vec!["missing_backup", "missing_verification"]);
    assert_eq!(missing.blockers[1].href, "/runs?scope=all");

    let healthy = build_recovery_readiness(
        &RequestedScope::Agent("a1".to_string()),
        &jobs,
        &backups,
        &vec![JobSignalRow { job_id: "j3".to_string(), latest_success_at: Some(1) }],
        &latest_b,
        &vec![LatestVerifyRow { operation_id: "o".to_string(), run_id: "r".to_string(), job_id: "j3".to_string(), job_name: "J3".to_string(), agent_id: Some("a1".to_string()), ended_at: 400 }],
    );
    assert_eq!(healthy.state, SectionState::Ready);
    assert_eq!(healthy.overall, ReadinessOverall::Healthy);
}

#[test]
fn readiness_counts_covered_jobs_within_active_jobs() {
    let jobs = vec![
        ActiveJobRow { job_id: "j1".to_string(), agent_id: None },
        ActiveJobRow { job_id: "j2".to_string(), agent_id: None },
        ActiveJobRow { job_id: "j3".to_string(), agent_id: Some("a1".to_string()) },
    ];
    let signals = vec![
        JobSignalRow { job_id: "j1".to_string(), latest_success_at: Some(10) },
        JobSignalRow { job_id: "j2".to_string(), latest_success_at: Some(11) },
        JobSignalRow { job_id: "j3".to_string(), latest_success_at: Some(12) },
        JobSignalRow { job_id: "gone".to_string(), latest_success_at: Some(13) },
    ];
    for scope in [RequestedScope::All, RequestedScope::Hub, RequestedScope::Agent("a1".to_string())] {
        let r = build_recovery_readiness(&scope, &jobs, &signals, &signals, &Vec::new(), &Vec::new());
        assert!(r.backup.covered_jobs <= r.backup.active_jobs);
        assert!(r.verify.covered_jobs <= r.verify.active_jobs);
        assert_eq!(r.backup.covered_jobs, r.backup.active_jobs);
        assert_eq!(r.overall == ReadinessOverall::Healthy, r.blockers.is_empty());
        assert_eq!(r.state == SectionState::Ready, r.blockers.is_empty());
    }
}
