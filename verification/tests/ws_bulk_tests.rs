use bastion_http::agent_ws::{
    artifact_pull_len, delete_error_cut_possible, operation_result_end, remote_list_error, run_end_event,
    snapshot_delete_result_action, task_result_outcome, DeleteResultAction, FinalRunStatus, RunEnd,
    ARTIFACT_STREAM_MAX_BYTES,
};
use bastion_http::artifact_stream_authz::{check_stream_task, stream_open_request_ids, StreamTask, StreamTaskPayload};
use bastion_http::bulk_operations::{
    check_agents_found, check_labels_resolved, deploy_source_job_id, distribute_secret_name, labels_payload,
    plan_selector, preview_kind, BulkSelector, PreviewKind,
};
use bastion_http::json::JsonValue;
use bastion_http::labels::LabelsMode;

fn strings(v: &[&str]) -> Vec<String> {
    v.iter().map(|s| s.to_string()).collect()
}

#[test]
fn selector_prefers_node_ids() {
    match plan_selector(Some(strings(&[" b", "a", "b "])), Some(strings(&["x"])), None).unwrap() {
        BulkSelector::Nodes(ids) => assert_eq!(ids, strings(&["a", "b"])),
        other => panic!("unexpected {:?}", other),
    }
    let err = plan_selector(Some(strings(&["  "])), None, None).unwrap_err();
    assert_eq!((err.code.as_str(), err.message.as_str()), ("invalid_selector", "Selector is required"));
}

#[test]
fn selector_by_labels_with_mode() {
    match plan_selector(Some(Vec::new()), Some(strings(&["web", "db"])), Some("or")).unwrap() {
        BulkSelector::Labels(labels, mode) => {
            assert_eq!(labels, strings(&["db", "web"]));
            assert_eq!(mode, LabelsMode::Or);
        }
        other => panic!("unexpected {:?}", other),
    }
    let err = plan_selector(None, Some(strings(&["web"])), Some("xor")).unwrap_err();
    assert_eq!(err.code, "invalid_labels_mode");
    let err = plan_selector(None, None, None).unwrap_err();
    assert_eq!((err.code.as_str(), err.message.as_str()), ("invalid_selector", "Selector is required"));
}

#[test]
fn selector_resolution_checks() {
    assert!(check_agents_found(2, 2).is_ok());
    assert_eq!(check_agents_found(3, 2).unwrap_err().message, "One or more agents were not found");
    assert!(check_labels_resolved(1).is_ok());
    assert_eq!(check_labels_resolved(0).unwrap_err().message, "Selector resolved to no agents");
}

#[test]
fn bulk_payload_checks() {
    assert_eq!(labels_payload(strings(&["b", "a"])).unwrap(), strings(&["a", "b"]));
    let err = labels_payload(Vec::new()).unwrap_err();
    assert_eq!((err.code.as_str(), err.message.as_str()), ("invalid_payload", "Labels is required"));
    assert_eq!(deploy_source_job_id("  job-1 ").unwrap(), "job-1");
    assert_eq!(deploy_source_job_id(" ").unwrap_err().message, "source_job_id is required");
    assert_eq!(distribute_secret_name("creds").unwrap(), "creds");
    assert_eq!(distribute_secret_name("").unwrap_err().message, "Name is required");
    assert_eq!(preview_kind("job_deploy").unwrap(), PreviewKind::JobDeploy);
    assert_eq!(preview_kind("webdav_secret_distribute").unwrap(), PreviewKind::WebdavSecretDistribute);
    assert_eq!(preview_kind("sync_config_now").unwrap_err().code, "preview_not_supported");
}

#[test]
fn delete_result_for_other_agents_is_ignored() {
    let r = snapshot_delete_result_action(Some("agent-b"), "agent-a", "run", "success", None, None, 0, 0, 100);
    assert!(matches!(r, DeleteResultAction::Ignore));
    let r = snapshot_delete_result_action(None, "agent-a", "run", "success", None, None, 0, 0, 100);
    assert!(matches!(r, DeleteResultAction::Ignore));
    let r = snapshot_delete_result_action(Some("agent-a"), "agent-a", "run", "weird", None, None, 0, 0, 100);
    assert!(matches!(r, DeleteResultAction::Ignore));
}

#[test]
fn delete_result_outcomes() {
    let a = "agent-a";
    assert!(matches!(
        snapshot_delete_result_action(Some(a), a, "run", "success", None, None, 0, 0, 100),
        DeleteResultAction::MarkDeleted
    ));
    assert!(matches!(
        snapshot_delete_result_action(Some(a), a, "run", "not_found", None, None, 0, 0, 100),
        DeleteResultAction::MarkMissing
    ));
    match snapshot_delete_result_action(Some(a), a, "run", "failed", Some(" network "), Some("boom\nagain"), 1, 0, 1000) {
        DeleteResultAction::Retry { kind, last_error, next_attempt_at, retry_after_secs } => {
            assert_eq!(kind, "network");
            assert_eq!(last_error, "boom again");
            assert!(next_attempt_at >= 1060 && next_attempt_at < 1090);
            assert_eq!(retry_after_secs as i64, next_attempt_at - 1000);
        }
        other => panic!("unexpected {:?}", other),
    }
    match snapshot_delete_result_action(Some(a), a, "run", "failed", Some("auth"), None, 1, 0, 1000) {
        DeleteResultAction::Block { kind, last_error, .. } => {
            assert_eq!(kind, "auth");
            assert_eq!(last_error, "failed");
        }
        other => panic!("unexpected {:?}", other),
    }
    match snapshot_delete_result_action(Some(a), a, "run", "failed", Some("http"), Some("x"), 20, 0, 1000) {
        DeleteResultAction::Abandon { kind, last_error } => assert_eq!((kind.as_str(), last_error.as_str()), ("http", "x")),
        other => panic!("unexpected {:?}", other),
    }
    match snapshot_delete_result_action(Some(a), a, "run", "failed", None, Some("x"), 0, 0, 30 * 24 * 3600) {
        DeleteResultAction::Abandon { kind, .. } => assert_eq!(kind, "unknown"),
        other => panic!("unexpected {:?}", other),
    }
}

#[test]
fn delete_errors_cut_only_between_characters() {
    assert!(delete_error_cut_possible("short"));
    assert!(delete_error_cut_possible(&"a".repeat(800)));
    let mut s = "a".repeat(499);
    s.push_str(&"é".repeat(10));
    assert!(!delete_error_cut_possible(&s));
    let mut t = "a".repeat(498);
    t.push_str(&"é".repeat(10));
    assert!(delete_error_cut_possible(&t));
}

#[test]
fn task_results_end_runs() {
    assert_eq!(task_result_outcome(" success ", None), (RunEnd::Success, None));
    assert_eq!(task_result_outcome("canceled", None), (RunEnd::Canceled, Some("canceled".to_string())));
    assert_eq!(task_result_outcome("failed", None), (RunEnd::Failed, Some("agent_failed".to_string())));
    let summary = JsonValue::Object(vec![("error_code".to_string(), JsonValue::Str("disk_full".to_string()))]);
    assert_eq!(task_result_outcome("oops", Some(&summary)), (RunEnd::Failed, Some("disk_full".to_string())));
    let blank = JsonValue::Object(vec![("error_code".to_string(), JsonValue::Str("  ".to_string()))]);
    assert_eq!(task_result_outcome("failed", Some(&blank)).1.as_deref(), Some("agent_failed"));
    let not_str = JsonValue::Object(vec![("error_code".to_string(), JsonValue::Int(3))]);
    assert_eq!(task_result_outcome("failed", Some(&not_str)).1.as_deref(), Some("agent_failed"));
    assert_eq!(operation_result_end("canceled "), RunEnd::Canceled);
    assert_eq!(operation_result_end("nope"), RunEnd::Failed);
}

#[test]
fn run_end_events() {
    assert_eq!(run_end_event(FinalRunStatus::Success), ("info", "complete", false));
    assert_eq!(run_end_event(FinalRunStatus::Canceled), ("info", "canceled", false));
    assert_eq!(run_end_event(FinalRunStatus::Failed), ("error", "failed", true));
    assert_eq!(run_end_event(FinalRunStatus::Other), ("error", "failed", false));
}

#[test]
fn remote_listing_and_pull_limits() {
    assert_eq!(remote_list_error(None, " boom "), ("error".to_string(), "boom".to_string()));
    assert_eq!(remote_list_error(Some(" denied "), "x"), ("denied".to_string(), "x".to_string()));
    assert_eq!(artifact_pull_len(0), 1);
    assert_eq!(artifact_pull_len(4096), 4096);
    assert_eq!(artifact_pull_len(u64::MAX), ARTIFACT_STREAM_MAX_BYTES);
}

fn restore_task(task_id: &str, op: &str, run: &str) -> StreamTask {
    StreamTask {
        completed: false,
        run_id: run.to_string(),
        payload: StreamTaskPayload::Restore { task_id: task_id.to_string(), op_id: op.to_string(), run_id: run.to_string() },
    }
}

#[test]
fn artifact_stream_requests_name_op_and_run() {
    assert_eq!(stream_open_request_ids(" op-1 ", " run-1").unwrap(), ("op-1".to_string(), "run-1".to_string()));
    assert_eq!(stream_open_request_ids(" ", "run-1").unwrap_err(), "op_id is required");
    assert_eq!(stream_open_request_ids("op-1", "").unwrap_err(), "run_id is required");
}

#[test]
fn artifact_stream_allowed_only_for_matching_open_restore_task() {
    assert!(check_stream_task("op-1", "run-1", Some(&restore_task("op-1", "op-1", "run-1"))).is_ok());
    assert_eq!(check_stream_task("op-1", "run-1", None).unwrap_err(), "task not found for agent");
    let mut done = restore_task("op-1", "op-1", "run-1");
    done.completed = true;
    assert_eq!(check_stream_task("op-1", "run-1", Some(&done)).unwrap_err(), "task already completed");
    assert_eq!(check_stream_task("op-1", "run-2", Some(&restore_task("op-1", "op-1", "run-1"))).unwrap_err(), "task run mismatch");
    assert_eq!(check_stream_task("op-1", "run-1", Some(&restore_task("op-9", "op-1", "run-1"))).unwrap_err(), "task id mismatch");
    assert_eq!(check_stream_task("op-1", "run-1", Some(&restore_task("op-1", "op-2", "run-1"))).unwrap_err(), "task op_id mismatch");
    let mut other = restore_task("op-1", "op-1", "run-1");
    other.payload = StreamTaskPayload::Other;
    assert_eq!(check_stream_task("op-1", "run-1", Some(&other)).unwrap_err(), "task payload does not allow artifact stream");
    other.payload = StreamTaskPayload::Invalid;
    assert_eq!(check_stream_task("op-1", "run-1", Some(&other)).unwrap_err(), "invalid task payload");
}

use bastion_http::artifact_location::{
    artifact_source, artifacts_location, check_artifact_run, require_artifact, ArtifactLocation, ArtifactSource,
    ArtifactTarget,
};

#[test]
fn artifact_locations_follow_the_job_target() {
    assert_eq!(require_artifact(" payload ").unwrap(), "payload");
    assert_eq!(require_artifact("  ").unwrap_err(), "artifact is required");
    assert_eq!(check_artifact_run(None).unwrap_err(), "run not found");
    assert_eq!(check_artifact_run(Some(false)).unwrap_err(), "run is not successful");
    assert!(check_artifact_run(Some(true)).is_ok());
    let local = ArtifactTarget::LocalDir { base_dir: " /backups ".to_string() };
    let loc = artifacts_location(Some(" edge-1 "), "hub", &local).unwrap();
    match &loc {
        ArtifactLocation::LocalDir { node_id, base_dir } => assert_eq!((node_id.as_str(), base_dir.as_str()), ("edge-1", "/backups")),
        other => panic!("unexpected {:?}", other),
    }
    assert_eq!(artifact_source(&loc, "hub"), ArtifactSource::Agent);
    let on_hub = artifacts_location(None, "hub", &local).unwrap();
    assert_eq!(artifact_source(&on_hub, "hub"), ArtifactSource::HubDisk);
    let dav = ArtifactTarget::Webdav { base_url: " https://dav ".to_string(), secret_name: " creds ".to_string() };
    let loc = artifacts_location(Some(""), "hub", &dav).unwrap();
    assert_eq!(artifact_source(&loc, "hub"), ArtifactSource::Webdav);
    match loc {
        ArtifactLocation::Webdav { node_id, base_url, secret_name } => {
            assert_eq!((node_id.as_str(), base_url.as_str(), secret_name.as_str()), ("hub", "https://dav", "creds"));
        }
        other => panic!("unexpected {:?}", other),
    }
    let bad = ArtifactTarget::Webdav { base_url: "x".to_string(), secret_name: " ".to_string() };
    assert_eq!(artifacts_location(None, "hub", &bad).unwrap_err(), "webdav.secret_name is required");
    let bad = ArtifactTarget::LocalDir { base_dir: String::new() };
    assert_eq!(artifacts_location(None, "hub", &bad).unwrap_err(), "local_dir.base_dir is required");
}
