use bastion_http::failure_fields::{agent_task_result_failure_fields, snapshot_delete_failure_fields};
use bastion_http::json::JsonValue;

fn get<'a>(entries: &'a [(String, JsonValue)], key: &str) -> Option<&'a JsonValue> {
    entries.iter().rev().find(|(k, _)| k == key).map(|(_, v)| v)
}

fn text<'a>(v: Option<&'a JsonValue>) -> Option<&'a str> {
    match v {
        Some(JsonValue::Str(s)) => Some(s.as_str()),
        _ => None,
    }
}

fn object(v: &JsonValue) -> &[(String, JsonValue)] {
    match v {
        JsonValue::Object(e) => e,
        _ => panic!("object expected"),
    }
}

#[test]
fn task_result_failure_fields_include_error_envelope_context() {
    let summary = JsonValue::Object(vec![("error_code".to_string(), JsonValue::Str("source_consistency".to_string()))]);
    let f = agent_task_result_failure_fields("agent-1", "task-1", "run-1", Some(summary), Some("source changed during backup"));
    assert_eq!(text(get(&f.fields, "error_kind")), Some("source_consistency"));
    assert_eq!(f.envelope.transport_protocol, "agent_ws");
    assert_eq!(text(get(object(&f.envelope.context), "task_id")), Some("task-1"));
}

#[test]
fn task_result_failure_fields_are_complete() {
    let summary = JsonValue::Object(vec![("error_code".to_string(), JsonValue::Str(" Network ".to_string()))]);
    let f = agent_task_result_failure_fields("a", "t", "r", Some(summary), Some("dial failed"));
    let keys: Vec<&str> = f.fields.iter().map(|(k, _)| k.as_str()).collect();
    assert_eq!(keys, vec!["agent_id", "error_kind", "hint", "error", "error_code"]);
    assert_eq!(text(get(&f.fields, "error_kind")), Some("network"));
    assert_eq!(text(get(&f.fields, "error_code")), Some(" Network "));
    let e = &f.envelope;
    assert_eq!(e.key, "agent.task_result.network");
    assert!(e.retriable);
    assert_eq!(e.retriable_reason.as_deref(), Some("network"));
    assert_eq!(e.hint_key, "diagnostics.hint.agent.task_result_failed");
    assert_eq!(e.message_key, "diagnostics.message.agent.task_result_failed");
    assert_eq!((e.origin.0.as_str(), e.origin.1.as_str(), e.origin.2.as_str()), ("agent", "ws", "task_result"));
    assert_eq!(e.stage, "finalize");
    assert_eq!(text(get(object(e.debug.as_ref().unwrap()), "error")), Some("dial failed"));

    let f = agent_task_result_failure_fields("a", "t", "r", None, Some("  "));
    let keys: Vec<&str> = f.fields.iter().map(|(k, _)| k.as_str()).collect();
    assert_eq!(keys, vec!["agent_id", "error_kind", "hint"]);
    assert_eq!(f.envelope.kind, "unknown");
    assert!(!f.envelope.retriable && f.envelope.retriable_reason.is_none());
    assert!(f.envelope.debug.is_none());
    assert!(matches!(get(object(&f.envelope.context), "error_code"), Some(JsonValue::Null)));

    let f = agent_task_result_failure_fields("a", "t", "r", None, Some("Timeout"));
    assert_eq!(f.envelope.key, "agent.task_result.timeout");
    assert!(f.envelope.retriable);
}

#[test]
fn snapshot_delete_failure_fields_include_retry_metadata() {
    let f = snapshot_delete_failure_fields("agent-1", "network", "dial tcp timeout", Some(90), "failed");
    assert_eq!(f.envelope.retry_after_sec, Some(90));
    assert_eq!(f.envelope.message_key, "diagnostics.message.artifact_delete.network");
}

#[test]
fn snapshot_delete_failure_fields_for_other_kinds() {
    let f = snapshot_delete_failure_fields("agent-1", "auth", "denied", Some(30), "failed");
    assert!(!f.envelope.retriable);
    assert_eq!(f.envelope.retry_after_sec, None);
    assert!(matches!(get(&f.fields, "retry_after_secs"), Some(JsonValue::UInt(30))));
    assert_eq!(text(get(&f.fields, "hint")), Some("verify credentials and permissions for the delete operation"));
    let f = snapshot_delete_failure_fields("agent-1", "weird", "boom", None, "failed");
    assert_eq!(f.fields.len(), 3);
    assert_eq!(f.envelope.key, "agent.snapshot_delete.weird");
    assert_eq!(f.envelope.hint_key, "diagnostics.hint.artifact_delete.unknown");
    assert_eq!(f.envelope.stage, "cleanup");
    assert_eq!(text(get(object(&f.envelope.context), "status")), Some("failed"));
    assert_eq!(text(get(object(f.envelope.debug.as_ref().unwrap()), "error")), Some("boom"));
}
