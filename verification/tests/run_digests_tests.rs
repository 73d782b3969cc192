use bastion_http::json::JsonValue;
use bastion_http::run_digests::run_digests;

fn obj(entries: Vec<(&str, JsonValue)>) -> JsonValue {
    JsonValue::Object(entries.into_iter().map(|(k, v)| (k.to_string(), v)).collect())
}

fn report(changed: i64, replaced: i64, deleted: i64, read_error: i64) -> JsonValue {
    obj(vec![
        ("v", JsonValue::Int(1)),
        ("changed_total", JsonValue::Int(changed)),
        ("replaced_total", JsonValue::Int(replaced)),
        ("deleted_total", JsonValue::Int(deleted)),
        ("read_error_total", JsonValue::Int(read_error)),
        ("sample_truncated", JsonValue::Bool(false)),
        ("sample", JsonValue::Array(Vec::new())),
    ])
}

#[test]
fn run_without_consistency_reports_zero() {
    let summary = obj(vec![("executed_offline", JsonValue::Bool(false))]);
    let d = run_digests(Some(&summary), None);
    assert_eq!((d.consistency_total, d.consistency_signal_total), (0, 0));
    let d = run_digests(None, None);
    assert_eq!((d.consistency_total, d.issues_warnings_total, d.issues_errors_total), (0, 0, 0));
}

#[test]
fn summary_consistency_counts_total_and_signal() {
    let summary = obj(vec![
        ("executed_offline", JsonValue::Bool(false)),
        ("filesystem", obj(vec![("consistency", report(1, 2, 3, 0))])),
    ]);
    let d = run_digests(Some(&summary), None);
    assert_eq!((d.consistency_total, d.consistency_signal_total), (6, 5));
}

#[test]
fn latest_event_is_used_without_summary() {
    let d = run_digests(None, Some(&report(1, 2, 0, 0)));
    assert_eq!((d.consistency_total, d.consistency_signal_total), (3, 2));
}

#[test]
fn summary_wins_over_event() {
    let summary = obj(vec![("filesystem", obj(vec![("consistency", report(1, 0, 0, 0))]))]);
    let d = run_digests(Some(&summary), Some(&report(9, 9, 9, 9)));
    assert_eq!((d.consistency_total, d.consistency_signal_total), (1, 0));
}

#[test]
fn issues_come_from_the_filesystem_summary() {
    let summary = obj(vec![
        ("executed_offline", JsonValue::Bool(false)),
        (
            "filesystem",
            obj(vec![
                ("warnings_total", JsonValue::Int(2)),
                ("errors_total", JsonValue::UInt(1)),
                ("consistency", report(0, 0, 0, 0)),
            ]),
        ),
    ]);
    let d = run_digests(Some(&summary), None);
    assert_eq!((d.issues_warnings_total, d.issues_errors_total), (2, 1));
    assert_eq!(d.consistency_total, 0);
}
