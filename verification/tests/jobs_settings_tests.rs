use bastion_http::integrations::{integrations_summary, DistributionSummary, NotificationsSummary, StorageSummary};
use bastion_http::jobs_crud::{
    agents_to_refresh, check_job_agent, inherits_default_retention, job_form, plan_manual_run,
};
use bastion_http::notification_settings::{check_templates, settings_cancellations};
use bastion_http::operations::check_source_run;

#[test]
fn job_forms_are_normalized_in_order() {
    let f = job_form(" nightly ", Some(" 0 3 * * * "), None, Some("  "), "UTC").unwrap();
    assert_eq!(f.name, "nightly");
    assert_eq!(f.schedule.as_deref(), Some("0 3 * * *"));
    assert_eq!(f.schedule_timezone, "UTC");
    assert_eq!(f.agent_id, None);
    let f = job_form("j", None, Some("Asia/Tokyo"), Some(" a1 "), "UTC").unwrap();
    assert_eq!((f.schedule_timezone.as_str(), f.agent_id.as_deref()), ("Asia/Tokyo", Some("a1")));
    assert_eq!(job_form(" ", None, Some("Bad/Zone"), None, "UTC").unwrap_err().code, "invalid_name");
    assert_eq!(job_form("j", None, Some("Bad/Zone"), None, "UTC").unwrap_err().code, "invalid_timezone");
}

#[test]
fn job_agents_must_exist_and_be_active() {
    assert!(check_job_agent(None).is_ok());
    assert!(check_job_agent(Some(Some(false))).is_ok());
    assert_eq!(check_job_agent(Some(None)).unwrap_err().message, "Agent not found");
    assert_eq!(check_job_agent(Some(Some(true))).unwrap_err().message, "Agent is revoked");
}

#[test]
fn default_retention_and_config_refresh() {
    assert!(inherits_default_retention(true, false, true));
    assert!(!inherits_default_retention(true, true, true));
    assert!(!inherits_default_retention(false, false, true));
    assert!(!inherits_default_retention(true, false, false));
    assert_eq!(agents_to_refresh(Some("a".into()), Some("b".into())), vec!["a".to_string(), "b".to_string()]);
    assert_eq!(agents_to_refresh(Some("a".into()), Some("a".into())), vec!["a".to_string()]);
    assert_eq!(agents_to_refresh(None, Some("b".into())), vec!["b".to_string()]);
    assert!(agents_to_refresh(None, None).is_empty());
}

#[test]
fn manual_runs_respect_overlap_policy() {
    let r = plan_manual_run(true, 1, 99);
    assert!(r.rejected);
    assert_eq!((r.ended_at, r.error.as_deref(), r.event_kind.as_str()), (Some(99), Some("overlap_rejected"), "rejected"));
    let r = plan_manual_run(true, 0, 99);
    assert!(!r.rejected);
    assert_eq!((r.ended_at, r.error, r.event_kind.as_str()), (None, None, "queued"));
    assert!(!plan_manual_run(false, 5, 99).rejected);
}

#[test]
fn restores_and_verifies_need_a_successful_run() {
    assert_eq!(check_source_run(None).unwrap_err().status, 404);
    assert_eq!(check_source_run(Some(false)).unwrap_err().code, "invalid_run");
    assert!(check_source_run(Some(true)).is_ok());
}

#[test]
fn integrations_summary_defaults_missing_domains() {
    let s = integrations_summary(
        Some(StorageSummary { items_total: 2, in_use_total: 1, invalid_total: 1 }),
        None,
        Some(DistributionSummary { coverage_total: 3, drifted_total: 0, failed_total: 0 }),
    );
    assert_eq!(s.storage_state, "degraded");
    assert_eq!(s.notifications_state, "empty");
    assert_eq!(s.notifications.destinations_total, 0);
    assert_eq!(s.distribution_state, "ready");
    let s = integrations_summary(None, Some(NotificationsSummary { destinations_total: 1, recent_failures_total: 0, queue_backlog_total: 0 }), None);
    assert_eq!((s.storage_state, s.notifications_state, s.distribution_state), ("empty", "ready", "empty"));
}

#[test]
fn settings_need_every_template() {
    assert!(check_templates("w", "s", "b").is_ok());
    let e = check_templates(" ", "", "").unwrap_err();
    assert_eq!((e.code.as_str(), e.message.as_str()), ("invalid_template", "WeCom template is required"));
    assert_eq!(check_templates("w", "\n", "b").unwrap_err().message, "Email subject template is required");
    assert_eq!(check_templates("w", "s", " ").unwrap_err().message, "Email body template is required");
    let c = settings_cancellations(false, false, false);
    assert!(c.all && !c.wecom_bot && !c.email);
    let c = settings_cancellations(true, false, true);
    assert!(!c.all && c.wecom_bot && !c.email);
}
