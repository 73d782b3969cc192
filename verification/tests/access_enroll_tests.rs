use bastion_http::access::{agent_key_decision, bearer_token, require_agent_key, secure_transport_check};
use bastion_http::enrollment::{default_enroll_ttl_seconds, enroll_token_decision, enrollment_expires_at, TokenAction};
use bastion_http::incomplete_cleanup::{
    check_cleanup_action, cleanup_action_applied, cleanup_filters, parse_cleanup_raw_query, CleanupAction,
};

#[test]
fn bearer_tokens_are_read_from_the_header() {
    assert_eq!(bearer_token(Some("Bearer abc ")).as_deref(), Some("abc"));
    assert_eq!(bearer_token(Some("Bearer ")).as_deref(), Some(""));
    assert_eq!(bearer_token(Some("bearer abc")), None);
    assert_eq!(bearer_token(Some("Basic abc")), None);
    assert_eq!(bearer_token(None), None);
}

#[test]
fn agent_keys_must_name_an_active_agent() {
    assert_eq!(agent_key_decision(Some(("a1".to_string(), false))).unwrap(), "a1");
    let e = agent_key_decision(Some(("a1".to_string(), true))).unwrap_err();
    assert_eq!((e.status, e.code.as_str(), e.message.as_str()), (401, "revoked", "Agent revoked"));
    let e = agent_key_decision(None).unwrap_err();
    assert_eq!((e.status, e.code.as_str()), (401, "unauthorized"));
}

#[test]
fn plain_http_only_where_allowed() {
    assert!(secure_transport_check("/api/health", false, false, false).is_ok());
    assert!(secure_transport_check("/api/setup/status", false, false, false).is_ok());
    assert!(secure_transport_check("/api/ready", false, false, false).is_ok());
    assert!(secure_transport_check("/api/jobs", true, false, false).is_ok());
    assert!(secure_transport_check("/api/jobs", false, true, false).is_ok());
    assert!(secure_transport_check("/api/jobs", false, false, true).is_ok());
    let e = secure_transport_check("/api/jobs", false, false, false).unwrap_err();
    assert_eq!((e.status, e.code.as_str()), (400, "insecure_not_allowed"));
}

#[test]
fn enrollment_tokens_expire_and_run_out() {
    assert_eq!(enrollment_expires_at(1000, default_enroll_ttl_seconds()), 4600);
    let (a, r) = enroll_token_decision(false, None, 10);
    assert_eq!(a, TokenAction::Keep);
    let e = r.unwrap_err();
    assert_eq!((e.status, e.code.as_str()), (401, "invalid_token"));
    assert!(e.details.is_some());
    let (a, r) = enroll_token_decision(true, None, 10);
    assert_eq!(a, TokenAction::Keep);
    assert!(r.unwrap_err().details.is_none());
    let (a, r) = enroll_token_decision(true, Some((10, None)), 10);
    assert_eq!(a, TokenAction::Keep);
    assert_eq!(r.unwrap_err().code, "expired_token");
    let (a, r) = enroll_token_decision(true, Some((5, Some(2))), 10);
    assert_eq!(a, TokenAction::Keep);
    assert_eq!(r.unwrap_err().code, "expired_token");
    assert_eq!(enroll_token_decision(true, Some((11, None)), 10).0, TokenAction::Keep);
    assert!(enroll_token_decision(true, Some((11, None)), 10).1.is_ok());
    assert_eq!(enroll_token_decision(true, Some((11, Some(3))), 10).0, TokenAction::SetRemaining(2));
    let (a, r) = enroll_token_decision(true, Some((11, Some(1))), 10);
    assert_eq!(a, TokenAction::Delete);
    assert!(r.is_ok());
    let (a, r) = enroll_token_decision(true, Some((11, Some(0))), 10);
    assert_eq!(a, TokenAction::Keep);
    assert_eq!(r.unwrap_err().code, "invalid_token");
}

#[test]
fn token_with_two_uses_enrolls_twice() {
    let mut stored = Some((100_i64, Some(2_i64)));
    let mut accepted = 0;
    for _ in 0..4 {
        let (action, r) = enroll_token_decision(true, stored, 50);
        if r.is_ok() {
            accepted += 1;
        }
        stored = match action {
            TokenAction::Keep => stored,
            TokenAction::Delete => None,
            TokenAction::SetRemaining(k) => stored.map(|(e, _)| (e, Some(k))),
        };
    }
    assert_eq!(accepted, 2);
    assert_eq!(stored, None);
}

#[test]
fn cleanup_list_filters_and_actions() {
    assert_eq!(check_cleanup_action(CleanupAction::RetryNow, None).unwrap_err().status, 404);
    assert_eq!(check_cleanup_action(CleanupAction::Ignore, Some("running")).unwrap_err().code, "task_running");
    assert!(check_cleanup_action(CleanupAction::RetryNow, Some("blocked")).is_ok());
    assert_eq!(check_cleanup_action(CleanupAction::Unignore, Some("blocked")).unwrap_err().code, "not_ignored");
    assert!(check_cleanup_action(CleanupAction::Unignore, Some("ignored")).is_ok());
    assert!(cleanup_action_applied(CleanupAction::Ignore, true).is_ok());
    assert_eq!(cleanup_action_applied(CleanupAction::RetryNow, false).unwrap_err().code, "not_retryable");
    assert_eq!(cleanup_action_applied(CleanupAction::Ignore, false).unwrap_err().code, "not_ignorable");
    assert_eq!(cleanup_action_applied(CleanupAction::Unignore, false).unwrap_err().code, "not_ignored");
}

#[test]
fn cleanup_list_reads_multi_value_filters() {
    let q = parse_cleanup_raw_query(Some("status%5B%5D=queued&status[]=done&target_type[]=webdav&target_type=local_dir&node_id=hub&page=2")).unwrap();
    assert_eq!(q.statuses, vec!["queued".to_string(), "done".to_string()]);
    assert_eq!(q.target_types, vec!["webdav".to_string(), "local_dir".to_string()]);
    assert_eq!((q.node_id.as_deref(), q.job_id.as_deref(), q.page, q.page_size), (Some("hub"), None, Some(2), None));
    let single = parse_cleanup_raw_query(Some("status=queued&target_type=webdav")).unwrap();
    assert_eq!((single.statuses.len(), single.target_types.len()), (1, 1));
    assert_eq!(parse_cleanup_raw_query(Some("page_size=x")).unwrap_err().code, "invalid_page_size");
    let (s, t) = cleanup_filters(q.statuses, q.target_types).unwrap();
    assert_eq!(s, vec!["done".to_string(), "queued".to_string()]);
    assert_eq!(t, vec!["local_dir".to_string(), "webdav".to_string()]);
    assert!(cleanup_filters(Vec::new(), Vec::new()).is_ok());
    let e = cleanup_filters(vec!["nope".to_string()], vec!["s3".to_string()]).unwrap_err();
    assert_eq!(e.code, "invalid_status");
    let e = cleanup_filters(vec![" done ".to_string()], vec!["s3".to_string()]).unwrap_err();
    assert_eq!(e.code, "invalid_target_type");
}

#[test]
fn a_request_without_a_bearer_key_is_unauthorized() {
    assert_eq!(require_agent_key(Some("Bearer k1 ")).unwrap(), "k1");
    for header in [None, Some("Basic k1"), Some("bearer k1")] {
        let e = require_agent_key(header).unwrap_err();
        assert_eq!((e.status, e.code.as_str(), e.message.as_str()), (401, "unauthorized", "Unauthorized"));
        assert!(e.details.is_none());
    }
}
