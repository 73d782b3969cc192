//! The notifications queue: its list filters, when a notification may be retried at once, and
//! what is answered when a cancel or retry was not applied.
use vstd::prelude::*;
use crate::bulk_operations::{normalize_node_ids, node_id_set};
use crate::docs::{decode_query_pairs, form_pairs, pair_views};
use crate::error::{AppError, STATUS_BAD_REQUEST, STATUS_CONFLICT, STATUS_NOT_FOUND, plain_error};
use crate::fs::{error_with_str_detail, str_detail_error};
use crate::int_parse::{parse_i64, parse_i64_spec};
use crate::sorted_text::{views, strictly_ascending};
use crate::text::str_eq;

verus! {

pub open spec fn supported_channel(channel: Seq<char>) -> bool {
    channel == "wecom_bot"@ || channel == "email"@
}

pub fn require_supported_channel(channel: &str) -> (r: Result<(), AppError>)
    ensures
        supported_channel(channel@) ==> r is Ok,
        !supported_channel(channel@) ==> r is Err && error_with_str_detail(r->Err_0, STATUS_BAD_REQUEST,
            "invalid_channel"@, "Unsupported notification channel"@, "field"@, "channel"@),
{
    if str_eq(channel, "wecom_bot") || str_eq(channel, "email") {
        return Ok(());
    }
    Err(str_detail_error(STATUS_BAD_REQUEST, "invalid_channel", "Unsupported notification channel", "field", "channel"))
}

/// Filter values trimmed, without blanks, sorted and without repeats.
pub fn normalize_filter_list(values: Vec<String>) -> (r: Vec<String>)
    ensures
        strictly_ascending(views(r@)),
        views(r@).to_set() == node_id_set(values@),
{
    normalize_node_ids(values)
}

/// The list's filters: statuses and channels normalized, and every channel named one that
/// notifications know.
pub fn queue_filters(statuses: Vec<String>, channels: Vec<String>) -> (r: Result<(Vec<String>, Vec<String>), AppError>)
    ensures
        r is Ok <==> (forall|x: Seq<char>| node_id_set(channels@).contains(x) ==> supported_channel(x)),
        match r {
            Ok((s, c)) => {
                &&& strictly_ascending(views(s@))
                &&& views(s@).to_set() == node_id_set(statuses@)
                &&& strictly_ascending(views(c@))
                &&& views(c@).to_set() == node_id_set(channels@)
            },
            Err(e) => error_with_str_detail(e, STATUS_BAD_REQUEST, "invalid_channel"@,
                "Unsupported notification channel"@, "field"@, "channel"@),
        },
{
    let ghost wanted = node_id_set(channels@);
    let s = normalize_filter_list(statuses);
    let c = normalize_filter_list(channels);
    let mut i: usize = 0;
    while i < c.len()
        invariant
            i <= c.len(),
            views(c@).to_set() == wanted,
            wanted == node_id_set(channels@),
            forall|j: int| 0 <= j < i ==> supported_channel(#[trigger] views(c@)[j]),
        decreases c.len() - i,
    {
        let checked = require_supported_channel(c[i].as_str());
        match checked {
            Ok(()) => {},
            Err(e) => {
                assert(views(c@)[i as int] == c@[i as int]@);
                assert(views(c@).to_set().contains(c@[i as int]@));
                assert(wanted.contains(c@[i as int]@) && !supported_channel(c@[i as int]@));
                return Err(e);
            },
        }
        assert(views(c@)[i as int] == c@[i as int]@);
        i = i + 1;
    }
    assert forall|x: Seq<char>| wanted.contains(x) implies supported_channel(x) by {
        assert(views(c@).to_set().contains(x));
        let j = choose|j: int| 0 <= j < views(c@).len() && views(c@)[j] == x;
    }
    Ok((s, c))
}

/// The queue list parameters as plain values: statuses, channels, page, page size.
pub type QueueQueryView = (Seq<Seq<char>>, Seq<Seq<char>>, Option<i64>, Option<i64>);

#[derive(Debug)]
pub struct QueueQuery {
    pub statuses: Vec<String>,
    pub channels: Vec<String>,
    pub page: Option<i64>,
    pub page_size: Option<i64>,
}

pub open spec fn queue_query_view(q: QueueQuery) -> QueueQueryView {
    (views(q.statuses@), views(q.channels@), q.page, q.page_size)
}

pub open spec fn apply_queue_param(q: QueueQueryView, key: Seq<char>, value: Seq<char>) -> Result<QueueQueryView, (Seq<char>, Seq<char>)> {
    if key == "status"@ || key == "status[]"@ {
        Ok((q.0.push(value), q.1, q.2, q.3))
    } else if key == "channel"@ || key == "channel[]"@ {
        Ok((q.0, q.1.push(value), q.2, q.3))
    } else if key == "page"@ {
        match parse_i64_spec(value) {
            Some(n) => Ok((q.0, q.1, Some(n), q.3)),
            None => Err(("invalid_page"@, "Invalid page"@)),
        }
    } else if key == "page_size"@ {
        match parse_i64_spec(value) {
            Some(n) => Ok((q.0, q.1, q.2, Some(n))),
            None => Err(("invalid_page_size"@, "Invalid page_size"@)),
        }
    } else {
        Ok(q)
    }
}

/// The pairs read in order; the first bad page or page size stops the reading.
pub open spec fn queue_query_spec(pairs: Seq<(Seq<char>, Seq<char>)>) -> Result<QueueQueryView, (Seq<char>, Seq<char>)>
    decreases pairs.len(),
{
    if pairs.len() == 0 {
        Ok((Seq::empty(), Seq::empty(), None, None))
    } else {
        match queue_query_spec(pairs.drop_last()) {
            Ok(q) => apply_queue_param(q, pairs.last().0, pairs.last().1),
            Err(e) => Err(e),
        }
    }
}

proof fn lemma_queue_error_stays(pairs: Seq<(Seq<char>, Seq<char>)>, k: int)
    requires
        0 <= k <= pairs.len(),
        queue_query_spec(pairs.take(k)) is Err,
    ensures
        queue_query_spec(pairs) == queue_query_spec(pairs.take(k)),
    decreases pairs.len() - k,
{
    if k < pairs.len() {
        assert(pairs.take(k + 1).drop_last() =~= pairs.take(k));
        lemma_queue_error_stays(pairs, k + 1);
    } else {
        assert(pairs.take(k) =~= pairs);
    }
}

pub fn parse_queue_query(pairs: &Vec<(String, String)>) -> (r: Result<QueueQuery, AppError>)
    ensures
        match queue_query_spec(pair_views(pairs@)) {
            Ok(q) => r matches Ok(v) && queue_query_view(v) == q,
            Err((code, message)) => r is Err && plain_error(r->Err_0, STATUS_BAD_REQUEST, code, message),
        },
{
    let ghost all = pair_views(pairs@);
    let mut q = QueueQuery { statuses: Vec::new(), channels: Vec::new(), page: None, page_size: None };
    let mut i: usize = 0;
    assert(queue_query_view(q) =~= (Seq::<Seq<char>>::empty(), Seq::<Seq<char>>::empty(), None::<i64>, None::<i64>));
    assert(all.take(0) =~= Seq::<(Seq<char>, Seq<char>)>::empty());
    while i < pairs.len()
        invariant
            all == pair_views(pairs@),
            i <= pairs.len(),
            queue_query_spec(all.take(i as int)) == Ok::<QueueQueryView, (Seq<char>, Seq<char>)>(queue_query_view(q)),
        decreases pairs.len() - i,
    {
        assert(all.take(i + 1).drop_last() =~= all.take(i as int));
        assert(all.take(i + 1).last() == (pairs@[i as int].0@, pairs@[i as int].1@));
        let key = pairs[i].0.as_str();
        let value = &pairs[i].1;
        let ghost before = queue_query_view(q);
        if str_eq(key, "status") || str_eq(key, "status[]") {
            q.statuses.push(value.clone());
            assert(views(q.statuses@) =~= before.0.push(value@));
        } else if str_eq(key, "channel") || str_eq(key, "channel[]") {
            q.channels.push(value.clone());
            assert(views(q.channels@) =~= before.1.push(value@));
        } else if str_eq(key, "page") {
            match parse_i64(value.as_str()) {
                Some(n) => {
                    q.page = Some(n);
                },
                None => {
                    proof {
                        lemma_queue_error_stays(all, i + 1);
                    }
                    return Err(AppError::bad_request("invalid_page", "Invalid page"));
                },
            }
        } else if str_eq(key, "page_size") {
            match parse_i64(value.as_str()) {
                Some(n) => {
                    q.page_size = Some(n);
                },
                None => {
                    proof {
                        lemma_queue_error_stays(all, i + 1);
                    }
                    return Err(AppError::bad_request("invalid_page_size", "Invalid page_size"));
                },
            }
        }
        i = i + 1;
    }
    assert(all.take(pairs.len() as int) =~= all);
    Ok(q)
}

/// The list's parameters read from the raw query string, when there is one.
pub fn parse_queue_raw_query(raw: Option<&str>) -> (r: Result<QueueQuery, AppError>)
    ensures
        match queue_query_spec(match raw {
            Some(q) => form_pairs(q@),
            None => Seq::empty(),
        }) {
            Ok(q) => r matches Ok(v) && queue_query_view(v) == q,
            Err((code, message)) => r is Err && plain_error(r->Err_0, STATUS_BAD_REQUEST, code, message),
        },
{
    match raw {
        Some(q) => {
            let pairs = decode_query_pairs(q);
            parse_queue_query(&pairs)
        },
        None => {
            let pairs: Vec<(String, String)> = Vec::new();
            assert(pair_views(pairs@) =~= Seq::<(Seq<char>, Seq<char>)>::empty());
            parse_queue_query(&pairs)
        },
    }
}

/// Whether "retry now" may go ahead before the destination is looked at: notifications and
/// the notification's channel must be enabled, and the channel known.
pub open spec fn retry_channel_problem(
    notifications_enabled: bool,
    channel: Seq<char>,
    wecom_bot_enabled: bool,
    email_enabled: bool,
) -> Option<(u16, Seq<char>, Seq<char>)> {
    if !notifications_enabled {
        Some((STATUS_CONFLICT, "notifications_disabled"@, "Notifications are disabled"@))
    } else if channel == "wecom_bot"@ {
        if !wecom_bot_enabled { Some((STATUS_CONFLICT, "channel_disabled"@, "Channel is disabled"@)) } else { None }
    } else if channel == "email"@ {
        if !email_enabled { Some((STATUS_CONFLICT, "channel_disabled"@, "Channel is disabled"@)) } else { None }
    } else {
        Some((STATUS_BAD_REQUEST, "invalid_channel"@, "Unsupported notification channel"@))
    }
}

pub fn retry_now_channel_check(
    notifications_enabled: bool,
    channel: &str,
    wecom_bot_enabled: bool,
    email_enabled: bool,
) -> (r: Result<(), AppError>)
    ensures
        match retry_channel_problem(notifications_enabled, channel@, wecom_bot_enabled, email_enabled) {
            None => r is Ok,
            Some((status, code, message)) => r is Err && plain_error(r->Err_0, status, code, message),
        },
{
    if !notifications_enabled {
        return Err(AppError::conflict("notifications_disabled", "Notifications are disabled"));
    }
    if str_eq(channel, "wecom_bot") {
        if !wecom_bot_enabled {
            return Err(AppError::conflict("channel_disabled", "Channel is disabled"));
        }
        Ok(())
    } else if str_eq(channel, "email") {
        if !email_enabled {
            return Err(AppError::conflict("channel_disabled", "Channel is disabled"));
        }
        Ok(())
    } else {
        Err(AppError::bad_request("invalid_channel", "Unsupported notification channel"))
    }
}

/// The destination must still exist and be enabled; `enabled` is only looked up when it
/// exists.
pub fn retry_now_destination_check(exists: bool, enabled: bool) -> (r: Result<(), AppError>)
    ensures
        !exists ==> r is Err && plain_error(r->Err_0, STATUS_CONFLICT, "destination_deleted"@, "Destination has been deleted"@),
        exists && !enabled ==> r is Err && plain_error(r->Err_0, STATUS_CONFLICT, "destination_disabled"@, "Destination is disabled"@),
        exists && enabled ==> r is Ok,
{
    if !exists {
        return Err(AppError::conflict("destination_deleted", "Destination has been deleted"));
    }
    if !enabled {
        return Err(AppError::conflict("destination_disabled", "Destination is disabled"));
    }
    Ok(())
}

/// The notification must exist.
pub fn require_notification(found: bool) -> (r: Result<(), AppError>)
    ensures
        found ==> r is Ok,
        !found ==> r is Err && plain_error(r->Err_0, STATUS_NOT_FOUND, "notification_not_found"@, "Notification not found"@),
{
    if !found {
        return Err(AppError::not_found("notification_not_found", "Notification not found"));
    }
    Ok(())
}

/// What an operator asks of a queued notification.
#[derive(Debug, Clone, Copy, PartialEq, Eq, Structural)]
pub enum NotificationAction {
    Cancel,
    RetryNow,
}

/// The answer when the store did not apply the action (the notification changed in between).
pub fn notification_action_applied(action: NotificationAction, applied: bool) -> (r: Result<(), AppError>)
    ensures
        applied ==> r is Ok,
        !applied ==> r is Err && match action {
            NotificationAction::Cancel => plain_error(r->Err_0, STATUS_CONFLICT, "not_cancelable"@, "Notification is not cancelable"@),
            NotificationAction::RetryNow => plain_error(r->Err_0, STATUS_CONFLICT, "not_retryable"@, "Notification is not retryable"@),
        },
{
    if applied {
        return Ok(());
    }
    match action {
        NotificationAction::Cancel => Err(AppError::conflict("not_cancelable", "Notification is not cancelable")),
        NotificationAction::RetryNow => Err(AppError::conflict("not_retryable", "Notification is not retryable")),
    }
}

} // verus!
