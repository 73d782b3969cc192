//! Cleanup of incomplete runs: the filters of its task list and the reason an operator gives.
use vstd::prelude::*;
use vstd::utf8::encode_utf8;
use crate::byte_cut::{cut_at, is_marked_cut, cut_marked};
use crate::error::{AppError, STATUS_BAD_REQUEST, STATUS_CONFLICT, STATUS_NOT_FOUND, plain_error};
use crate::list_paging::{opt_view, opt_str_view, blank_to_none};
use crate::text::{trim, trim_str, str_eq};
use crate::bulk_operations::node_id_set;
use crate::docs::{decode_query_pairs, form_pairs, pair_views};
use crate::int_parse::{parse_i64, parse_i64_spec};
use crate::notifications_queue::normalize_filter_list;
use crate::sorted_text::{views, strictly_ascending};

verus! {

pub open spec fn known_task_status(s: Seq<char>) -> bool {
    s == "queued"@ || s == "running"@ || s == "retrying"@ || s == "blocked"@ || s == "done"@ || s
        == "ignored"@ || s == "abandoned"@
}

pub fn validate_status(status: &str) -> (r: Result<(), AppError>)
    ensures
        known_task_status(status@) ==> r is Ok,
        !known_task_status(status@) ==> r is Err && plain_error(r->Err_0, STATUS_BAD_REQUEST, "invalid_status"@, "Invalid status"@),
{
    if str_eq(status, "queued") || str_eq(status, "running") || str_eq(status, "retrying") || str_eq(status, "blocked")
        || str_eq(status, "done") || str_eq(status, "ignored") || str_eq(status, "abandoned") {
        Ok(())
    } else {
        Err(AppError::bad_request("invalid_status", "Invalid status"))
    }
}

pub fn validate_target_type(target_type: &str) -> (r: Result<(), AppError>)
    ensures
        (target_type@ == "webdav"@ || target_type@ == "local_dir"@) ==> r is Ok,
        !(target_type@ == "webdav"@ || target_type@ == "local_dir"@) ==> r is Err && plain_error(
            r->Err_0,
            STATUS_BAD_REQUEST,
            "invalid_target_type"@,
            "Invalid target_type"@,
        ),
{
    if str_eq(target_type, "webdav") || str_eq(target_type, "local_dir") {
        Ok(())
    } else {
        Err(AppError::bad_request("invalid_target_type", "Invalid target_type"))
    }
}

/// The longest reason kept whole, in bytes.
pub const REASON_MAX_LEN: usize = 200;

/// The trimmed reason, `None` when absent or blank; past the limit it is cut at the limit's
/// byte and marked with `…`.
pub open spec fn reason_spec(raw: Option<Seq<char>>, r: Option<Seq<char>>) -> bool {
    match blank_to_none(raw) {
        None => r is None,
        Some(t) => r matches Some(v) && is_marked_cut(t, REASON_MAX_LEN as int, v),
    }
}

/// Past the limit, the cut falls between characters.
pub open spec fn reason_cut_possible(raw: Option<Seq<char>>) -> bool {
    match raw {
        Some(s) => encode_utf8(trim(s)).len() > REASON_MAX_LEN ==> exists|k: int|
            #[trigger] cut_at(trim(s), k, REASON_MAX_LEN as int),
        None => true,
    }
}

/// Requires, past the limit, that the cut falls between characters (slicing elsewhere panics).
pub fn normalize_reason(reason: Option<&str>) -> (r: Option<String>)
    requires
        reason_cut_possible(opt_str_view(reason)),
    ensures
        reason_spec(opt_str_view(reason), opt_view(r)),
{
    match reason {
        None => None,
        Some(s) => {
            let t = trim_str(s);
            if t.unicode_len() == 0 {
                return None;
            }
            Some(cut_marked(t, REASON_MAX_LEN))
        },
    }
}

/// What an operator asks of a cleanup task.
#[derive(Debug, Clone, Copy, PartialEq, Eq, Structural)]
pub enum CleanupAction {
    RetryNow,
    Ignore,
    Unignore,
}

/// Whether the action may be tried on the task as found (its status, `None` when there is no
/// such task): a running task is neither retried nor ignored, and only an ignored task is
/// unignored.
pub fn check_cleanup_action(action: CleanupAction, task_status: Option<&str>) -> (r: Result<(), AppError>)
    ensures
        task_status is None ==> r is Err
            && plain_error(r->Err_0, STATUS_NOT_FOUND, "cleanup_task_not_found"@, "Cleanup task not found"@),
        task_status matches Some(st) ==> match action {
            CleanupAction::Unignore => if st@ != "ignored"@ {
                r is Err && plain_error(r->Err_0, STATUS_CONFLICT, "not_ignored"@, "Task is not ignored"@)
            } else {
                r is Ok
            },
            _ => if st@ == "running"@ {
                r is Err && plain_error(r->Err_0, STATUS_CONFLICT, "task_running"@, "Task is running"@)
            } else {
                r is Ok
            },
        },
{
    let st = match task_status {
        Some(st) => st,
        None => { return Err(AppError::not_found("cleanup_task_not_found", "Cleanup task not found")); },
    };
    match action {
        CleanupAction::Unignore => {
            if !str_eq(st, "ignored") {
                return Err(AppError::conflict("not_ignored", "Task is not ignored"));
            }
            Ok(())
        },
        _ => {
            if str_eq(st, "running") {
                return Err(AppError::conflict("task_running", "Task is running"));
            }
            Ok(())
        },
    }
}

/// The answer when the store did not apply the action (the task changed in between).
pub fn cleanup_action_applied(action: CleanupAction, applied: bool) -> (r: Result<(), AppError>)
    ensures
        applied ==> r is Ok,
        !applied ==> r is Err && match action {
            CleanupAction::RetryNow => plain_error(r->Err_0, STATUS_CONFLICT, "not_retryable"@, "Task is not retryable"@),
            CleanupAction::Ignore => plain_error(r->Err_0, STATUS_CONFLICT, "not_ignorable"@, "Task is not ignorable"@),
            CleanupAction::Unignore => plain_error(r->Err_0, STATUS_CONFLICT, "not_ignored"@, "Task is not ignored"@),
        },
{
    if applied {
        return Ok(());
    }
    match action {
        CleanupAction::RetryNow => Err(AppError::conflict("not_retryable", "Task is not retryable")),
        CleanupAction::Ignore => Err(AppError::conflict("not_ignorable", "Task is not ignorable")),
        CleanupAction::Unignore => Err(AppError::conflict("not_ignored", "Task is not ignored")),
    }
}

/// The cleanup list's parameters as plain values: statuses, target types, node, job, page,
/// page size.
pub type CleanupQueryView = (Seq<Seq<char>>, Seq<Seq<char>>, Option<Seq<char>>, Option<Seq<char>>, Option<i64>, Option<i64>);

/// The cleanup list's parameters. Statuses and target types may be given several times
/// (`status` or `status[]`, `target_type` or `target_type[]`); for the others the last one
/// counts.
#[derive(Debug)]
pub struct CleanupQuery {
    pub statuses: Vec<String>,
    pub target_types: Vec<String>,
    pub node_id: Option<String>,
    pub job_id: Option<String>,
    pub page: Option<i64>,
    pub page_size: Option<i64>,
}

pub open spec fn cleanup_query_view(q: CleanupQuery) -> CleanupQueryView {
    (views(q.statuses@), views(q.target_types@), opt_view(q.node_id), opt_view(q.job_id), q.page, q.page_size)
}

pub open spec fn apply_cleanup_param(q: CleanupQueryView, key: Seq<char>, value: Seq<char>)
    -> Result<CleanupQueryView, (Seq<char>, Seq<char>)>
{
    if key == "status"@ || key == "status[]"@ {
        Ok((q.0.push(value), q.1, q.2, q.3, q.4, q.5))
    } else if key == "target_type"@ || key == "target_type[]"@ {
        Ok((q.0, q.1.push(value), q.2, q.3, q.4, q.5))
    } else if key == "node_id"@ {
        Ok((q.0, q.1, Some(value), q.3, q.4, q.5))
    } else if key == "job_id"@ {
        Ok((q.0, q.1, q.2, Some(value), q.4, q.5))
    } else if key == "page"@ {
        match parse_i64_spec(value) {
            Some(n) => Ok((q.0, q.1, q.2, q.3, Some(n), q.5)),
            None => Err(("invalid_page"@, "Invalid page"@)),
        }
    } else if key == "page_size"@ {
        match parse_i64_spec(value) {
            Some(n) => Ok((q.0, q.1, q.2, q.3, q.4, Some(n))),
            None => Err(("invalid_page_size"@, "Invalid page_size"@)),
        }
    } else {
        Ok(q)
    }
}

/// The pairs read in order; the first bad page or page size stops the reading.
pub open spec fn cleanup_query_spec(pairs: Seq<(Seq<char>, Seq<char>)>) -> Result<CleanupQueryView, (Seq<char>, Seq<char>)>
    decreases pairs.len(),
{
    if pairs.len() == 0 {
        Ok((Seq::empty(), Seq::empty(), None, None, None, None))
    } else {
        match cleanup_query_spec(pairs.drop_last()) {
            Ok(q) => apply_cleanup_param(q, pairs.last().0, pairs.last().1),
            Err(e) => Err(e),
        }
    }
}

proof fn lemma_cleanup_error_stays(pairs: Seq<(Seq<char>, Seq<char>)>, k: int)
    requires
        0 <= k <= pairs.len(),
        cleanup_query_spec(pairs.take(k)) is Err,
    ensures
        cleanup_query_spec(pairs) == cleanup_query_spec(pairs.take(k)),
    decreases pairs.len() - k,
{
    if k < pairs.len() {
        assert(pairs.take(k + 1).drop_last() =~= pairs.take(k));
        lemma_cleanup_error_stays(pairs, k + 1);
    } else {
        assert(pairs.take(k) =~= pairs);
    }
}

pub fn parse_cleanup_query(pairs: &Vec<(String, String)>) -> (r: Result<CleanupQuery, AppError>)
    ensures
        match cleanup_query_spec(pair_views(pairs@)) {
            Ok(q) => r matches Ok(v) && cleanup_query_view(v) == q,
            Err((code, message)) => r is Err && plain_error(r->Err_0, STATUS_BAD_REQUEST, code, message),
        },
{
    let ghost all = pair_views(pairs@);
    let mut q = CleanupQuery {
        statuses: Vec::new(),
        target_types: Vec::new(),
        node_id: None,
        job_id: None,
        page: None,
        page_size: None,
    };
    let mut i: usize = 0;
    assert(cleanup_query_view(q) =~= (Seq::<Seq<char>>::empty(), Seq::<Seq<char>>::empty(), None::<Seq<char>>,
        None::<Seq<char>>, None::<i64>, None::<i64>));
    assert(all.take(0) =~= Seq::<(Seq<char>, Seq<char>)>::empty());
    while i < pairs.len()
        invariant
            all == pair_views(pairs@),
            i <= pairs.len(),
            cleanup_query_spec(all.take(i as int)) == Ok::<CleanupQueryView, (Seq<char>, Seq<char>)>(cleanup_query_view(q)),
        decreases pairs.len() - i,
    {
        assert(all.take(i + 1).drop_last() =~= all.take(i as int));
        assert(all.take(i + 1).last() == (pairs@[i as int].0@, pairs@[i as int].1@));
        let key = pairs[i].0.as_str();
        let value = &pairs[i].1;
        let ghost before = cleanup_query_view(q);
        if str_eq(key, "status") || str_eq(key, "status[]") {
            q.statuses.push(value.clone());
            assert(views(q.statuses@) =~= before.0.push(value@));
        } else if str_eq(key, "target_type") || str_eq(key, "target_type[]") {
            q.target_types.push(value.clone());
            assert(views(q.target_types@) =~= before.1.push(value@));
        } else if str_eq(key, "node_id") {
            q.node_id = Some(value.clone());
        } else if str_eq(key, "job_id") {
            q.job_id = Some(value.clone());
        } else if str_eq(key, "page") {
            match parse_i64(value.as_str()) {
                Some(n) => {
                    q.page = Some(n);
                },
                None => {
                    proof {
                        lemma_cleanup_error_stays(all, i + 1);
                    }
                    return Err(AppError::bad_request("invalid_page", "Invalid page"));
                },
            }
        } else if str_eq(key, "page_size") {
            match parse_i64(value.as_str()) {
                Some(n) => {
                    q.page_size = Some(n);
                },
                None => {
                    proof {
                        lemma_cleanup_error_stays(all, i + 1);
                    }
                    return Err(AppError::bad_request("invalid_page_size", "Invalid page_size"));
                },
            }
        }
        i = i + 1;
    }
    assert(all.take(pairs.len() as int) =~= all);
    Ok(q)
}

/// The cleanup list's parameters read from the raw query string, when there is one.
pub fn parse_cleanup_raw_query(raw: Option<&str>) -> (r: Result<CleanupQuery, AppError>)
    ensures
        match cleanup_query_spec(match raw {
            Some(q) => form_pairs(q@),
            None => Seq::empty(),
        }) {
            Ok(q) => r matches Ok(v) && cleanup_query_view(v) == q,
            Err((code, message)) => r is Err && plain_error(r->Err_0, STATUS_BAD_REQUEST, code, message),
        },
{
    match raw {
        Some(q) => {
            let pairs = decode_query_pairs(q);
            parse_cleanup_query(&pairs)
        },
        None => {
            let pairs: Vec<(String, String)> = Vec::new();
            assert(pair_views(pairs@) =~= Seq::<(Seq<char>, Seq<char>)>::empty());
            parse_cleanup_query(&pairs)
        },
    }
}

pub open spec fn is_target_type(t: Seq<char>) -> bool {
    t == "webdav"@ || t == "local_dir"@
}

fn first_unknown(v: &Vec<String>, target_types: bool) -> (r: Option<usize>)
    ensures
        match r {
            Some(i) => i < v.len() && (if target_types { !is_target_type(v@[i as int]@) } else { !known_task_status(v@[i as int]@) })
                && forall|j: int| 0 <= j < i ==> (if target_types { is_target_type((#[trigger] v@[j])@) } else { known_task_status(v@[j]@) }),
            None => forall|j: int| 0 <= j < v.len() ==> (if target_types { is_target_type((#[trigger] v@[j])@) } else { known_task_status(v@[j]@) }),
        },
{
    let mut i: usize = 0;
    while i < v.len()
        invariant
            i <= v.len(),
            forall|j: int| 0 <= j < i ==> (if target_types { is_target_type((#[trigger] v@[j])@) } else { known_task_status(v@[j]@) }),
        decreases v.len() - i,
    {
        let ok = if target_types { validate_target_type(v[i].as_str()).is_ok() } else { validate_status(v[i].as_str()).is_ok() };
        if !ok {
            return Some(i);
        }
        i = i + 1;
    }
    None
}

/// The list's filters normalized (trimmed, without blanks, sorted, without repeats), every
/// status and target type known; statuses are checked first.
pub fn cleanup_filters(statuses: Vec<String>, target_types: Vec<String>) -> (r: Result<(Vec<String>, Vec<String>), AppError>)
    ensures
        match r {
            Ok((s, t)) => {
                &&& strictly_ascending(views(s@)) && views(s@).to_set() == node_id_set(statuses@)
                &&& strictly_ascending(views(t@)) && views(t@).to_set() == node_id_set(target_types@)
                &&& forall|x: Seq<char>| node_id_set(statuses@).contains(x) ==> known_task_status(x)
                &&& forall|x: Seq<char>| node_id_set(target_types@).contains(x) ==> is_target_type(x)
            },
            Err(e) => {
                ||| (exists|x: Seq<char>| node_id_set(statuses@).contains(x) && !known_task_status(x))
                    && plain_error(e, STATUS_BAD_REQUEST, "invalid_status"@, "Invalid status"@)
                ||| (forall|x: Seq<char>| node_id_set(statuses@).contains(x) ==> known_task_status(x))
                    && (exists|x: Seq<char>| node_id_set(target_types@).contains(x) && !is_target_type(x))
                    && plain_error(e, STATUS_BAD_REQUEST, "invalid_target_type"@, "Invalid target_type"@)
            },
        },
{
    let ghost ws = node_id_set(statuses@);
    let ghost wt = node_id_set(target_types@);
    let s = normalize_filter_list(statuses);
    let t = normalize_filter_list(target_types);
    match first_unknown(&s, false) {
        Some(i) => {
            proof {
                assert(views(s@)[i as int] == s@[i as int]@);
                assert(views(s@).to_set().contains(s@[i as int]@));
                assert(ws.contains(s@[i as int]@));
            }
            return Err(AppError::bad_request("invalid_status", "Invalid status"));
        },
        None => {},
    }
    proof {
        assert forall|x: Seq<char>| ws.contains(x) implies known_task_status(x) by {
            assert(views(s@).to_set().contains(x));
            let j = choose|j: int| 0 <= j < views(s@).len() && views(s@)[j] == x;
            assert(views(s@)[j] == s@[j]@);
        }
    }
    match first_unknown(&t, true) {
        Some(i) => {
            proof {
                assert(views(t@)[i as int] == t@[i as int]@);
                assert(views(t@).to_set().contains(t@[i as int]@));
                assert(wt.contains(t@[i as int]@));
            }
            return Err(AppError::bad_request("invalid_target_type", "Invalid target_type"));
        },
        None => {},
    }
    proof {
        assert forall|x: Seq<char>| wt.contains(x) implies is_target_type(x) by {
            assert(views(t@).to_set().contains(x));
            let j = choose|j: int| 0 <= j < views(t@).len() && views(t@)[j] == x;
            assert(views(t@)[j] == t@[j]@);
        }
    }
    Ok((s, t))
}

} // verus!
