//! The agents list of the admin pages: its filters and each agent's config sync status.
use vstd::prelude::*;
use crate::agents::agent_online_spec;
use crate::text::owned;
use crate::error::{AppError, STATUS_BAD_REQUEST, plain_error};
use crate::list_paging::{opt_view, opt_str_view, blank_to_none, trimmed_non_blank};
use crate::text::str_eq;
use crate::docs::{pair_views, form_pairs, decode_query_pairs};
use crate::int_parse::{parse_i64, parse_i64_spec};

verus! {

#[derive(Debug, Clone, Copy, PartialEq, Eq, Structural)]
pub enum AgentStatusFilter {
    All,
    Online,
    Offline,
    Revoked,
}

/// The status filter as given: absent or blank means all.
pub open spec fn status_filter_spec(raw: Option<Seq<char>>) -> Option<AgentStatusFilter> {
    let v = match blank_to_none(raw) {
        Some(v) => v,
        None => "all"@,
    };
    if v == "all"@ {
        Some(AgentStatusFilter::All)
    } else if v == "online"@ {
        Some(AgentStatusFilter::Online)
    } else if v == "offline"@ {
        Some(AgentStatusFilter::Offline)
    } else if v == "revoked"@ {
        Some(AgentStatusFilter::Revoked)
    } else {
        None
    }
}

pub fn parse_status_filter(value: Option<&str>) -> (r: Result<AgentStatusFilter, AppError>)
    ensures
        match status_filter_spec(opt_str_view(value)) {
            Some(f) => r == Ok::<AgentStatusFilter, AppError>(f),
            None => r is Err && plain_error(r->Err_0, STATUS_BAD_REQUEST, "invalid_status"@, "Invalid status"@),
        },
{
    let t = trimmed_non_blank(value);
    let v: &str = match &t {
        Some(s) => s.as_str(),
        None => "all",
    };
    if str_eq(v, "all") {
        Ok(AgentStatusFilter::All)
    } else if str_eq(v, "online") {
        Ok(AgentStatusFilter::Online)
    } else if str_eq(v, "offline") {
        Ok(AgentStatusFilter::Offline)
    } else if str_eq(v, "revoked") {
        Ok(AgentStatusFilter::Revoked)
    } else {
        Err(AppError::bad_request("invalid_status", "Invalid status"))
    }
}

/// The trimmed search text, or `None` when absent or blank.
pub fn normalize_search_query(value: Option<String>) -> (r: Option<String>)
    ensures
        opt_view(r) == blank_to_none(opt_view(value)),
{
    match &value {
        Some(v) => trimmed_non_blank(Some(v.as_str())),
        None => None,
    }
}

pub fn agent_online(revoked: bool, last_seen_at: Option<i64>, now: i64) -> (r: bool)
    ensures
        r == agent_online_spec(revoked, last_seen_at, now),
{
    crate::agents::agent_online(revoked, last_seen_at, now)
}

/// Offline agents are "offline"; a recorded error is "error"; an applied snapshot that is
/// the desired one is "synced"; anything else is "pending".
pub open spec fn sync_status_spec(
    online: bool,
    desired: Option<Seq<char>>,
    applied: Option<Seq<char>>,
    last_error_kind: Option<Seq<char>>,
) -> Seq<char> {
    if !online {
        "offline"@
    } else if last_error_kind is Some {
        "error"@
    } else if desired is Some && applied == desired {
        "synced"@
    } else {
        "pending"@
    }
}

pub fn config_sync_status(
    online: bool,
    desired: Option<&str>,
    applied: Option<&str>,
    last_error_kind: Option<&str>,
) -> (r: &'static str)
    ensures
        r@ == sync_status_spec(online, opt_str_view(desired), opt_str_view(applied), opt_str_view(last_error_kind)),
{
    if !online {
        return "offline";
    }
    if last_error_kind.is_some() {
        return "error";
    }
    match (desired, applied) {
        (Some(d), Some(a)) => {
            if str_eq(a, d) {
                return "synced";
            }
        },
        _ => {},
    }
    "pending"
}


/// The parameters of the agents list as given in its query.
#[derive(Debug)]
pub struct AgentListQuery {
    pub labels: Vec<String>,
    pub labels_mode: Option<String>,
    pub status: Option<String>,
    pub search: Option<String>,
    pub page: Option<i64>,
    pub page_size: Option<i64>,
}

/// The query as plain values: labels, labels mode, status, search, page, page size.
pub type QueryView = (Seq<Seq<char>>, Option<Seq<char>>, Option<Seq<char>>, Option<Seq<char>>, Option<i64>, Option<i64>);

pub open spec fn query_view(q: AgentListQuery) -> QueryView {
    (q.labels@.map_values(|l: String| l@), opt_view(q.labels_mode), opt_view(q.status), opt_view(q.search), q.page, q.page_size)
}

/// One pair read into the parameters: labels add up, other keys keep their last value,
/// unknown keys are ignored, and a page or page size must be an integer.
pub open spec fn apply_list_param(q: QueryView, key: Seq<char>, value: Seq<char>) -> Result<QueryView, (Seq<char>, Seq<char>)> {
    if key == "labels"@ || key == "labels[]"@ {
        Ok((q.0.push(value), q.1, q.2, q.3, q.4, q.5))
    } else if key == "labels_mode"@ {
        Ok((q.0, Some(value), q.2, q.3, q.4, q.5))
    } else if key == "status"@ {
        Ok((q.0, q.1, Some(value), q.3, q.4, q.5))
    } else if key == "q"@ {
        Ok((q.0, q.1, q.2, Some(value), q.4, q.5))
    } else if key == "page"@ {
        match parse_i64_spec(value) {
            Some(n) => Ok((q.0, q.1, q.2, q.3, Some(n), q.5)),
            None => Err(("invalid_page"@, "Invalid page"@)),
        }
    } else if key == "page_size"@ {
        match parse_i64_spec(value) {
            Some(n) => Ok((q.0, q.1, q.2, q.3, q.4, Some(n))),
            None => Err(("invalid_page_size"@, "Invalid page_size"@)),
        }
    } else {
        Ok(q)
    }
}

/// The pairs read in order; the first bad page or page size stops the reading.
pub open spec fn list_query_spec(pairs: Seq<(Seq<char>, Seq<char>)>) -> Result<QueryView, (Seq<char>, Seq<char>)>
    decreases pairs.len(),
{
    if pairs.len() == 0 {
        Ok((Seq::empty(), None, None, None, None, None))
    } else {
        match list_query_spec(pairs.drop_last()) {
            Ok(q) => apply_list_param(q, pairs.last().0, pairs.last().1),
            Err(e) => Err(e),
        }
    }
}

proof fn lemma_list_query_error_stays(pairs: Seq<(Seq<char>, Seq<char>)>, k: int)
    requires
        0 <= k <= pairs.len(),
        list_query_spec(pairs.take(k)) is Err,
    ensures
        list_query_spec(pairs) == list_query_spec(pairs.take(k)),
    decreases pairs.len() - k,
{
    if k < pairs.len() {
        assert(pairs.take(k + 1).drop_last() =~= pairs.take(k));
        lemma_list_query_error_stays(pairs, k + 1);
    } else {
        assert(pairs.take(k) =~= pairs);
    }
}

pub fn parse_agent_list_query(pairs: &Vec<(String, String)>) -> (r: Result<AgentListQuery, AppError>)
    ensures
        match list_query_spec(pair_views(pairs@)) {
            Ok(q) => r matches Ok(v) && query_view(v) == q,
            Err((code, message)) => r is Err && plain_error(r->Err_0, STATUS_BAD_REQUEST, code, message),
        },
{
    let ghost all = pair_views(pairs@);
    let mut q = AgentListQuery { labels: Vec::new(), labels_mode: None, status: None, search: None, page: None, page_size: None };
    let mut i: usize = 0;
    assert(query_view(q) =~= (Seq::<Seq<char>>::empty(), None::<Seq<char>>, None::<Seq<char>>, None::<Seq<char>>, None::<i64>, None::<i64>));
    assert(all.take(0) =~= Seq::<(Seq<char>, Seq<char>)>::empty());
    while i < pairs.len()
        invariant
            all == pair_views(pairs@),
            i <= pairs.len(),
            list_query_spec(all.take(i as int)) == Ok::<QueryView, (Seq<char>, Seq<char>)>(query_view(q)),
        decreases pairs.len() - i,
    {
        assert(all.take(i + 1).drop_last() =~= all.take(i as int));
        assert(all.take(i + 1).last() == (pairs@[i as int].0@, pairs@[i as int].1@));
        let key = pairs[i].0.as_str();
        let value = &pairs[i].1;
        let ghost before = query_view(q);
        if str_eq(key, "labels") || str_eq(key, "labels[]") {
            q.labels.push(value.clone());
            assert(q.labels@.map_values(|l: String| l@) =~= before.0.push(value@));
        } else if str_eq(key, "labels_mode") {
            q.labels_mode = Some(value.clone());
        } else if str_eq(key, "status") {
            q.status = Some(value.clone());
        } else if str_eq(key, "q") {
            q.search = Some(value.clone());
        } else if str_eq(key, "page") {
            match parse_i64(value.as_str()) {
                Some(n) => {
                    q.page = Some(n);
                },
                None => {
                    proof {
                        lemma_list_query_error_stays(all, i + 1);
                    }
                    return Err(AppError::bad_request("invalid_page", "Invalid page"));
                },
            }
        } else if str_eq(key, "page_size") {
            match parse_i64(value.as_str()) {
                Some(n) => {
                    q.page_size = Some(n);
                },
                None => {
                    proof {
                        lemma_list_query_error_stays(all, i + 1);
                    }
                    return Err(AppError::bad_request("invalid_page_size", "Invalid page_size"));
                },
            }
        }
        i = i + 1;
    }
    assert(all.take(pairs.len() as int) =~= all);
    Ok(q)
}

/// Paging of the agents list: page numbers start at 1; a page holds 20 agents unless asked
/// otherwise, at most 100; without any paging parameter the whole list is one page.
#[derive(Debug, Clone, Copy, PartialEq, Eq, Structural)]
pub struct AgentListPage {
    pub page: i64,
    pub page_size: i64,
    pub offset: Option<i64>,
}

pub open spec fn saturating_mul_spec(a: int, b: int) -> i64 {
    if a * b > i64::MAX {
        i64::MAX
    } else if a * b < i64::MIN {
        i64::MIN
    } else {
        (a * b) as i64
    }
}

pub open spec fn agent_list_page_spec(page: Option<i64>, page_size: Option<i64>, total: i64) -> Result<AgentListPage, (Seq<char>, Seq<char>)> {
    let requested = page is Some || page_size is Some;
    let p: i64 = match page { Some(p) => p, None => 1 };
    let s: i64 = match page_size { Some(s) => s, None => 20 };
    if p < 1 {
        Err(("invalid_page"@, "Invalid page"@))
    } else if !requested {
        Ok(AgentListPage { page: 1, page_size: total, offset: None })
    } else if s < 1 {
        Err(("invalid_page_size"@, "Invalid page_size"@))
    } else {
        let size: i64 = if s > 100 { 100 } else { s };
        Ok(AgentListPage { page: p, page_size: size, offset: Some(saturating_mul_spec(p - 1, size as int)) })
    }
}

pub fn agent_list_page(page: Option<i64>, page_size: Option<i64>, total: i64) -> (r: Result<AgentListPage, AppError>)
    ensures
        match agent_list_page_spec(page, page_size, total) {
            Ok(p) => r == Ok::<AgentListPage, AppError>(p),
            Err((code, message)) => r is Err && plain_error(r->Err_0, STATUS_BAD_REQUEST, code, message),
        },
{
    let requested = page.is_some() || page_size.is_some();
    let p: i64 = match page { Some(p) => p, None => 1 };
    if p < 1 {
        return Err(AppError::bad_request("invalid_page", "Invalid page"));
    }
    if !requested {
        return Ok(AgentListPage { page: 1, page_size: total, offset: None });
    }
    let s: i64 = match page_size { Some(s) => s, None => 20 };
    if s < 1 {
        return Err(AppError::bad_request("invalid_page_size", "Invalid page_size"));
    }
    let size: i64 = if s > 100 { 100 } else { s };
    let before: i64 = p - 1;
    let offset: i64 = if before > i64::MAX / size {
        i64::MAX
    } else {
        proof {
            assert(before * size <= i64::MAX) by (nonlinear_arith)
                requires
                    0 <= before <= i64::MAX / size,
                    1 <= size <= 100;
            assert(before * size >= 0) by (nonlinear_arith)
                requires
                    0 <= before,
                    1 <= size;
        }
        before * size
    };
    proof {
        if before > i64::MAX / size {
            assert(before * size > i64::MAX) by (nonlinear_arith)
                requires
                    before > i64::MAX / size,
                    1 <= size <= 100;
        }
    }
    Ok(AgentListPage { page: p, page_size: size, offset: Some(offset) })
}


/// The agents list parameters of a raw query string (none when there is no query).
pub fn parse_agent_list_raw_query(raw: Option<&str>) -> (r: Result<AgentListQuery, AppError>)
    ensures
        match list_query_spec(match raw {
            Some(q) => form_pairs(q@),
            None => Seq::empty(),
        }) {
            Ok(q) => r matches Ok(v) && query_view(v) == q,
            Err((code, message)) => r is Err && plain_error(r->Err_0, STATUS_BAD_REQUEST, code, message),
        },
{
    match raw {
        Some(q) => {
            let pairs = decode_query_pairs(q);
            parse_agent_list_query(&pairs)
        },
        None => {
            let pairs: Vec<(String, String)> = Vec::new();
            assert(pair_views(pairs@) =~= Seq::<(Seq<char>, Seq<char>)>::empty());
            parse_agent_list_query(&pairs)
        },
    }
}


/// One row of the agents list query: an agent, with one of its labels (rows of one agent
/// come together, labels in order).
#[derive(Debug)]
pub struct AgentListRow {
    pub id: String,
    pub name: Option<String>,
    pub revoked_at: Option<i64>,
    pub last_seen_at: Option<i64>,
    pub desired_config_snapshot_id: Option<String>,
    pub applied_config_snapshot_id: Option<String>,
    pub last_config_sync_attempt_at: Option<i64>,
    pub last_config_sync_error_kind: Option<String>,
    pub last_config_sync_error: Option<String>,
    pub label: Option<String>,
}

#[derive(Debug)]
pub struct AgentListItem {
    pub id: String,
    pub name: Option<String>,
    pub revoked: bool,
    pub last_seen_at: Option<i64>,
    pub online: bool,
    pub labels: Vec<String>,
    pub desired_config_snapshot_id: Option<String>,
    pub applied_config_snapshot_id: Option<String>,
    pub config_sync_status: String,
    pub last_config_sync_attempt_at: Option<i64>,
    pub last_config_sync_error_kind: Option<String>,
    pub last_config_sync_error: Option<String>,
}

pub open spec fn label_seq(r: AgentListRow) -> Seq<Seq<char>> {
    match r.label {
        Some(l) => seq![l@],
        None => seq![],
    }
}

/// The agents of the rows: each run of rows with one id makes one agent, described by its
/// first row, with the labels of all its rows. Each entry is that first row's position and
/// the labels.
pub open spec fn agent_groups(rows: Seq<AgentListRow>) -> Seq<(int, Seq<Seq<char>>)>
    decreases rows.len(),
{
    if rows.len() == 0 {
        seq![]
    } else {
        let g = agent_groups(rows.drop_last());
        let i = rows.len() - 1;
        if i == 0 || rows[i - 1].id@ != rows[i].id@ {
            g.push((i, label_seq(rows[i])))
        } else {
            g.update(g.len() - 1, (g.last().0, g.last().1 + label_seq(rows[i])))
        }
    }
}

/// The agent's fields as its row gives them, with online and sync status read from them.
pub open spec fn item_from_row(item: AgentListItem, r: AgentListRow, now: i64) -> bool {
    let revoked = r.revoked_at is Some;
    let online = agent_online_spec(revoked, r.last_seen_at, now);
    &&& item.id@ == r.id@
    &&& opt_view(item.name) == opt_view(r.name)
    &&& item.revoked == revoked
    &&& item.last_seen_at == r.last_seen_at
    &&& item.online == online
    &&& opt_view(item.desired_config_snapshot_id) == opt_view(r.desired_config_snapshot_id)
    &&& opt_view(item.applied_config_snapshot_id) == opt_view(r.applied_config_snapshot_id)
    &&& item.config_sync_status@ == sync_status_spec(online, opt_view(r.desired_config_snapshot_id),
        opt_view(r.applied_config_snapshot_id), opt_view(r.last_config_sync_error_kind))
    &&& item.last_config_sync_attempt_at == r.last_config_sync_attempt_at
    &&& opt_view(item.last_config_sync_error_kind) == opt_view(r.last_config_sync_error_kind)
    &&& opt_view(item.last_config_sync_error) == opt_view(r.last_config_sync_error)
}

pub open spec fn labels_view(v: Seq<String>) -> Seq<Seq<char>> {
    v.map_values(|l: String| l@)
}

fn clone_opt(s: &Option<String>) -> (r: Option<String>)
    ensures
        opt_view(r) == opt_view(*s),
{
    match s {
        Some(v) => Some(v.clone()),
        None => None,
    }
}

fn opt_ref(s: &Option<String>) -> (r: Option<&str>)
    ensures
        opt_str_view(r) == opt_view(*s),
{
    match s {
        Some(v) => Some(v.as_str()),
        None => None,
    }
}

fn item_of(r: &AgentListRow, now: i64) -> (item: AgentListItem)
    ensures
        item_from_row(item, *r, now),
        item.labels@.len() == 0,
{
    let revoked = r.revoked_at.is_some();
    let online = agent_online(revoked, r.last_seen_at, now);
    let status = config_sync_status(
        online,
        opt_ref(&r.desired_config_snapshot_id),
        opt_ref(&r.applied_config_snapshot_id),
        opt_ref(&r.last_config_sync_error_kind),
    );
    AgentListItem {
        id: r.id.clone(),
        name: clone_opt(&r.name),
        revoked,
        last_seen_at: r.last_seen_at,
        online,
        labels: Vec::new(),
        desired_config_snapshot_id: clone_opt(&r.desired_config_snapshot_id),
        applied_config_snapshot_id: clone_opt(&r.applied_config_snapshot_id),
        config_sync_status: owned(status),
        last_config_sync_attempt_at: r.last_config_sync_attempt_at,
        last_config_sync_error_kind: clone_opt(&r.last_config_sync_error_kind),
        last_config_sync_error: clone_opt(&r.last_config_sync_error),
    }
}

/// The agents of the list, one per run of rows with the same id, with their labels.
pub fn group_agent_rows(rows: &Vec<AgentListRow>, now: i64) -> (items: Vec<AgentListItem>)
    ensures
        items.len() == agent_groups(rows@).len(),
        forall|k: int| 0 <= k < items.len() ==> {
            let g = #[trigger] agent_groups(rows@)[k];
            &&& 0 <= g.0 < rows.len()
            &&& item_from_row(items@[k], rows@[g.0], now)
            &&& labels_view(items@[k].labels@) == g.1
        },
{
    let mut items: Vec<AgentListItem> = Vec::new();
    let mut i: usize = 0;
    while i < rows.len()
        invariant
            i <= rows.len(),
            items.len() == agent_groups(rows@.take(i as int)).len(),
            i > 0 ==> items.len() > 0,
            forall|k: int| 0 <= k < items.len() ==> {
                let g = #[trigger] agent_groups(rows@.take(i as int))[k];
                &&& 0 <= g.0 < i
                &&& item_from_row(items@[k], rows@[g.0], now)
                &&& labels_view(items@[k].labels@) == g.1
            },
        decreases rows.len() - i,
    {
        let ghost pre = rows@.take(i as int);
        let ghost next = rows@.take(i + 1);
        assert(next.drop_last() =~= pre);
        assert(next[i as int] == rows@[i as int]);
        if i > 0 {
            assert(next[i - 1] == rows@[i - 1]);
        }
        let starts = i == 0 || !str_eq(rows[i - 1].id.as_str(), rows[i].id.as_str());
        if starts {
            let mut item = item_of(&rows[i], now);
            match &rows[i].label {
                Some(l) => item.labels.push(l.clone()),
                None => {},
            }
            proof {
                assert(labels_view(item.labels@) =~= label_seq(rows@[i as int]));
            }
            items.push(item);
            proof {
                let g = agent_groups(next);
                assert(g == agent_groups(pre).push((i as int, label_seq(rows@[i as int]))));
                assert forall|k: int| 0 <= k < items.len() implies {
                    let gk = #[trigger] agent_groups(rows@.take(i + 1))[k];
                    &&& 0 <= gk.0 < i + 1
                    &&& item_from_row(items@[k], rows@[gk.0], now)
                    &&& labels_view(items@[k].labels@) == gk.1
                } by {
                    if k < items.len() - 1 {
                        assert(g[k] == agent_groups(pre)[k]);
                    }
                }
            }
        } else {
            let mut last = items.pop().unwrap();
            let ghost before_labels = labels_view(last.labels@);
            match &rows[i].label {
                Some(l) => last.labels.push(l.clone()),
                None => {},
            }
            proof {
                assert(labels_view(last.labels@) =~= before_labels + label_seq(rows@[i as int]));
            }
            items.push(last);
            proof {
                let g = agent_groups(next);
                let gp = agent_groups(pre);
                assert(g == gp.update(gp.len() - 1, (gp.last().0, gp.last().1 + label_seq(rows@[i as int]))));
                assert forall|k: int| 0 <= k < items.len() implies {
                    let gk = #[trigger] agent_groups(rows@.take(i + 1))[k];
                    &&& 0 <= gk.0 < i + 1
                    &&& item_from_row(items@[k], rows@[gk.0], now)
                    &&& labels_view(items@[k].labels@) == gk.1
                } by {
                    if k < items.len() - 1 {
                        assert(g[k] == gp[k]);
                    } else {
                        assert(g[k] == (gp.last().0, gp.last().1 + label_seq(rows@[i as int])));
                        assert(gp[k] == gp.last());
                    }
                }
            }
        }
        i = i + 1;
    }
    assert(rows@.take(rows.len() as int) =~= rows@);
    items
}

/// Paged agent lists step through the agents without gap or overlap. For a valid request
/// of page `p` (page size `s`, or 20 when only the page is given): the page size is the
/// request clamped to at most 100; the page starts after the `(p - 1)` full pages before it
/// (its offset is `(p - 1) * size`, held at `i64::MAX` when that does not fit); page 1
/// starts at 0; and the next page starts exactly one page size later.
pub proof fn law_agent_pages_follow_each_other(p: i64, page_size: Option<i64>, total: i64)
    requires
        1 <= p < i64::MAX,
        page_size matches Some(s) ==> s >= 1,
    ensures
        agent_list_page_spec(Some(p), page_size, total) matches Ok(a) && {
            &&& a.page == p
            &&& a.page_size == match page_size {
                Some(s) => if s > 100 { 100 } else { s },
                None => 20,
            }
            &&& 1 <= a.page_size <= 100
            &&& (p == 1 ==> a.offset == Some(0i64))
            &&& ((p - 1) * a.page_size <= i64::MAX ==> a.offset == Some(((p - 1) * a.page_size) as i64))
            &&& ((p - 1) * a.page_size > i64::MAX ==> a.offset == Some(i64::MAX))
            &&& agent_list_page_spec(Some((p + 1) as i64), page_size, total) matches Ok(b) && b.page_size
                == a.page_size && (p * a.page_size <= i64::MAX ==> b.offset == Some((a.offset->0 + a.page_size) as i64))
        },
{
    let a = agent_list_page_spec(Some(p), page_size, total)->Ok_0;
    let size = a.page_size as int;
    assert(0 <= (p - 1) * size) by (nonlinear_arith)
        requires
            p >= 1,
            size >= 1;
    assert(p * size == (p - 1) * size + size) by (nonlinear_arith);
    if p == 1 {
        assert((p - 1) * size == 0) by (nonlinear_arith)
            requires
                p == 1;
    }
}

} // verus!
