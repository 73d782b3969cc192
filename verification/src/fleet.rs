//! The fleet view of agents: status and config sync state, one item per agent with its
//! labels, and the fleet's totals.
use vstd::prelude::*;
use crate::agents::agent_online_spec;
use crate::agents_admin::sync_status_spec;
use crate::list_paging::{opt_view, opt_str_view};
use crate::text::{owned, str_eq};

verus! {

pub fn agent_online(revoked: bool, last_seen_at: Option<i64>, now: i64) -> (r: bool)
    ensures
        r == agent_online_spec(revoked, last_seen_at, now),
{
    crate::agents::agent_online(revoked, last_seen_at, now)
}

pub fn config_sync_state(
    online: bool,
    desired_snapshot_id: Option<&str>,
    applied_snapshot_id: Option<&str>,
    last_error_kind: Option<&str>,
) -> (r: &'static str)
    ensures
        r@ == sync_status_spec(online, opt_str_view(desired_snapshot_id), opt_str_view(applied_snapshot_id),
            opt_str_view(last_error_kind)),
{
    crate::agents_admin::config_sync_status(online, desired_snapshot_id, applied_snapshot_id, last_error_kind)
}

pub open spec fn fleet_status_spec(revoked: bool, online: bool) -> Seq<char> {
    if revoked {
        "revoked"@
    } else if online {
        "online"@
    } else {
        "offline"@
    }
}

pub fn fleet_status(revoked: bool, online: bool) -> (r: &'static str)
    ensures
        r@ == fleet_status_spec(revoked, online),
{
    if revoked {
        "revoked"
    } else if online {
        "online"
    } else {
        "offline"
    }
}


/// One row of the fleet query: an agent with its job and task counts, and one of its labels
/// (rows of one agent come together, labels in order).
#[derive(Debug)]
pub struct FleetRow {
    pub id: String,
    pub name: Option<String>,
    pub revoked_at: Option<i64>,
    pub last_seen_at: Option<i64>,
    pub desired_config_snapshot_id: Option<String>,
    pub applied_config_snapshot_id: Option<String>,
    pub last_config_sync_error_kind: Option<String>,
    pub last_config_sync_error: Option<String>,
    pub assigned_jobs_total: i64,
    pub pending_tasks_total: i64,
    pub label: Option<String>,
}

#[derive(Debug)]
pub struct FleetListItem {
    pub id: String,
    pub name: Option<String>,
    pub status: String,
    pub last_seen_at: Option<i64>,
    pub labels: Vec<String>,
    pub config_sync_state: String,
    pub last_error_kind: Option<String>,
    pub last_error: Option<String>,
    pub assigned_jobs_total: i64,
    pub pending_tasks_total: i64,
}

#[derive(Debug, Clone, Copy, PartialEq, Eq, Structural)]
pub struct FleetSummary {
    pub total: i64,
    pub online: i64,
    pub offline: i64,
    pub revoked: i64,
    pub drifted: i64,
}

pub open spec fn fleet_label_seq(r: FleetRow) -> Seq<Seq<char>> {
    match r.label {
        Some(l) => seq![l@],
        None => seq![],
    }
}

/// The agents of the rows: each run of rows with one id makes one agent, described by its
/// first row, with the labels of all its rows.
pub open spec fn fleet_groups(rows: Seq<FleetRow>) -> Seq<(int, Seq<Seq<char>>)>
    decreases rows.len(),
{
    if rows.len() == 0 {
        seq![]
    } else {
        let g = fleet_groups(rows.drop_last());
        let i = rows.len() - 1;
        if i == 0 || rows[i - 1].id@ != rows[i].id@ {
            g.push((i, fleet_label_seq(rows[i])))
        } else {
            g.update(g.len() - 1, (g.last().0, g.last().1 + fleet_label_seq(rows[i])))
        }
    }
}

pub open spec fn fleet_item_from_row(item: FleetListItem, r: FleetRow, now: i64) -> bool {
    let revoked = r.revoked_at is Some;
    let online = agent_online_spec(revoked, r.last_seen_at, now);
    &&& item.id@ == r.id@
    &&& opt_view(item.name) == opt_view(r.name)
    &&& item.status@ == fleet_status_spec(revoked, online)
    &&& item.last_seen_at == r.last_seen_at
    &&& item.config_sync_state@ == sync_status_spec(online, opt_view(r.desired_config_snapshot_id),
        opt_view(r.applied_config_snapshot_id), opt_view(r.last_config_sync_error_kind))
    &&& opt_view(item.last_error_kind) == opt_view(r.last_config_sync_error_kind)
    &&& opt_view(item.last_error) == opt_view(r.last_config_sync_error)
    &&& item.assigned_jobs_total == r.assigned_jobs_total
    &&& item.pending_tasks_total == r.pending_tasks_total
}

fn clone_opt(s: &Option<String>) -> (r: Option<String>)
    ensures
        opt_view(r) == opt_view(*s),
{
    match s {
        Some(v) => Some(v.clone()),
        None => None,
    }
}

fn opt_ref(s: &Option<String>) -> (r: Option<&str>)
    ensures
        opt_str_view(r) == opt_view(*s),
{
    match s {
        Some(v) => Some(v.as_str()),
        None => None,
    }
}

fn fleet_item_of(r: &FleetRow, now: i64) -> (item: FleetListItem)
    ensures
        fleet_item_from_row(item, *r, now),
        item.labels@.len() == 0,
{
    let revoked = r.revoked_at.is_some();
    let online = agent_online(revoked, r.last_seen_at, now);
    let state = config_sync_state(
        online,
        opt_ref(&r.desired_config_snapshot_id),
        opt_ref(&r.applied_config_snapshot_id),
        opt_ref(&r.last_config_sync_error_kind),
    );
    FleetListItem {
        id: r.id.clone(),
        name: clone_opt(&r.name),
        status: owned(fleet_status(revoked, online)),
        last_seen_at: r.last_seen_at,
        labels: Vec::new(),
        config_sync_state: owned(state),
        last_error_kind: clone_opt(&r.last_config_sync_error_kind),
        last_error: clone_opt(&r.last_config_sync_error),
        assigned_jobs_total: r.assigned_jobs_total,
        pending_tasks_total: r.pending_tasks_total,
    }
}

pub open spec fn labels_view(v: Seq<String>) -> Seq<Seq<char>> {
    v.map_values(|l: String| l@)
}

/// The fleet's agents, one per run of rows with the same id, with their labels.
pub fn group_fleet_rows(rows: &Vec<FleetRow>, now: i64) -> (items: Vec<FleetListItem>)
    ensures
        items.len() == fleet_groups(rows@).len(),
        forall|k: int| 0 <= k < items.len() ==> {
            let g = #[trigger] fleet_groups(rows@)[k];
            &&& 0 <= g.0 < rows.len()
            &&& fleet_item_from_row(items@[k], rows@[g.0], now)
            &&& labels_view(items@[k].labels@) == g.1
        },
{
    let mut items: Vec<FleetListItem> = Vec::new();
    let mut i: usize = 0;
    while i < rows.len()
        invariant
            i <= rows.len(),
            items.len() == fleet_groups(rows@.take(i as int)).len(),
            i > 0 ==> items.len() > 0,
            forall|k: int| 0 <= k < items.len() ==> {
                let g = #[trigger] fleet_groups(rows@.take(i as int))[k];
                &&& 0 <= g.0 < i
                &&& fleet_item_from_row(items@[k], rows@[g.0], now)
                &&& labels_view(items@[k].labels@) == g.1
            },
        decreases rows.len() - i,
    {
        let ghost pre = rows@.take(i as int);
        let ghost next = rows@.take(i + 1);
        assert(next.drop_last() =~= pre);
        assert(next[i as int] == rows@[i as int]);
        if i > 0 {
            assert(next[i - 1] == rows@[i - 1]);
        }
        let starts = i == 0 || !str_eq(rows[i - 1].id.as_str(), rows[i].id.as_str());
        if starts {
            let mut item = fleet_item_of(&rows[i], now);
            match &rows[i].label {
                Some(l) => item.labels.push(l.clone()),
                None => {},
            }
            proof {
                assert(labels_view(item.labels@) =~= fleet_label_seq(rows@[i as int]));
            }
            items.push(item);
            proof {
                let g = fleet_groups(next);
                assert(g == fleet_groups(pre).push((i as int, fleet_label_seq(rows@[i as int]))));
                assert forall|k: int| 0 <= k < items.len() implies {
                    let gk = #[trigger] fleet_groups(rows@.take(i + 1))[k];
                    &&& 0 <= gk.0 < i + 1
                    &&& fleet_item_from_row(items@[k], rows@[gk.0], now)
                    &&& labels_view(items@[k].labels@) == gk.1
                } by {
                    if k < items.len() - 1 {
                        assert(g[k] == fleet_groups(pre)[k]);
                    }
                }
            }
        } else {
            let mut last = items.pop().unwrap();
            let ghost before_labels = labels_view(last.labels@);
            match &rows[i].label {
                Some(l) => last.labels.push(l.clone()),
                None => {},
            }
            proof {
                assert(labels_view(last.labels@) =~= before_labels + fleet_label_seq(rows@[i as int]));
            }
            items.push(last);
            proof {
                let g = fleet_groups(next);
                let gp = fleet_groups(pre);
                assert(g == gp.update(gp.len() - 1, (gp.last().0, gp.last().1 + fleet_label_seq(rows@[i as int]))));
                assert forall|k: int| 0 <= k < items.len() implies {
                    let gk = #[trigger] fleet_groups(rows@.take(i + 1))[k];
                    &&& 0 <= gk.0 < i + 1
                    &&& fleet_item_from_row(items@[k], rows@[gk.0], now)
                    &&& labels_view(items@[k].labels@) == gk.1
                } by {
                    if k < items.len() - 1 {
                        assert(g[k] == gp[k]);
                    } else {
                        assert(g[k] == (gp.last().0, gp.last().1 + fleet_label_seq(rows@[i as int])));
                        assert(gp[k] == gp.last());
                    }
                }
            }
        }
        i = i + 1;
    }
    assert(rows@.take(rows.len() as int) =~= rows@);
    items
}

/// How many items satisfy `p`.
pub open spec fn count_items(items: Seq<FleetListItem>, p: spec_fn(FleetListItem) -> bool) -> int
    decreases items.len(),
{
    if items.len() == 0 {
        0
    } else {
        count_items(items.drop_last(), p) + if p(items.last()) { 1int } else { 0int }
    }
}

/// Totals of the fleet: all agents, by status, and those whose config has drifted (pending
/// or in error).
pub open spec fn is_fleet_summary(s: FleetSummary, items: Seq<FleetListItem>) -> bool {
    &&& s.total == items.len()
    &&& s.revoked == count_items(items, |i: FleetListItem| i.status@ == "revoked"@)
    &&& s.online == count_items(items, |i: FleetListItem| i.status@ == "online"@)
    &&& s.offline == count_items(items, |i: FleetListItem| i.status@ != "revoked"@ && i.status@ != "online"@)
    &&& s.drifted == count_items(items, |i: FleetListItem| i.config_sync_state@ == "pending"@ || i.config_sync_state@ == "error"@)
}

proof fn lemma_count_le(items: Seq<FleetListItem>, p: spec_fn(FleetListItem) -> bool)
    ensures
        0 <= count_items(items, p) <= items.len(),
    decreases items.len(),
{
    if items.len() > 0 {
        lemma_count_le(items.drop_last(), p);
    }
}

pub fn fleet_summary(items: &Vec<FleetListItem>) -> (s: FleetSummary)
    requires
        items.len() <= i64::MAX,
    ensures
        is_fleet_summary(s, items@),
{
    let mut s = FleetSummary { total: 0, online: 0, offline: 0, revoked: 0, drifted: 0 };
    let mut i: usize = 0;
    let ghost pr = |it: FleetListItem| it.status@ == "revoked"@;
    let ghost po = |it: FleetListItem| it.status@ == "online"@;
    let ghost pf = |it: FleetListItem| it.status@ != "revoked"@ && it.status@ != "online"@;
    let ghost pd = |it: FleetListItem| it.config_sync_state@ == "pending"@ || it.config_sync_state@ == "error"@;
    while i < items.len()
        invariant
            i <= items.len() <= i64::MAX,
            s.total == i,
            pr == (|it: FleetListItem| it.status@ == "revoked"@),
            po == (|it: FleetListItem| it.status@ == "online"@),
            pf == (|it: FleetListItem| it.status@ != "revoked"@ && it.status@ != "online"@),
            pd == (|it: FleetListItem| it.config_sync_state@ == "pending"@ || it.config_sync_state@ == "error"@),
            s.revoked == count_items(items@.take(i as int), pr),
            s.online == count_items(items@.take(i as int), po),
            s.offline == count_items(items@.take(i as int), pf),
            s.drifted == count_items(items@.take(i as int), pd),
        decreases items.len() - i,
    {
        let ghost next = items@.take(i + 1);
        assert(next.drop_last() =~= items@.take(i as int));
        assert(next.last() == items@[i as int]);
        proof {
            lemma_count_le(items@.take(i as int), pr);
            lemma_count_le(items@.take(i as int), po);
            lemma_count_le(items@.take(i as int), pf);
            lemma_count_le(items@.take(i as int), pd);
            reveal_strlit("revoked");
            reveal_strlit("online");
            assert("revoked"@[0] != "online"@[0]);
        }
        let it = &items[i];
        s.total = s.total + 1;
        if str_eq(it.status.as_str(), "revoked") {
            s.revoked = s.revoked + 1;
        } else if str_eq(it.status.as_str(), "online") {
            s.online = s.online + 1;
        } else {
            s.offline = s.offline + 1;
        }
        if str_eq(it.config_sync_state.as_str(), "pending") || str_eq(it.config_sync_state.as_str(), "error") {
            s.drifted = s.drifted + 1;
        }
        i = i + 1;
    }
    assert(items@.take(items.len() as int) =~= items@);
    s
}


proof fn lemma_status_counts_partition(items: Seq<FleetListItem>)
    ensures
        count_items(items, |i: FleetListItem| i.status@ == "revoked"@)
            + count_items(items, |i: FleetListItem| i.status@ == "online"@)
            + count_items(items, |i: FleetListItem| i.status@ != "revoked"@ && i.status@ != "online"@)
            == items.len(),
    decreases items.len(),
{
    reveal_strlit("revoked");
    reveal_strlit("online");
    assert("revoked"@[0] != "online"@[0]);
    if items.len() > 0 {
        lemma_status_counts_partition(items.drop_last());
    }
}

/// Every agent of the fleet is counted once: online, offline or revoked.
pub proof fn lemma_fleet_summary_partition(s: FleetSummary, items: Seq<FleetListItem>)
    requires
        is_fleet_summary(s, items),
    ensures
        s.total == s.online + s.offline + s.revoked,
{
    lemma_status_counts_partition(items);
}

} // verus!
