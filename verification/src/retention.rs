//! Retention of a job's snapshots: the day boundaries that policies count in, how much of a
//! selection a preview shows, and how many deletions one application may queue.
use vstd::prelude::*;
use crate::error::{AppError, STATUS_BAD_REQUEST, plain_error};
use crate::text::str_eq;
use crate::sorted_text::views;

verus! {

pub const SECS_PER_DAY: i64 = 86400;

/// The start of the UTC day of `ts`: the quotient by a day, rounded toward zero, times a
/// day (so a time before 1970 maps to the later boundary, as integer division does).
pub open spec fn day_start_spec(ts: i64) -> int {
    let day = SECS_PER_DAY as int;
    if ts >= 0 {
        (ts as int / day) * day
    } else {
        -(((-(ts as int)) / day) * day)
    }
}

pub fn day_start_utc(ts: i64) -> (r: i64)
    ensures
        r == day_start_spec(ts),
{
    let wide = ts as i128;
    if wide >= 0 {
        ((wide / 86400) * 86400) as i64
    } else {
        let pos: i128 = -wide;
        let q: i128 = pos / 86400;
        proof {
            assert(q * 86400 <= pos) by (nonlinear_arith)
                requires
                    q == pos / 86400,
                    pos > 0;
        }
        (-(q * 86400)) as i64
    }
}

/// At most this many snapshots are read for one selection.
pub const RETENTION_SCAN_LIMIT: u64 = 20000;
/// A preview lists at most this many kept snapshots.
pub const PREVIEW_KEEP_LIMIT: usize = 100;
/// A preview lists at most this many deleted snapshots.
pub const PREVIEW_DELETE_LIMIT: usize = 200;

/// A snapshot of the job as stored: its run, when it ended, whether it is pinned, its sizes.
#[derive(Debug)]
pub struct RetentionRow {
    pub run_id: String,
    pub ended_at: i64,
    pub pinned: bool,
    pub source_bytes: Option<u64>,
    pub transfer_bytes: Option<u64>,
}

/// One decision of a selection: the run, when it ended, and why.
#[derive(Debug)]
pub struct RetentionDecision {
    pub run_id: String,
    pub ended_at: i64,
    pub reasons: Vec<String>,
}

/// A line of a preview: the decision, with what the stored snapshot says of pinning and size.
#[derive(Debug)]
pub struct RetentionPreviewItem {
    pub run_id: String,
    pub ended_at: i64,
    pub pinned: bool,
    pub source_bytes: Option<u64>,
    pub transfer_bytes: Option<u64>,
    pub reasons: Vec<String>,
}

/// Whether more snapshots were read than a selection looks at (one more than the limit is
/// asked for, to tell).
pub fn scan_truncated(rows_read: usize) -> (r: bool)
    ensures
        r == (rows_read > RETENTION_SCAN_LIMIT),
{
    (rows_read as u64) > RETENTION_SCAN_LIMIT
}

/// The last stored snapshot of the run, if any (as a map filled in order keeps it).
pub open spec fn row_of(rows: Seq<RetentionRow>, run_id: Seq<char>) -> Option<RetentionRow>
    decreases rows.len(),
{
    if rows.len() == 0 {
        None
    } else if rows.last().run_id@ == run_id {
        Some(rows.last())
    } else {
        row_of(rows.drop_last(), run_id)
    }
}

/// The positions of the decisions that a preview lists: in order, those whose snapshot is
/// stored, until `limit` are listed.
pub open spec fn listed(decisions: Seq<RetentionDecision>, rows: Seq<RetentionRow>, limit: int, upto: int) -> Seq<int>
    decreases upto,
{
    if upto <= 0 {
        seq![]
    } else {
        let before = listed(decisions, rows, limit, upto - 1);
        if before.len() < limit && row_of(rows, decisions[upto - 1].run_id@) is Some {
            before.push(upto - 1)
        } else {
            before
        }
    }
}

pub open spec fn item_matches(item: RetentionPreviewItem, d: RetentionDecision, row: RetentionRow) -> bool {
    &&& item.run_id@ == d.run_id@
    &&& item.ended_at == d.ended_at
    &&& item.pinned == row.pinned
    &&& item.source_bytes == row.source_bytes
    &&& item.transfer_bytes == row.transfer_bytes
    &&& views(item.reasons@) == views(d.reasons@)
}

fn find_row(rows: &Vec<RetentionRow>, run_id: &str) -> (r: Option<usize>)
    ensures
        match r {
            Some(i) => i < rows.len() && row_of(rows@, run_id@) == Some(rows@[i as int]),
            None => row_of(rows@, run_id@) is None,
        },
{
    let mut i = rows.len();
    assert(rows@.take(i as int) =~= rows@);
    while i > 0
        invariant
            i <= rows.len(),
            row_of(rows@, run_id@) == row_of(rows@.take(i as int), run_id@),
        decreases i,
    {
        assert(rows@.take(i as int).drop_last() =~= rows@.take(i - 1));
        assert(rows@.take(i as int).last() == rows@[i - 1]);
        if str_eq(rows[i - 1].run_id.as_str(), run_id) {
            return Some(i - 1);
        }
        i = i - 1;
    }
    None
}

fn clone_strings(v: &Vec<String>) -> (r: Vec<String>)
    ensures
        views(r@) == views(v@),
{
    let mut out: Vec<String> = Vec::new();
    let mut i: usize = 0;
    while i < v.len()
        invariant
            i <= v.len(),
            out@.len() == i,
            views(out@) == views(v@.take(i as int)),
        decreases v.len() - i,
    {
        let ghost before = out@;
        let c = v[i].clone();
        out.push(c);
        assert forall|k: int| 0 <= k < i + 1 implies #[trigger] views(out@)[k] == views(v@.take(i + 1))[k] by {
            if k < i {
                assert(out@[k] == before[k]);
                assert(views(before)[k] == views(v@.take(i as int))[k]);
            }
        }
        assert(views(out@) =~= views(v@.take(i + 1)));
        i = i + 1;
    }
    assert(v@.take(v.len() as int) =~= v@);
    out
}

/// The lines of a preview for one side of a selection: the decisions in order whose snapshot
/// is stored, at most `limit` of them.
pub fn preview_items(decisions: &Vec<RetentionDecision>, rows: &Vec<RetentionRow>, limit: usize) -> (r: Vec<RetentionPreviewItem>)
    ensures
        r@.len() == listed(decisions@, rows@, limit as int, decisions@.len() as int).len(),
        r@.len() <= limit,
        forall|k: int| 0 <= k < r@.len() ==> {
            let i = #[trigger] listed(decisions@, rows@, limit as int, decisions@.len() as int)[k];
            &&& 0 <= i < decisions@.len()
            &&& row_of(rows@, decisions@[i].run_id@) matches Some(row) && item_matches(r@[k], decisions@[i], row)
        },
{
    let mut out: Vec<RetentionPreviewItem> = Vec::new();
    let mut i: usize = 0;
    while i < decisions.len()
        invariant
            i <= decisions.len(),
            out@.len() == listed(decisions@, rows@, limit as int, i as int).len(),
            out@.len() <= limit,
            forall|j: int| 0 <= j < listed(decisions@, rows@, limit as int, i as int).len()
                ==> 0 <= #[trigger] listed(decisions@, rows@, limit as int, i as int)[j] < i,
            forall|k: int| 0 <= k < out@.len() ==> {
                let d = #[trigger] listed(decisions@, rows@, limit as int, i as int)[k];
                row_of(rows@, decisions@[d].run_id@) matches Some(row) && item_matches(out@[k], decisions@[d], row)
            },
        decreases decisions.len() - i,
    {
        let ghost before = listed(decisions@, rows@, limit as int, i as int);
        if out.len() >= limit {
            assert(listed(decisions@, rows@, limit as int, i + 1) == before);
            i = i + 1;
            continue;
        }
        let d = &decisions[i];
        match find_row(rows, d.run_id.as_str()) {
            Some(j) => {
                let row = &rows[j];
                let item = RetentionPreviewItem {
                    run_id: d.run_id.clone(),
                    ended_at: d.ended_at,
                    pinned: row.pinned,
                    source_bytes: row.source_bytes,
                    transfer_bytes: row.transfer_bytes,
                    reasons: clone_strings(&d.reasons),
                };
                out.push(item);
                proof {
                    let after = listed(decisions@, rows@, limit as int, i + 1);
                    assert(after == before.push(i as int));
                    assert forall|k: int| 0 <= k < out@.len() implies {
                        let dd = #[trigger] after[k];
                        row_of(rows@, decisions@[dd].run_id@) matches Some(rw) && item_matches(out@[k], decisions@[dd], rw)
                    } by {
                        if k < before.len() {
                            assert(after[k] == before[k]);
                        }
                    }
                    assert forall|jj: int| 0 <= jj < after.len() implies 0 <= #[trigger] after[jj] < i + 1 by {
                        if jj < before.len() {
                            assert(after[jj] == before[jj]);
                        }
                    }
                }
            },
            None => {
                assert(listed(decisions@, rows@, limit as int, i + 1) == before);
            },
        }
        i = i + 1;
    }
    out
}

/// Whether the preview lists fewer decisions than the selection made.
pub fn result_truncated(keep_total: usize, keep_listed: usize, delete_total: usize, delete_listed: usize) -> (r: bool)
    ensures
        r == (keep_total > keep_listed || delete_total > delete_listed),
{
    keep_total > keep_listed || delete_total > delete_listed
}

/// Retention must be enabled to be applied.
pub fn require_retention_enabled(enabled: bool) -> (r: Result<(), AppError>)
    ensures
        enabled ==> r is Ok,
        !enabled ==> r is Err && plain_error(r->Err_0, STATUS_BAD_REQUEST, "retention_disabled"@, "Retention is disabled"@),
{
    if !enabled {
        return Err(AppError::bad_request("retention_disabled", "Retention is disabled"));
    }
    Ok(())
}

/// How many deletions this application may queue: the per-run limit, and what is left of the
/// daily limit after those queued since the day began (counted up to `u32::MAX`).
pub fn delete_budget(max_per_tick: u32, max_per_day: u32, queued_today: u64) -> (r: u32)
    ensures
        ({
            let already: int = if queued_today > u32::MAX { u32::MAX as int } else { queued_today as int };
            let left: int = if max_per_day >= already { max_per_day - already } else { 0 };
            r == (if max_per_tick <= left { max_per_tick as int } else { left })
        }),
{
    let already: u32 = if queued_today > u32::MAX as u64 { u32::MAX } else { queued_today as u32 };
    let left: u32 = if max_per_day >= already { max_per_day - already } else { 0 };
    if max_per_tick <= left { max_per_tick } else { left }
}

/// Of the selected deletions, how many are tried (the first ones) and how many are skipped
/// for the limits.
pub fn split_deletions(selected: usize, allowed: usize) -> (r: (usize, u64))
    ensures
        r.0 == (if selected <= allowed { selected } else { allowed }),
        r.1 == (if selected > allowed { selected - allowed } else { 0 }),
{
    if selected <= allowed {
        (selected, 0)
    } else {
        (allowed, (selected - allowed) as u64)
    }
}

/// A snapshot already deleted or missing needs no deletion.
pub fn snapshot_already_gone(status: &str) -> (r: bool)
    ensures
        r == (status@ == "deleted"@ || status@ == "missing"@),
{
    str_eq(status, "deleted") || str_eq(status, "missing")
}

} // verus!
