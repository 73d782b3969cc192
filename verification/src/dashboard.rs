//! The dashboard overview: agent counts, a seven-day trend of finished runs, and the most
//! recent runs with the node they ran on.
use vstd::prelude::*;
use crate::command_center::{saturating_sub_spec, saturating_sub_i64};
use crate::list_paging::opt_view;
use crate::text::{owned, str_eq};
use crate::numfmt::{decimal_int, i64_to_decimal};

verus! {

/// Agents that are active but not online count as offline (never below `i64::MIN`).
pub fn agents_offline(active: i64, online: i64) -> (r: i64)
    ensures
        r == saturating_sub_spec(active, online),
{
    saturating_sub_i64(active, online)
}

/// One day of the trend: finished runs that succeeded and that failed.
#[derive(Debug)]
pub struct DashboardTrendDay {
    pub day: String,
    pub success: i64,
    pub failed: i64,
}

/// The counts the per-day rows give a day: those of its last row, else none.
pub open spec fn day_counts(rows: Seq<(String, i64, i64)>, day: Seq<char>) -> (i64, i64)
    decreases rows.len(),
{
    if rows.len() == 0 {
        (0, 0)
    } else if rows.last().0@ == day {
        (rows.last().1, rows.last().2)
    } else {
        day_counts(rows.drop_last(), day)
    }
}

fn counts_for(rows: &Vec<(String, i64, i64)>, day: &str) -> (r: (i64, i64))
    ensures
        r == day_counts(rows@, day@),
{
    let mut i: usize = rows.len();
    assert(rows@.take(i as int) =~= rows@);
    while i > 0
        invariant
            i <= rows.len(),
            day_counts(rows@, day@) == day_counts(rows@.take(i as int), day@),
        decreases i,
    {
        let ghost pre = rows@.take(i as int);
        assert(pre.last() == rows@[i - 1]);
        if str_eq(rows[i - 1].0.as_str(), day) {
            return (rows[i - 1].1, rows[i - 1].2);
        }
        assert(pre.drop_last() =~= rows@.take(i - 1));
        i = i - 1;
    }
    (0, 0)
}

/// One entry per given day, in order, with that day's counts (zero for a day without runs).
pub fn fill_trend(days: &Vec<String>, rows: &Vec<(String, i64, i64)>) -> (r: Vec<DashboardTrendDay>)
    ensures
        r.len() == days.len(),
        forall|k: int| 0 <= k < days.len() ==> (#[trigger] r@[k]).day@ == days@[k]@
            && (r@[k].success, r@[k].failed) == day_counts(rows@, days@[k]@),
{
    let mut out: Vec<DashboardTrendDay> = Vec::new();
    let mut k: usize = 0;
    while k < days.len()
        invariant
            k <= days.len(),
            out.len() == k,
            forall|j: int| 0 <= j < k ==> (#[trigger] out@[j]).day@ == days@[j]@
                && (out@[j].success, out@[j].failed) == day_counts(rows@, days@[j]@),
        decreases days.len() - k,
    {
        let (success, failed) = counts_for(rows, days[k].as_str());
        out.push(DashboardTrendDay { day: days[k].clone(), success, failed });
        k = k + 1;
    }
    out
}

/// The node a run ran on: its job's agent with that agent's name, or the Hub.
pub fn recent_run_node(agent_id: Option<String>, agent_name: Option<String>) -> (r: (String, Option<String>))
    ensures
        match agent_id {
            None => r.0@ == "hub"@ && r.1 is None,
            Some(id) => r.0@ == id@ && opt_view(r.1) == opt_view(agent_name),
        },
{
    match agent_id {
        None => (owned("hub"), None),
        Some(id) => (id, agent_name),
    }
}

/// What `serde_json` reads at `key` of the object that `text` holds, when that is a boolean.
pub uninterp spec fn json_bool_at(text: Seq<char>, key: Seq<char>) -> Option<bool>;

/// Parses `text` with `serde_json` and reads the boolean at `key`; anything else (invalid
/// JSON, no object, no such key, not a boolean) is `None`. Which texts parse to what is not
/// spelled out here: the result is named `json_bool_at` of the text and key.
#[verifier::external_body]
fn read_json_bool(text: &str, key: &str) -> (r: Option<bool>)
    ensures
        r == json_bool_at(text@, key@),
{
    serde_json::from_str::<serde_json::Value>(text).ok().and_then(|v| v.get(key).and_then(|b| b.as_bool()))
}

/// The offline flag from what the summary holds at `executed_offline`: only `true` counts.
pub fn offline_flag(value: Option<bool>) -> (r: bool)
    ensures
        r == (value == Some(true)),
{
    match value {
        Some(b) => b,
        None => false,
    }
}

/// A run was executed offline when its summary says so.
pub fn executed_offline(summary_json: Option<&str>) -> (r: bool)
    ensures
        r == (match summary_json {
            Some(s) => json_bool_at(s@, "executed_offline"@) == Some(true),
            None => false,
        }),
{
    match summary_json {
        Some(s) => offline_flag(read_json_bool(s, "executed_offline")),
        None => false,
    }
}

/// The first second that the `time` crate can represent (year -9999 begins, UTC).
pub const UTC_MIN_TS: i64 = -377705116800;
/// The last second that the `time` crate can represent (year 9999 ends, UTC).
pub const UTC_MAX_TS: i64 = 253402300799;
/// Seconds in a day.
pub const DAY_SECS: i64 = 86400;

/// The UTC calendar date of a Unix timestamp as `time::Date`'s `Display` writes it.
pub uninterp spec fn utc_date_text(ts: i64) -> Seq<char>;

/// `time::OffsetDateTime::from_unix_timestamp(ts)`, its date written by `Display`
/// (year-month-day). The crate accepts exactly the timestamps of its years -9999 to 9999;
/// the text is named `utc_date_text` of the timestamp.
#[verifier::external_body]
fn utc_date_label(ts: i64) -> (r: Option<String>)
    ensures
        r is Some == (UTC_MIN_TS <= ts <= UTC_MAX_TS),
        r matches Some(s) ==> s@ == utc_date_text(ts),
{
    time::OffsetDateTime::from_unix_timestamp(ts).ok().map(|t| t.date().to_string())
}

/// The start of the UTC day holding `ts`.
pub open spec fn utc_midnight(ts: i64) -> int {
    ts - ts % 86400
}

/// The seven days that end today (UTC): when the first begins, and each day's date.
#[derive(Debug)]
pub struct TrendWindow {
    pub start_ts: i64,
    pub days: Vec<String>,
}

/// The trend window of the overview. `time` must be able to name every day from six days
/// ago through tomorrow (walking the days past today panics otherwise).
pub fn trend_window(now_ts: i64) -> (r: TrendWindow)
    requires
        UTC_MIN_TS + 6 * DAY_SECS <= now_ts,
        utc_midnight(now_ts) + DAY_SECS <= UTC_MAX_TS,
    ensures
        r.start_ts == utc_midnight(now_ts) - 6 * DAY_SECS,
        r.days@.len() == 7,
        forall|k: int| 0 <= k < 7 ==> (#[trigger] r.days@[k])@ == utc_date_text((r.start_ts + k * DAY_SECS) as i64),
{
    let rem: i64 = now_ts % DAY_SECS;
    let rem: i64 = if rem < 0 { rem + DAY_SECS } else { rem };
    assert(rem == now_ts % 86400);
    let start: i64 = now_ts - rem - 6 * DAY_SECS;
    let mut days: Vec<String> = Vec::new();
    let mut k: i64 = 0;
    while k < 7
        invariant
            0 <= k <= 7,
            start == utc_midnight(now_ts) - 6 * DAY_SECS,
            UTC_MIN_TS <= start,
            start + 7 * DAY_SECS <= UTC_MAX_TS + 1,
            days@.len() == k,
            forall|j: int| 0 <= j < k ==> (#[trigger] days@[j])@ == utc_date_text((start + j * DAY_SECS) as i64),
        decreases 7 - k,
    {
        let ts: i64 = start + k * DAY_SECS;
        let label = match utc_date_label(ts) {
            Some(s) => s,
            None => String::new(),
        };
        days.push(label);
        k = k + 1;
    }
    TrendWindow { start_ts: start, days }
}

/// The UTC date and time of a Unix timestamp as `time::OffsetDateTime`'s `Display` writes it.
pub uninterp spec fn utc_datetime_text(ts: i64) -> Seq<char>;

/// `time::OffsetDateTime::from_unix_timestamp(ts)` written by `Display`; accepted exactly for
/// the timestamps of years -9999 to 9999. The text is named `utc_datetime_text`.
#[verifier::external_body]
fn utc_datetime_label(ts: i64) -> (r: Option<String>)
    ensures
        r is Some == (UTC_MIN_TS <= ts <= UTC_MAX_TS),
        r matches Some(s) ==> s@ == utc_datetime_text(ts),
{
    time::OffsetDateTime::from_unix_timestamp(ts).ok().map(|t| t.to_string())
}

/// When a test notification says it was sent: the UTC date and time, or the bare timestamp
/// when `time` cannot name it.
pub fn notification_time_text(now: i64) -> (r: String)
    ensures
        UTC_MIN_TS <= now <= UTC_MAX_TS ==> r@ == utc_datetime_text(now),
        !(UTC_MIN_TS <= now <= UTC_MAX_TS) ==> r@ == decimal_int(now as int),
{
    match utc_datetime_label(now) {
        Some(s) => s,
        None => i64_to_decimal(now),
    }
}

} // verus!
