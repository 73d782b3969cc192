//! What a run list shows of a filesystem run's source consistency and issues, read from its
//! summary or, without one, from its latest consistency event.
use vstd::prelude::*;
use crate::json::{JsonValue, lookup, object_entries, last_index_of, lemma_lookup_last_index, lemma_lookup_absent};

verus! {

/// A JSON number read as an unsigned count.
pub open spec fn as_count(v: Option<JsonValue>) -> Option<u64> {
    match v {
        Some(JsonValue::UInt(u)) => Some(u),
        Some(JsonValue::Int(i)) => if i >= 0 { Some(i as u64) } else { None },
        _ => None,
    }
}

/// The count under `key`, zero when absent or not a count.
pub open spec fn count_at(entries: Seq<(String, JsonValue)>, key: Seq<char>) -> u64 {
    match as_count(lookup(entries, key)) {
        Some(n) => n,
        None => 0,
    }
}

pub open spec fn sat_add(a: u64, b: u64) -> u64 {
    if a + b > u64::MAX { u64::MAX } else { (a + b) as u64 }
}

/// The totals of a consistency report: every difference seen, and those that signal a problem
/// (replaced, deleted or unreadable files; a changed file alone does not).
pub open spec fn consistency_totals(report: Seq<(String, JsonValue)>) -> (u64, u64) {
    let changed = count_at(report, "changed_total"@);
    let replaced = count_at(report, "replaced_total"@);
    let deleted = count_at(report, "deleted_total"@);
    let read_error = count_at(report, "read_error_total"@);
    let signal = sat_add(sat_add(replaced, deleted), read_error);
    (sat_add(changed, signal), signal)
}

/// The filesystem part of a run summary, if the summary has one.
pub open spec fn filesystem_part(summary: Option<JsonValue>) -> Option<JsonValue> {
    lookup(object_entries(summary), "filesystem"@)
}

/// The consistency report of a run: the summary's, else the latest consistency event's.
pub open spec fn consistency_report(summary: Option<JsonValue>, event_fields: Option<JsonValue>) -> Option<JsonValue> {
    match lookup(object_entries(filesystem_part(summary)), "consistency"@) {
        Some(JsonValue::Object(e)) => Some(JsonValue::Object(e)),
        _ => match event_fields {
            Some(JsonValue::Object(e)) => Some(JsonValue::Object(e)),
            _ => None,
        },
    }
}

/// The digests of a run as its list shows them.
#[derive(Debug, Clone, Copy, PartialEq, Eq, Structural)]
pub struct RunDigests {
    pub consistency_total: u64,
    pub consistency_signal_total: u64,
    pub issues_warnings_total: u64,
    pub issues_errors_total: u64,
}

pub open spec fn run_digests_spec(summary: Option<JsonValue>, event_fields: Option<JsonValue>) -> RunDigests {
    let totals = consistency_totals(object_entries(consistency_report(summary, event_fields)));
    let fs = object_entries(filesystem_part(summary));
    RunDigests {
        consistency_total: totals.0,
        consistency_signal_total: totals.1,
        issues_warnings_total: count_at(fs, "warnings_total"@),
        issues_errors_total: count_at(fs, "errors_total"@),
    }
}

fn lookup_in<'a>(entries: &'a Vec<(String, JsonValue)>, key: &str) -> (r: Option<&'a JsonValue>)
    ensures
        match r {
            Some(v) => lookup(entries@, key@) == Some(*v),
            None => lookup(entries@, key@) is None,
        },
{
    match last_index_of(entries, key) {
        Some(i) => {
            proof {
                lemma_lookup_last_index(entries@, i as int, key@);
            }
            Some(&entries[i].1)
        },
        None => {
            proof {
                lemma_lookup_absent(entries@, key@);
            }
            None
        },
    }
}

fn count_in(entries: &Vec<(String, JsonValue)>, key: &str) -> (r: u64)
    ensures
        r == count_at(entries@, key@),
{
    match lookup_in(entries, key) {
        Some(JsonValue::UInt(u)) => *u,
        Some(JsonValue::Int(i)) => if *i >= 0 { *i as u64 } else { 0 },
        _ => 0,
    }
}

fn add_sat(a: u64, b: u64) -> (r: u64)
    ensures
        r == sat_add(a, b),
{
    if a > u64::MAX - b { u64::MAX } else { a + b }
}

fn totals_of(report: &Vec<(String, JsonValue)>) -> (r: (u64, u64))
    ensures
        r == consistency_totals(report@),
{
    let changed = count_in(report, "changed_total");
    let replaced = count_in(report, "replaced_total");
    let deleted = count_in(report, "deleted_total");
    let read_error = count_in(report, "read_error_total");
    let signal = add_sat(add_sat(replaced, deleted), read_error);
    (add_sat(changed, signal), signal)
}

pub open spec fn json_ref_opt(v: Option<&JsonValue>) -> Option<JsonValue> {
    match v {
        Some(j) => Some(*j),
        None => None,
    }
}

/// The digests of a run from its summary and the fields of its latest consistency event.
pub fn run_digests(summary: Option<&JsonValue>, event_fields: Option<&JsonValue>) -> (r: RunDigests)
    ensures
        r == run_digests_spec(json_ref_opt(summary), json_ref_opt(event_fields)),
{
    let empty: Vec<(String, JsonValue)> = Vec::new();
    let fs: &Vec<(String, JsonValue)> = match summary {
        Some(JsonValue::Object(entries)) => match lookup_in(entries, "filesystem") {
            Some(JsonValue::Object(fe)) => fe,
            _ => &empty,
        },
        _ => &empty,
    };
    let from_summary: Option<&Vec<(String, JsonValue)>> = match lookup_in(fs, "consistency") {
        Some(JsonValue::Object(c)) => Some(c),
        _ => None,
    };
    let report: &Vec<(String, JsonValue)> = match from_summary {
        Some(c) => c,
        None => match event_fields {
            Some(JsonValue::Object(e)) => e,
            _ => &empty,
        },
    };
    let (total, signal) = totals_of(report);
    RunDigests {
        consistency_total: total,
        consistency_signal_total: signal,
        issues_warnings_total: count_in(fs, "warnings_total"),
        issues_errors_total: count_in(fs, "errors_total"),
    }
}

} // verus!
