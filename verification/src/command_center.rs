//! The command center: what needs attention, recent critical activity, a watchlist, and
//! recovery readiness, assembled from rows that the caller loaded.
use vstd::prelude::*;
use crate::error::{AppError, STATUS_BAD_REQUEST};
use crate::json::{JsonValue, is_str, object_entries};
use crate::list_paging::opt_str_view;
use crate::text::{trim, trim_str, str_eq, owned, has_prefix, has_infix, contains, starts_with};
use crate::urlenc::{query_string, query_spec};

verus! {

#[derive(Clone, Copy, Debug, PartialEq, Eq, Structural)]
pub enum SectionState {
    Ready,
    Empty,
    Degraded,
}

#[derive(Clone, Copy, Debug, PartialEq, Eq, Structural)]
pub enum Severity {
    Critical,
    Warning,
    Info,
}

#[derive(Clone, Copy, Debug, PartialEq, Eq, Structural)]
pub enum ReadinessOverall {
    Healthy,
    Degraded,
    Empty,
}

#[derive(Debug)]
pub enum RequestedScope {
    All,
    Hub,
    Agent(String),
}

/// A time range ending now.
#[derive(Debug)]
pub struct ResolvedRange {
    pub preset: String,
    pub from: i64,
    pub to: i64,
}

/// Which agent a scope shows: everything, the Hub's own jobs, or one agent's.
pub open spec fn scope_includes(scope: RequestedScope, agent_id: Option<Seq<char>>) -> bool {
    match scope {
        RequestedScope::All => true,
        RequestedScope::Hub => agent_id is None,
        RequestedScope::Agent(a) => agent_id == Some(a@),
    }
}

/// The text a scope is written as.
pub open spec fn scope_text(scope: RequestedScope) -> Seq<char> {
    match scope {
        RequestedScope::All => "all"@,
        RequestedScope::Hub => "hub"@,
        RequestedScope::Agent(a) => "agent:"@ + a@,
    }
}

/// The scope a query asks for: blank or `all`, `hub`, or `agent:<id>` with a non-blank id.
pub open spec fn parse_scope_spec(raw: Option<Seq<char>>) -> Option<Option<Seq<char>>> {
    match raw {
        None => Some(None),
        Some(r) => {
            let t = trim(r);
            if t.len() == 0 || t == "all"@ {
                Some(None)
            } else if t == "hub"@ {
                Some(Some(Seq::empty()))
            } else if has_prefix(t, "agent:"@) && trim(t.skip(6)).len() > 0 {
                Some(Some(trim(t.skip(6))))
            } else {
                None
            }
        },
    }
}

/// A 400 with the given code and message whose details are exactly
/// `{"reason": reason, "field": field}`, and no debug details.
pub open spec fn is_field_error(e: AppError, code: Seq<char>, message: Seq<char>, reason: Seq<char>, field: Seq<char>) -> bool {
    &&& e.status == STATUS_BAD_REQUEST && e.code@ == code && e.message@ == message
    &&& e.debug_details is None
    &&& e.details matches Some(JsonValue::Object(es))
    &&& es@.len() == 2
    &&& es@[0].0@ == "reason"@ && is_str(es@[0].1, reason)
    &&& es@[1].0@ == "field"@ && is_str(es@[1].1, field)
}

/// A 400 with `details.reason` and `details.field`.
pub fn field_error(code: &str, message: &str, reason: &str, field: &str) -> (r: AppError)
    ensures
        is_field_error(r, code@, message@, reason@, field@),
{
    let e = AppError::bad_request(code, message).with_reason(reason);
    let r = e.with_field(field);
    proof {
        let es = object_entries(r.details);
        assert(es == object_entries(e.details).push(es.last()));
        assert(object_entries(e.details).len() == 1);
        assert(es[0] == object_entries(e.details)[0]);
    }
    r
}

impl RequestedScope {
    /// Reads the `scope` query value: blank or `all` means all, `hub` the Hub, and
    /// `agent:<id>` one agent; anything else is refused.
    pub fn parse(raw: Option<&str>) -> (r: Result<RequestedScope, AppError>)
        ensures
            match parse_scope_spec(opt_str_view(raw)) {
                None => r is Err && is_field_error(r->Err_0, "invalid_scope"@, "invalid scope"@, "unsupported_value"@, "scope"@),
                Some(None) => r matches Ok(RequestedScope::All),
                Some(Some(a)) => if a.len() == 0 {
                    r matches Ok(RequestedScope::Hub)
                } else {
                    r matches Ok(RequestedScope::Agent(id)) && id@ == a
                },
            },
    {
        proof {
            reveal_strlit("agent:");
            reveal_strlit("hub");
        }
        let t = match raw {
            Some(s) => trim_str(s),
            None => {
                return Ok(RequestedScope::All);
            },
        };
        if t.unicode_len() == 0 || str_eq(t, "all") {
            return Ok(RequestedScope::All);
        }
        if str_eq(t, "hub") {
            return Ok(RequestedScope::Hub);
        }
        if starts_with(t, "agent:") {
            let rest = t.substring_char(6, t.unicode_len());
            let id = trim_str(rest);
            if id.unicode_len() > 0 {
                assert(rest@ =~= t@.skip(6));
                return Ok(RequestedScope::Agent(owned(id)));
            }
            assert(rest@ =~= t@.skip(6));
        }
        Err(field_error("invalid_scope", "invalid scope", "unsupported_value", "scope"))
    }

    pub fn as_str(&self) -> (r: String)
        ensures
            r@ == scope_text(*self),
    {
        match self {
            RequestedScope::All => owned("all"),
            RequestedScope::Hub => owned("hub"),
            RequestedScope::Agent(a) => owned("agent:").concat(a.as_str()),
        }
    }

    pub fn includes_agent(&self, agent_id: Option<&str>) -> (r: bool)
        ensures
            r == scope_includes(*self, opt_str_view(agent_id)),
    {
        match self {
            RequestedScope::All => true,
            RequestedScope::Hub => agent_id.is_none(),
            RequestedScope::Agent(expected) => match agent_id {
                Some(a) => str_eq(a, expected.as_str()),
                None => false,
            },
        }
    }
}

/// `a - b`, held at `i64::MIN`.
pub open spec fn saturating_sub_spec(a: i64, b: i64) -> i64 {
    if a - b < i64::MIN {
        i64::MIN
    } else if a - b > i64::MAX {
        i64::MAX
    } else {
        (a - b) as i64
    }
}

pub fn saturating_sub_i64(a: i64, b: i64) -> (r: i64)
    ensures
        r == saturating_sub_spec(a, b),
{
    if b > 0 && a < i64::MIN + b {
        i64::MIN
    } else if b < 0 && a > i64::MAX + b {
        i64::MAX
    } else {
        a - b
    }
}

/// The known range presets and their lengths in seconds.
pub open spec fn range_seconds(preset: Seq<char>) -> Option<i64> {
    if preset == "24h"@ {
        Some(86400)
    } else if preset == "7d"@ {
        Some(604800)
    } else if preset == "30d"@ {
        Some(2592000)
    } else {
        None
    }
}

/// The preset a query asks for: `24h` when blank.
pub open spec fn range_preset(raw: Option<Seq<char>>) -> Seq<char> {
    match raw {
        Some(r) => if trim(r).len() == 0 {
            "24h"@
        } else {
            trim(r)
        },
        None => "24h"@,
    }
}

impl ResolvedRange {
    /// Reads the `range` query value (`24h` when blank; `7d` and `30d` too) as the range
    /// ending at `now_ts`.
    pub fn parse(raw: Option<&str>, now_ts: i64) -> (r: Result<ResolvedRange, AppError>)
        ensures
            match range_seconds(range_preset(opt_str_view(raw))) {
                Some(secs) => r matches Ok(rr) && rr.preset@ == range_preset(opt_str_view(raw))
                    && rr.from == saturating_sub_spec(now_ts, secs) && rr.to == now_ts,
                None => r is Err && is_field_error(r->Err_0, "invalid_range"@, "invalid range"@, "unsupported_value"@, "range"@),
            },
    {
        let preset: &str = match raw {
            Some(s) => {
                let t = trim_str(s);
                if t.unicode_len() == 0 {
                    "24h"
                } else {
                    t
                }
            },
            None => "24h",
        };
        let seconds: i64 = if str_eq(preset, "24h") {
            86400
        } else if str_eq(preset, "7d") {
            604800
        } else if str_eq(preset, "30d") {
            2592000
        } else {
            return Err(field_error("invalid_range", "invalid range", "unsupported_value", "range"));
        };
        Ok(ResolvedRange { preset: owned(preset), from: saturating_sub_i64(now_ts, seconds), to: now_ts })
    }
}

pub open spec fn severity_rank_spec(s: Severity) -> u8 {
    match s {
        Severity::Critical => 0,
        Severity::Warning => 1,
        Severity::Info => 2,
    }
}

pub fn severity_rank(s: Severity) -> (r: u8)
    ensures
        r == severity_rank_spec(s),
{
    match s {
        Severity::Critical => 0,
        Severity::Warning => 1,
        Severity::Info => 2,
    }
}

/// Failures first, then rejections and cancellations, then running work, then verify and
/// restore activity, then the rest.
pub open spec fn activity_rank_spec(kind: Seq<char>) -> u8 {
    if has_infix(kind, "failed"@) {
        0
    } else if has_infix(kind, "rejected"@) || has_infix(kind, "canceled"@) {
        1
    } else if has_infix(kind, "running"@) {
        2
    } else if has_infix(kind, "verify"@) || has_infix(kind, "restore"@) {
        3
    } else {
        4
    }
}

pub fn activity_rank(kind: &str) -> (r: u8)
    ensures
        r == activity_rank_spec(kind@),
{
    if contains(kind, "failed") {
        return 0;
    }
    if contains(kind, "rejected") || contains(kind, "canceled") {
        return 1;
    }
    if contains(kind, "running") {
        return 2;
    }
    if contains(kind, "verify") || contains(kind, "restore") {
        return 3;
    }
    4
}

/// `agent:<id>` for an agent's job, `hub` for the Hub's.
pub open spec fn job_scope_spec(agent_id: Option<Seq<char>>) -> Seq<char> {
    match agent_id {
        Some(a) => "agent:"@ + a,
        None => "hub"@,
    }
}

pub fn job_scope_string(agent_id: Option<&str>) -> (r: String)
    ensures
        r@ == job_scope_spec(opt_str_view(agent_id)),
{
    match agent_id {
        Some(a) => owned("agent:").concat(a),
        None => owned("hub"),
    }
}

pub open spec fn node_id_spec(agent_id: Option<Seq<char>>) -> Seq<char> {
    match agent_id {
        Some(a) => a,
        None => "hub"@,
    }
}

pub fn node_id_for_agent(agent_id: Option<&str>) -> (r: String)
    ensures
        r@ == node_id_spec(opt_str_view(agent_id)),
{
    match agent_id {
        Some(a) => owned(a),
        None => owned("hub"),
    }
}

/// `Hub` for the Hub; an agent's name when it is not blank, else its id.
pub open spec fn node_name_spec(agent_id: Option<Seq<char>>, agent_name: Option<Seq<char>>) -> Seq<char> {
    match agent_id {
        None => "Hub"@,
        Some(a) => match agent_name {
            Some(n) => if trim(n).len() > 0 {
                n
            } else {
                a
            },
            None => a,
        },
    }
}

pub fn node_name_for_agent(agent_id: Option<&str>, agent_name: Option<&str>) -> (r: Option<String>)
    ensures
        r matches Some(s) && s@ == node_name_spec(opt_str_view(agent_id), opt_str_view(agent_name)),
{
    match agent_id {
        None => Some(owned("Hub")),
        Some(a) => match agent_name {
            Some(n) => {
                if trim_str(n).unicode_len() > 0 {
                    Some(owned(n))
                } else {
                    Some(owned(a))
                }
            },
            None => Some(owned(a)),
        },
    }
}

pub open spec fn scope_label_spec(agent_id: Option<Seq<char>>) -> Seq<char> {
    if agent_id is Some {
        "Agent"@
    } else {
        "Hub"@
    }
}

pub fn scope_label_from_agent(agent_id: Option<&str>) -> (r: &'static str)
    ensures
        r@ == scope_label_spec(opt_str_view(agent_id)),
{
    if agent_id.is_some() {
        "Agent"
    } else {
        "Hub"
    }
}

/// `?<key>=<value>`, form-encoded.
pub open spec fn one_param(key: Seq<char>, value: Seq<char>) -> Seq<char> {
    query_spec(seq![(key, value)])
}

fn one_param_query(key: &str, value: &str) -> (r: String)
    ensures
        r@ == one_param(key@, value@),
{
    let params = [(key, value)];
    let r = query_string(&params);
    assert(params@.map_values(|p: (&str, &str)| (p.0@, p.1@)) =~= seq![(key@, value@)]);
    r
}

pub open spec fn run_detail_href_spec(run_id: Seq<char>, scope: Seq<char>) -> Seq<char> {
    "/runs/"@ + run_id + "?"@ + one_param("from_scope"@, scope)
}

pub fn run_detail_href(run_id: &str, scope: &str) -> (r: String)
    ensures
        r@ == run_detail_href_spec(run_id@, scope@),
{
    let q = one_param_query("from_scope", scope);
    owned("/runs/").concat(run_id).concat("?").concat(q.as_str())
}

pub open spec fn jobs_scope_href_spec(scope: Seq<char>) -> Seq<char> {
    "/jobs?"@ + one_param("scope"@, scope)
}

pub fn jobs_scope_href(scope: &str) -> (r: String)
    ensures
        r@ == jobs_scope_href_spec(scope@),
{
    let q = one_param_query("scope", scope);
    owned("/jobs?").concat(q.as_str())
}

pub open spec fn runs_index_href_spec(scope: Seq<char>) -> Seq<char> {
    "/runs?"@ + one_param("scope"@, scope)
}

pub fn runs_index_href(scope: &str) -> (r: String)
    ensures
        r@ == runs_index_href_spec(scope@),
{
    let q = one_param_query("scope", scope);
    owned("/runs?").concat(q.as_str())
}

pub open spec fn fleet_href_spec(status: Seq<char>) -> Seq<char> {
    "/fleet?"@ + one_param("status"@, status)
}

pub fn fleet_href(status: &str) -> (r: String)
    ensures
        r@ == fleet_href_spec(status@),
{
    let q = one_param_query("status", status);
    owned("/fleet?").concat(q.as_str())
}

pub open spec fn notifications_queue_href_spec(status: Seq<char>) -> Seq<char> {
    "/integrations/notifications/queue?"@ + one_param("status"@, status)
}

pub fn notifications_queue_href(status: &str) -> (r: String)
    ensures
        r@ == notifications_queue_href_spec(status@),
{
    let q = one_param_query("status", status);
    owned("/integrations/notifications/queue?").concat(q.as_str())
}

pub open spec fn run_suffix_spec(status: Seq<char>) -> Seq<char> {
    if status == "failed"@ {
        "failed"@
    } else if status == "rejected"@ {
        "was rejected"@
    } else if status == "running"@ {
        "is running"@
    } else if status == "queued"@ {
        "is queued"@
    } else if status == "success"@ {
        "completed successfully"@
    } else if status == "canceled"@ {
        "was canceled"@
    } else {
        "changed state"@
    }
}

pub fn activity_suffix_for_run(status: &str) -> (r: &'static str)
    ensures
        r@ == run_suffix_spec(status@),
{
    if str_eq(status, "failed") {
        "failed"
    } else if str_eq(status, "rejected") {
        "was rejected"
    } else if str_eq(status, "running") {
        "is running"
    } else if str_eq(status, "queued") {
        "is queued"
    } else if str_eq(status, "success") {
        "completed successfully"
    } else if str_eq(status, "canceled") {
        "was canceled"
    } else {
        "changed state"
    }
}

pub open spec fn operation_suffix_spec(kind: Seq<char>, status: Seq<char>) -> Seq<char> {
    if kind == "verify"@ && status == "success"@ {
        "verification completed"@
    } else if kind == "verify"@ && status == "failed"@ {
        "verification failed"@
    } else if kind == "verify"@ && status == "running"@ {
        "verification is running"@
    } else if kind == "restore"@ && status == "success"@ {
        "restore completed"@
    } else if kind == "restore"@ && status == "failed"@ {
        "restore failed"@
    } else if kind == "restore"@ && status == "running"@ {
        "restore is running"@
    } else {
        kind + " "@ + status
    }
}

pub fn activity_suffix_for_operation(kind: &str, status: &str) -> (r: String)
    ensures
        r@ == operation_suffix_spec(kind@, status@),
{
    let verify = str_eq(kind, "verify");
    let restore = str_eq(kind, "restore");
    let success = str_eq(status, "success");
    let failed = str_eq(status, "failed");
    let running = str_eq(status, "running");
    if verify && success {
        owned("verification completed")
    } else if verify && failed {
        owned("verification failed")
    } else if verify && running {
        owned("verification is running")
    } else if restore && success {
        owned("restore completed")
    } else if restore && failed {
        owned("restore failed")
    } else if restore && running {
        owned("restore is running")
    } else {
        owned(kind).concat(" ").concat(status)
    }
}

} // verus!
