//! The fields a failure event of the agent socket carries: the plain fields, and the
//! structured error envelope that goes with them.
//!
//! The envelope is held here as plain values. In an event it stands under the key
//! `error_envelope`, in the JSON form that the protocol crate's envelope type writes; that
//! writing is the protocol crate's and is not done here.
use vstd::prelude::*;
use crate::agent_ws::{
    delete_hint_spec, error_code_spec, normalize_error_code, snapshot_delete_hint_text, task_hint_spec,
    task_result_hint_text, task_result_is_retriable,
};
use crate::json::{JsonValue, is_str, json_str, lookup, object_entries, take_entry};
use crate::text::{owned, str_eq, trim, trim_str};

verus! {

/// A structured error envelope, as plain values.
#[derive(Debug)]
pub struct ErrorEnvelope {
    /// The envelope's key, such as `agent.task_result.network`.
    pub key: String,
    /// The error kind.
    pub kind: String,
    /// Whether retrying can help, why, and after how many seconds.
    pub retriable: bool,
    pub retriable_reason: Option<String>,
    pub retry_after_sec: Option<u64>,
    /// Keys of the localized hint and message texts.
    pub hint_key: String,
    pub message_key: String,
    /// The transport the failure came over.
    pub transport_protocol: String,
    /// Where the failure arose: the three parts of the envelope's origin, in order.
    pub origin: (String, String, String),
    pub stage: String,
    pub context: JsonValue,
    pub debug: Option<JsonValue>,
}

/// The plain fields of a failure event, and its envelope.
#[derive(Debug)]
pub struct FailureFields {
    pub fields: Vec<(String, JsonValue)>,
    pub envelope: ErrorEnvelope,
}

/// `e` is the entry `key: "value"`.
pub open spec fn is_str_entry(e: (String, JsonValue), key: Seq<char>, value: Seq<char>) -> bool {
    e.0@ == key && is_str(e.1, value)
}

/// The text of `s` when it is not blank.
pub open spec fn non_blank(s: Option<Seq<char>>) -> Option<Seq<char>> {
    match s {
        Some(t) => if trim(t).len() > 0 { Some(t) } else { None },
        None => None,
    }
}

/// The summary's `error_code` when it is a string.
pub open spec fn summary_code_text(summary: Option<JsonValue>) -> Option<Seq<char>> {
    match lookup(object_entries(summary), "error_code"@) {
        Some(JsonValue::Str(c)) => Some(c@),
        _ => None,
    }
}

/// The normalized code of a failed task: from the summary's `error_code` string, else from
/// the error text.
pub open spec fn task_failure_code(summary: Option<JsonValue>, error: Option<Seq<char>>) -> Seq<char> {
    error_code_spec(
        match summary_code_text(summary) {
            Some(c) => Some(c),
            None => error,
        },
    )
}

pub open spec fn is_retriable_code(code: Seq<char>) -> bool {
    code == "network"@ || code == "timeout"@ || code == "rate_limited"@ || code == "upstream_unavailable"@
}

/// The fields of a failed task: `agent_id`, `error_kind` (the normalized code), `hint`,
/// then `error` when the error text is not blank and `error_code` when the summary's code
/// is a string that is not blank.
pub open spec fn is_task_failure_entries(
    es: Seq<(String, JsonValue)>,
    agent_id: Seq<char>,
    code: Seq<char>,
    error: Option<Seq<char>>,
    summary_code: Option<Seq<char>>,
) -> bool {
    let n_err: int = if non_blank(error) is Some { 1 } else { 0 };
    let n_code: int = if non_blank(summary_code) is Some { 1 } else { 0 };
    &&& es.len() == 3 + n_err + n_code
    &&& is_str_entry(es[0], "agent_id"@, agent_id)
    &&& is_str_entry(es[1], "error_kind"@, code)
    &&& is_str_entry(es[2], "hint"@, task_hint_spec(code))
    &&& (non_blank(error) matches Some(t) ==> is_str_entry(es[3], "error"@, t))
    &&& (non_blank(summary_code) matches Some(c) ==> is_str_entry(es[3 + n_err], "error_code"@, c))
}

/// The context of a failed task: `agent_id`, `task_id`, `run_id`, and the summary's
/// `error_code` value as it is (null when there is none).
pub open spec fn is_task_failure_context(
    v: JsonValue,
    agent_id: Seq<char>,
    task_id: Seq<char>,
    run_id: Seq<char>,
    code_value: Option<JsonValue>,
) -> bool {
    &&& v matches JsonValue::Object(cs)
    &&& cs@.len() == 4
    &&& is_str_entry(cs@[0], "agent_id"@, agent_id)
    &&& is_str_entry(cs@[1], "task_id"@, task_id)
    &&& is_str_entry(cs@[2], "run_id"@, run_id)
    &&& cs@[3].0@ == "error_code"@
    &&& cs@[3].1 == match code_value {
        Some(c) => c,
        None => JsonValue::Null,
    }
}

/// `v` is exactly `{"error": text}`.
pub open spec fn is_error_debug(v: JsonValue, text: Seq<char>) -> bool {
    v matches JsonValue::Object(ds) && ds@.len() == 1 && is_str_entry(ds@[0], "error"@, text)
}

fn push_str_entry(es: &mut Vec<(String, JsonValue)>, key: &str, value: &str)
    ensures
        final(es)@ == old(es)@.push(final(es)@.last()),
        is_str_entry(final(es)@.last(), key@, value@),
{
    es.push((owned(key), json_str(value)));
}

fn error_debug(text: &str) -> (r: JsonValue)
    ensures
        is_error_debug(r, text@),
{
    let mut ds: Vec<(String, JsonValue)> = Vec::new();
    push_str_entry(&mut ds, "error", text);
    JsonValue::Object(ds)
}

/// The text of `s` when it is not blank.
fn non_blank_str(s: Option<&str>) -> (r: Option<&str>)
    ensures
        match r {
            Some(t) => non_blank(match s { Some(v) => Some(v@), None => None }) == Some(t@),
            None => non_blank(match s { Some(v) => Some(v@), None => None }) is None,
        },
{
    match s {
        Some(t) => if trim_str(t).unicode_len() > 0 {
            Some(t)
        } else {
            None
        },
        None => None,
    }
}

/// The fields of a failed task result (see `is_task_failure_entries`) and its envelope: key
/// `agent.task_result.<code>`, kind the code, retriable (for the code as reason) exactly for
/// transient codes, the task-failure hint and message keys, transport `agent_ws`, origin
/// `agent`/`ws`/`task_result`, stage `finalize`, the context of `is_task_failure_context`, and
/// the error text as debug when it is not blank.
pub fn agent_task_result_failure_fields(
    agent_id: &str,
    task_id: &str,
    run_id: &str,
    summary: Option<JsonValue>,
    error: Option<&str>,
) -> (r: FailureFields)
    ensures
        ({
            let err = match error { Some(e) => Some(e@), None => None };
            let code = task_failure_code(summary, err);
            let env = r.envelope;
            &&& is_task_failure_entries(r.fields@, agent_id@, code, err, summary_code_text(summary))
            &&& env.key@ == "agent.task_result."@ + code
            &&& env.kind@ == code
            &&& env.retriable == is_retriable_code(code)
            &&& (match env.retriable_reason {
                Some(t) => env.retriable && t@ == code,
                None => !env.retriable,
            })
            &&& env.retry_after_sec is None
            &&& env.hint_key@ == "diagnostics.hint.agent.task_result_failed"@
            &&& env.message_key@ == "diagnostics.message.agent.task_result_failed"@
            &&& env.transport_protocol@ == "agent_ws"@
            &&& env.origin.0@ == "agent"@ && env.origin.1@ == "ws"@ && env.origin.2@ == "task_result"@
            &&& env.stage@ == "finalize"@
            &&& is_task_failure_context(env.context, agent_id@, task_id@, run_id@, lookup(object_entries(summary), "error_code"@))
            &&& (match non_blank(err) {
                Some(t) => env.debug matches Some(d) && is_error_debug(d, t),
                None => env.debug is None,
            })
        }),
{
    let ghost err = match error { Some(e) => Some(e@), None => None };
    let mut summary_entries: Vec<(String, JsonValue)> = match summary {
        Some(JsonValue::Object(e)) => e,
        _ => Vec::new(),
    };
    let code_value = take_entry(&mut summary_entries, "error_code");
    let code_text: Option<String> = match &code_value {
        Some(JsonValue::Str(c)) => Some(c.clone()),
        _ => None,
    };
    let code_in: Option<&str> = match &code_text {
        Some(c) => Some(c.as_str()),
        None => error,
    };
    let code = normalize_error_code(code_in);
    assert(code@ == task_failure_code(summary, err));

    let mut fields: Vec<(String, JsonValue)> = Vec::new();
    push_str_entry(&mut fields, "agent_id", agent_id);
    push_str_entry(&mut fields, "error_kind", code.as_str());
    push_str_entry(&mut fields, "hint", task_result_hint_text(code.as_str()));
    let ghost base = fields@;
    let error_text = non_blank_str(error);
    match error_text {
        Some(t) => push_str_entry(&mut fields, "error", t),
        None => {},
    }
    let ghost with_error = fields@;
    let summary_code = non_blank_str(match &code_text {
        Some(c) => Some(c.as_str()),
        None => None,
    });
    match summary_code {
        Some(c) => push_str_entry(&mut fields, "error_code", c),
        None => {},
    }
    proof {
        assert(base.len() == 3);
        assert(fields@[0] == base[0] && fields@[1] == base[1] && fields@[2] == base[2]);
        if error_text is Some {
            assert(fields@[3] == with_error[3]);
        }
    }

    let retriable = task_result_is_retriable(code.as_str());
    let retriable_reason = if retriable {
        Some(code.clone())
    } else {
        None
    };
    let mut context: Vec<(String, JsonValue)> = Vec::new();
    push_str_entry(&mut context, "agent_id", agent_id);
    push_str_entry(&mut context, "task_id", task_id);
    push_str_entry(&mut context, "run_id", run_id);
    let ghost c3 = context@;
    context.push((owned("error_code"), match code_value {
        Some(v) => v,
        None => JsonValue::Null,
    }));
    proof {
        assert(context@[0] == c3[0] && context@[1] == c3[1] && context@[2] == c3[2]);
    }
    let debug = match error_text {
        Some(t) => Some(error_debug(t)),
        None => None,
    };
    let key = owned("agent.task_result.").concat(code.as_str());
    proof {
        reveal_strlit("agent.task_result.");
    }
    FailureFields {
        fields,
        envelope: ErrorEnvelope {
            key,
            kind: code,
            retriable,
            retriable_reason,
            retry_after_sec: None,
            hint_key: owned("diagnostics.hint.agent.task_result_failed"),
            message_key: owned("diagnostics.message.agent.task_result_failed"),
            transport_protocol: owned("agent_ws"),
            origin: (owned("agent"), owned("ws"), owned("task_result")),
            stage: owned("finalize"),
            context: JsonValue::Object(context),
            debug,
        },
    }
}

/// The last part of the localized text keys of a deletion failure: the kind when it is one
/// of the known kinds, else `unknown`.
pub open spec fn delete_text_kind(kind: Seq<char>) -> Seq<char> {
    if kind == "config"@ || kind == "auth"@ || kind == "network"@ || kind == "http"@ {
        kind
    } else {
        "unknown"@
    }
}

fn delete_text_kind_str(kind: &str) -> (r: &'static str)
    ensures
        r@ == delete_text_kind(kind@),
{
    if str_eq(kind, "config") {
        "config"
    } else if str_eq(kind, "auth") {
        "auth"
    } else if str_eq(kind, "network") {
        "network"
    } else if str_eq(kind, "http") {
        "http"
    } else {
        "unknown"
    }
}

/// The fields of a failed artifact deletion: `agent_id`, `error_kind`, `hint`, then
/// `retry_after_secs` when a delay is given; and its envelope: key
/// `agent.snapshot_delete.<kind>`, retriable (with the kind as reason and the delay) exactly
/// for `network` and `http`, the deletion hint and message keys of the kind, transport
/// `agent_ws`, origin `agent`/`ws`/`snapshot_delete_result`, stage `cleanup`, context
/// `{agent_id, status}` and the error text as debug.
pub fn snapshot_delete_failure_fields(
    agent_id: &str,
    kind: &str,
    error: &str,
    retry_after_sec: Option<u64>,
    status: &str,
) -> (r: FailureFields)
    ensures
        ({
            let es = r.fields@;
            let env = r.envelope;
            let retriable = kind@ == "network"@ || kind@ == "http"@;
            &&& es.len() == (if retry_after_sec is Some { 4int } else { 3int })
            &&& is_str_entry(es[0], "agent_id"@, agent_id@)
            &&& is_str_entry(es[1], "error_kind"@, kind@)
            &&& is_str_entry(es[2], "hint"@, delete_hint_spec(kind@))
            &&& (retry_after_sec matches Some(n) ==> es[3].0@ == "retry_after_secs"@ && es[3].1 == JsonValue::UInt(n))
            &&& env.key@ == "agent.snapshot_delete."@ + kind@
            &&& env.kind@ == kind@
            &&& env.retriable == retriable
            &&& (match env.retriable_reason {
                Some(t) => retriable && t@ == kind@,
                None => !retriable,
            })
            &&& env.retry_after_sec == (if retriable { retry_after_sec } else { None })
            &&& env.hint_key@ == "diagnostics.hint.artifact_delete."@ + delete_text_kind(kind@)
            &&& env.message_key@ == "diagnostics.message.artifact_delete."@ + delete_text_kind(kind@)
            &&& env.transport_protocol@ == "agent_ws"@
            &&& env.origin.0@ == "agent"@ && env.origin.1@ == "ws"@ && env.origin.2@ == "snapshot_delete_result"@
            &&& env.stage@ == "cleanup"@
            &&& env.context matches JsonValue::Object(cs) && cs@.len() == 2 && is_str_entry(cs@[0], "agent_id"@, agent_id@)
                && is_str_entry(cs@[1], "status"@, status@)
            &&& env.debug matches Some(d) && is_error_debug(d, error@)
        }),
{
    let mut fields: Vec<(String, JsonValue)> = Vec::new();
    push_str_entry(&mut fields, "agent_id", agent_id);
    push_str_entry(&mut fields, "error_kind", kind);
    push_str_entry(&mut fields, "hint", snapshot_delete_hint_text(kind));
    let ghost base = fields@;
    match retry_after_sec {
        Some(n) => fields.push((owned("retry_after_secs"), JsonValue::UInt(n))),
        None => {},
    }
    proof {
        assert(fields@[0] == base[0] && fields@[1] == base[1] && fields@[2] == base[2]);
    }
    let retriable = str_eq(kind, "network") || str_eq(kind, "http");
    let mut context: Vec<(String, JsonValue)> = Vec::new();
    push_str_entry(&mut context, "agent_id", agent_id);
    let ghost c1 = context@;
    push_str_entry(&mut context, "status", status);
    proof {
        assert(context@[0] == c1[0]);
    }
    let text_kind = delete_text_kind_str(kind);
    proof {
        reveal_strlit("agent.snapshot_delete.");
        reveal_strlit("diagnostics.hint.artifact_delete.");
        reveal_strlit("diagnostics.message.artifact_delete.");
    }
    FailureFields {
        fields,
        envelope: ErrorEnvelope {
            key: owned("agent.snapshot_delete.").concat(kind),
            kind: owned(kind),
            retriable,
            retriable_reason: if retriable {
                Some(owned(kind))
            } else {
                None
            },
            retry_after_sec: if retriable {
                retry_after_sec
            } else {
                None
            },
            hint_key: owned("diagnostics.hint.artifact_delete.").concat(text_kind),
            message_key: owned("diagnostics.message.artifact_delete.").concat(text_kind),
            transport_protocol: owned("agent_ws"),
            origin: (owned("agent"), owned("ws"), owned("snapshot_delete_result")),
            stage: owned("cleanup"),
            context: JsonValue::Object(context),
            debug: Some(error_debug(error)),
        },
    }
}

} // verus!
