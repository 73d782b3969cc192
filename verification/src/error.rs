//! The error a request is answered with: an HTTP status, a machine code, a message, and
//! structured details.
use vstd::prelude::*;
use crate::json::{JsonValue, is_str, json_str, lemma_lookup_push, lookup, object_entries, take_entry};

verus! {

pub const STATUS_BAD_REQUEST: u16 = 400;
pub const STATUS_UNAUTHORIZED: u16 = 401;
pub const STATUS_FORBIDDEN: u16 = 403;
pub const STATUS_NOT_FOUND: u16 = 404;
pub const STATUS_CONFLICT: u16 = 409;
pub const STATUS_TOO_MANY_REQUESTS: u16 = 429;
pub const STATUS_INTERNAL_SERVER_ERROR: u16 = 500;

#[derive(Debug)]
pub struct AppError {
    pub status: u16,
    pub code: String,
    pub message: String,
    pub details: Option<JsonValue>,
    pub debug_details: Option<JsonValue>,
}

/// An error with the given status, code and message and no details.
pub open spec fn plain_error(e: AppError, status: u16, code: Seq<char>, message: Seq<char>) -> bool {
    &&& e.status == status
    &&& e.code@ == code
    &&& e.message@ == message
    &&& e.details is None
    &&& e.debug_details is None
}

/// What the details read as under `key`.
pub open spec fn detail(e: AppError, key: Seq<char>) -> Option<JsonValue> {
    lookup(object_entries(e.details), key)
}

fn with_status(status: u16, code: &str, message: &str) -> (r: AppError)
    ensures
        plain_error(r, status, code@, message@),
{
    AppError {
        status,
        code: String::from_str(code),
        message: String::from_str(message),
        details: None,
        debug_details: None,
    }
}

/// The violations list, if the details hold one.
pub open spec fn violations_of(v: Option<JsonValue>) -> Seq<JsonValue> {
    match v {
        Some(JsonValue::Array(vs)) => vs@,
        _ => Seq::empty(),
    }
}

/// `v` is exactly the object `{"field": field, "reason": reason}`, followed by
/// `"params": p` when `params` is an object `p`; nothing else.
pub open spec fn is_violation(v: JsonValue, field: Seq<char>, reason: Seq<char>, params: Option<JsonValue>) -> bool {
    &&& v matches JsonValue::Object(es)
    &&& es@.len() == (if params matches Some(JsonValue::Object(_)) { 3int } else { 2int })
    &&& es@[0].0@ == "field"@ && is_str(es@[0].1, field)
    &&& es@[1].0@ == "reason"@ && is_str(es@[1].1, reason)
    &&& (params matches Some(JsonValue::Object(p)) ==> es@[2].0@ == "params"@ && es@[2].1
        == JsonValue::Object(p))
}

/// `after` is the violations list `before` with one more violation at the end.
pub open spec fn violations_appended(
    before: Option<JsonValue>,
    after: Option<JsonValue>,
    field: Seq<char>,
    reason: Seq<char>,
    params: Option<JsonValue>,
) -> bool {
    &&& after is Some && after->0 is Array
    &&& violations_of(after).len() > 0
    &&& violations_of(after).drop_last() == violations_of(before)
    &&& is_violation(violations_of(after).last(), field, reason, params)
}

fn violation_object(field: &str, reason: &str, params: Option<JsonValue>) -> (r: JsonValue)
    ensures
        is_violation(r, field@, reason@, params),
{
    let mut v: Vec<(String, JsonValue)> = Vec::new();
    v.push((String::from_str("field"), json_str(field)));
    v.push((String::from_str("reason"), json_str(reason)));
    match params {
        Some(JsonValue::Object(p)) => {
            v.push((String::from_str("params"), JsonValue::Object(p)));
        },
        _ => {},
    }
    JsonValue::Object(v)
}

impl AppError {
    pub fn bad_request(code: &str, message: &str) -> (r: AppError)
        ensures
            plain_error(r, STATUS_BAD_REQUEST, code@, message@),
    {
        with_status(STATUS_BAD_REQUEST, code, message)
    }

    pub fn too_many_requests(code: &str, message: &str) -> (r: AppError)
        ensures
            plain_error(r, STATUS_TOO_MANY_REQUESTS, code@, message@),
    {
        with_status(STATUS_TOO_MANY_REQUESTS, code, message)
    }

    pub fn unauthorized(code: &str, message: &str) -> (r: AppError)
        ensures
            plain_error(r, STATUS_UNAUTHORIZED, code@, message@),
    {
        with_status(STATUS_UNAUTHORIZED, code, message)
    }

    pub fn forbidden(code: &str, message: &str) -> (r: AppError)
        ensures
            plain_error(r, STATUS_FORBIDDEN, code@, message@),
    {
        with_status(STATUS_FORBIDDEN, code, message)
    }

    pub fn conflict(code: &str, message: &str) -> (r: AppError)
        ensures
            plain_error(r, STATUS_CONFLICT, code@, message@),
    {
        with_status(STATUS_CONFLICT, code, message)
    }

    pub fn not_found(code: &str, message: &str) -> (r: AppError)
        ensures
            plain_error(r, STATUS_NOT_FOUND, code@, message@),
    {
        with_status(STATUS_NOT_FOUND, code, message)
    }

    /// Takes the details out as object entries: an object's own entries, else none.
    fn take_details_object(&mut self) -> (r: Vec<(String, JsonValue)>)
        ensures
            r@ == object_entries(old(self).details),
            final(self).status == old(self).status,
            final(self).code == old(self).code,
            final(self).message == old(self).message,
            final(self).debug_details == old(self).debug_details,
    {
        let d = self.details.take();
        match d {
            Some(JsonValue::Object(entries)) => entries,
            _ => Vec::new(),
        }
    }

    /// Merges `details` in: an object's entries are added to the details object (later
    /// keys win); any other value replaces the details.
    pub fn with_details(self, details: JsonValue) -> (r: AppError)
        ensures
            r.status == self.status && r.code == self.code && r.message == self.message,
            r.debug_details == self.debug_details,
            match details {
                JsonValue::Object(add) => r.details matches Some(JsonValue::Object(e)) && e@
                    == object_entries(self.details) + add@,
                other => r.details == Some(other),
            },
    {
        let mut s = self;
        match details {
            JsonValue::Object(add) => {
                let mut entries = s.take_details_object();
                let mut add = add;
                entries.append(&mut add);
                s.details = Some(JsonValue::Object(entries));
                s
            },
            other => {
                s.details = Some(other);
                s
            },
        }
    }

    fn with_string_detail(self, key: &str, value: &str) -> (r: AppError)
        ensures
            r.status == self.status && r.code == self.code && r.message == self.message,
            r.debug_details == self.debug_details,
            r.details matches Some(JsonValue::Object(e)) && e@.drop_last() == object_entries(
                self.details,
            ) && e@.len() > 0 && e@.last().0@ == key@ && is_str(e@.last().1, value@),
    {
        let mut s = self;
        let mut entries = s.take_details_object();
        entries.push((String::from_str(key), json_str(value)));
        proof {
            assert(entries@.drop_last() =~= object_entries(self.details));
        }
        s.details = Some(JsonValue::Object(entries));
        s
    }

    /// Sets `details.reason`.
    pub fn with_reason(self, reason: &str) -> (r: AppError)
        ensures
            r.status == self.status && r.code == self.code && r.message == self.message,
            r.debug_details == self.debug_details,
            r.details matches Some(JsonValue::Object(_)),
            detail(r, "reason"@) matches Some(v) && is_str(v, reason@),
            forall|k: Seq<char>| k != "reason"@ ==> detail(r, k) == detail(self, k),
            object_entries(r.details) == object_entries(self.details).push(object_entries(r.details).last()),
            object_entries(r.details).last().0@ == "reason"@ && is_str(object_entries(r.details).last().1, reason@),
    {
        let r = self.with_string_detail("reason", reason);
        proof {
            reveal_strlit("reason");
            let e = object_entries(r.details);
            assert(e =~= e.drop_last().push(e.last()));
            assert forall|k: Seq<char>| k != "reason"@ implies detail(r, k) == detail(self, k) by {
                lemma_lookup_push(e.drop_last(), e.last().0, e.last().1, k);
            }
            lemma_lookup_push(e.drop_last(), e.last().0, e.last().1, "reason"@);
        }
        r
    }

    /// Sets `details.field`.
    pub fn with_field(self, field: &str) -> (r: AppError)
        ensures
            r.status == self.status && r.code == self.code && r.message == self.message,
            r.debug_details == self.debug_details,
            r.details matches Some(JsonValue::Object(_)),
            detail(r, "field"@) matches Some(v) && is_str(v, field@),
            forall|k: Seq<char>| k != "field"@ ==> detail(r, k) == detail(self, k),
            object_entries(r.details) == object_entries(self.details).push(object_entries(r.details).last()),
            object_entries(r.details).last().0@ == "field"@ && is_str(object_entries(r.details).last().1, field@),
    {
        let r = self.with_string_detail("field", field);
        proof {
            reveal_strlit("field");
            let e = object_entries(r.details);
            assert(e =~= e.drop_last().push(e.last()));
            assert forall|k: Seq<char>| k != "field"@ implies detail(r, k) == detail(self, k) by {
                lemma_lookup_push(e.drop_last(), e.last().0, e.last().1, k);
            }
            lemma_lookup_push(e.drop_last(), e.last().0, e.last().1, "field"@);
        }
        r
    }

    /// Sets `details.params[key]`, keeping the other params.
    pub fn with_param(self, key: &str, value: JsonValue) -> (r: AppError)
        ensures
            r.status == self.status && r.code == self.code && r.message == self.message,
            r.debug_details == self.debug_details,
            r.details matches Some(JsonValue::Object(_)),
            detail(r, "params"@) matches Some(JsonValue::Object(p)) && p@ == object_entries(
                detail(self, "params"@),
            ).push((p@.last().0, value)) && p@.last().0@ == key@,
            forall|k: Seq<char>| k != "params"@ ==> detail(r, k) == detail(self, k),
    {
        let mut s = self;
        let mut entries = s.take_details_object();
        let old_params = take_entry(&mut entries, "params");
        let mut params = match old_params {
            Some(JsonValue::Object(p)) => p,
            _ => Vec::new(),
        };
        let ghost before = params@;
        params.push((String::from_str(key), value));
        let ghost p_after = params@;
        let ghost mid = entries@;
        entries.push((String::from_str("params"), JsonValue::Object(params)));
        proof {
            reveal_strlit("params");
            assert forall|k: Seq<char>| k != "params"@ implies lookup(entries@, k) == detail(self, k) by {
                assert(entries@ == mid.push(entries@.last()));
                lemma_lookup_push(mid, entries@.last().0, entries@.last().1, k);
            }
            assert(entries@ == mid.push(entries@.last()));
            lemma_lookup_push(mid, entries@.last().0, entries@.last().1, "params"@);
            assert(p_after == before.push(p_after.last()));
        }
        s.details = Some(JsonValue::Object(entries));
        s
    }

    /// Appends `{field, reason, params?}` to `details.violations`, keeping earlier ones.
    pub fn with_violation(self, field: &str, reason: &str, params: Option<JsonValue>) -> (r:
        AppError)
        ensures
            r.status == self.status && r.code == self.code && r.message == self.message,
            r.debug_details == self.debug_details,
            r.details matches Some(JsonValue::Object(_)),
            violations_appended(detail(self, "violations"@), detail(r, "violations"@), field@, reason@, params),
            forall|k: Seq<char>| k != "violations"@ ==> detail(r, k) == detail(self, k),
    {
        let mut s = self;
        let mut entries = s.take_details_object();
        let old_vs = take_entry(&mut entries, "violations");
        let mut vs = match old_vs {
            Some(JsonValue::Array(v)) => v,
            _ => Vec::new(),
        };
        let ghost vs_before = vs@;
        let violation = violation_object(field, reason, params);
        vs.push(violation);
        assert(vs@.drop_last() =~= vs_before);
        assert(vs_before == violations_of(old_vs));
        let ghost mid = entries@;
        entries.push((String::from_str("violations"), JsonValue::Array(vs)));
        proof {
            reveal_strlit("violations");
            assert(entries@ == mid.push(entries@.last()));
            assert forall|k: Seq<char>| k != "violations"@ implies lookup(entries@, k) == detail(
                self,
                k,
            ) by {
                lemma_lookup_push(mid, entries@.last().0, entries@.last().1, k);
            }
            lemma_lookup_push(mid, entries@.last().0, entries@.last().1, "violations"@);
        }
        s.details = Some(JsonValue::Object(entries));
        s
    }
}

/// How errors are rendered: with their debug details or without.
#[derive(Clone, Copy, Debug, PartialEq, Eq, Structural)]
pub struct AppErrorRenderOptions {
    pub debug_errors: bool,
}

/// The options in force: those of the surrounding request scope, else the default (debug
/// details off).
pub fn current_app_error_render_options(scoped: Option<AppErrorRenderOptions>) -> (r: AppErrorRenderOptions)
    ensures
        r == (match scoped {
            Some(o) => o,
            None => AppErrorRenderOptions { debug_errors: false },
        }),
{
    match scoped {
        Some(o) => o,
        None => AppErrorRenderOptions { debug_errors: false },
    }
}

/// The details a response carries: the error's own details, joined with the debug details
/// only when debug output is on. Two objects join as the entries of the first followed by
/// those of the second (so a key of both reads as the debug value); otherwise whichever
/// is present wins, the error's own first.
pub open spec fn is_merged_details(
    r: Option<JsonValue>,
    details: Option<JsonValue>,
    debug_details: Option<JsonValue>,
    debug_errors: bool,
) -> bool {
    if !debug_errors {
        r == details
    } else {
        match (details, debug_details) {
            (None, d) => r == d,
            (d, None) => r == d,
            (Some(JsonValue::Object(a)), Some(JsonValue::Object(b))) => r matches Some(JsonValue::Object(e))
                && e@ == a@ + b@,
            (d, Some(_)) => r == d,
        }
    }
}

/// Joins the error's details with its debug details for a response body.
pub fn merge_response_details(
    details: Option<JsonValue>,
    debug_details: Option<JsonValue>,
    options: AppErrorRenderOptions,
) -> (r: Option<JsonValue>)
    ensures
        is_merged_details(r, details, debug_details, options.debug_errors),
{
    if !options.debug_errors {
        return details;
    }
    match (details, debug_details) {
        (None, d) => d,
        (d, None) => d,
        (Some(JsonValue::Object(a)), Some(JsonValue::Object(b))) => {
            let mut a = a;
            let mut b = b;
            a.append(&mut b);
            Some(JsonValue::Object(a))
        },
        (d, Some(_)) => d,
    }
}

} // verus!

verus! {

#[derive(Clone, Copy, Debug, PartialEq, Eq, Structural)]
pub enum IoKind {
    NotFound,
    PermissionDenied,
    Other,
}

#[derive(Clone, Copy, Debug, PartialEq, Eq, Structural)]
pub enum CauseKind {
    Io(IoKind),
    /// A database lookup that found no row.
    RowNotFound,
    Other,
}

/// One link of an error's cause chain: its type name, what kind of error it is, and for
/// I/O errors the name of the I/O error kind.
#[derive(Debug)]
pub struct ErrorCause {
    pub type_label: String,
    pub kind: CauseKind,
    pub io_kind_name: String,
}

/// What the first I/O or row-not-found cause of a chain makes of the error: 403 or 404 for
/// an I/O error denied or not found (any other I/O error decides that nothing applies),
/// 404 for a missing row; nothing when no such cause comes first.
pub open spec fn classify_spec(chain: Seq<CauseKind>) -> Option<(u16, Seq<char>, Seq<char>)>
    decreases chain.len(),
{
    if chain.len() == 0 {
        None
    } else {
        match chain[0] {
            CauseKind::Io(IoKind::PermissionDenied) => Some((STATUS_FORBIDDEN, "permission_denied"@, "Permission denied"@)),
            CauseKind::Io(IoKind::NotFound) => Some((STATUS_NOT_FOUND, "path_not_found"@, "Path not found"@)),
            CauseKind::Io(IoKind::Other) => None,
            CauseKind::RowNotFound => Some((STATUS_NOT_FOUND, "not_found"@, "Not found"@)),
            CauseKind::Other => classify_spec(chain.drop_first()),
        }
    }
}

pub open spec fn cause_kinds(chain: Seq<ErrorCause>) -> Seq<CauseKind> {
    chain.map_values(|c: ErrorCause| c.kind)
}

/// Classifies an error by its cause chain (see `classify_spec`).
pub fn classify_error(chain: &Vec<ErrorCause>) -> (r: Option<AppError>)
    ensures
        match classify_spec(cause_kinds(chain@)) {
            Some((status, code, message)) => r matches Some(e) && plain_error(e, status, code, message),
            None => r is None,
        },
{
    let mut i: usize = 0;
    assert(cause_kinds(chain@).skip(0) =~= cause_kinds(chain@));
    while i < chain.len()
        invariant
            i <= chain.len(),
            classify_spec(cause_kinds(chain@)) == classify_spec(cause_kinds(chain@).skip(i as int)),
        decreases chain.len() - i,
    {
        let ghost rest = cause_kinds(chain@).skip(i as int);
        assert(rest[0] == chain@[i as int].kind);
        match chain[i].kind {
            CauseKind::Io(IoKind::PermissionDenied) => {
                return Some(AppError::forbidden("permission_denied", "Permission denied"));
            },
            CauseKind::Io(IoKind::NotFound) => {
                return Some(AppError::not_found("path_not_found", "Path not found"));
            },
            CauseKind::Io(IoKind::Other) => {
                return None;
            },
            CauseKind::RowNotFound => {
                return Some(AppError::not_found("not_found", "Not found"));
            },
            CauseKind::Other => {},
        }
        assert(rest.drop_first() =~= cause_kinds(chain@).skip(i + 1));
        i = i + 1;
    }
    None
}

/// `v` is exactly the record of one cause: `{"type": label}`, followed by
/// `"io_kind": name` for an I/O error or by `"sqlx_kind": "RowNotFound"` for a missing row.
pub open spec fn is_cause_record(v: JsonValue, c: ErrorCause) -> bool {
    &&& v matches JsonValue::Object(es)
    &&& es@.len() == (if c.kind is Io || c.kind is RowNotFound { 2int } else { 1int })
    &&& es@[0].0@ == "type"@ && is_str(es@[0].1, c.type_label@)
    &&& (c.kind is Io ==> es@[1].0@ == "io_kind"@ && is_str(es@[1].1, c.io_kind_name@))
    &&& (c.kind is RowNotFound ==> es@[1].0@ == "sqlx_kind"@ && is_str(es@[1].1, "RowNotFound"@))
}

/// How many causes the debug details record: the first eight at most.
pub open spec fn recorded_causes(n: nat) -> int {
    if n < 8 { n as int } else { 8 }
}

/// `v` is exactly `{"debug": {"chain": [records]}}`, with one record for each of the first
/// `recorded_causes` causes of `chain`, in order.
pub open spec fn is_debug_details(v: JsonValue, chain: Seq<ErrorCause>) -> bool {
    &&& v matches JsonValue::Object(outer)
    &&& outer@.len() == 1 && outer@[0].0@ == "debug"@
    &&& outer@[0].1 matches JsonValue::Object(inner)
    &&& inner@.len() == 1 && inner@[0].0@ == "chain"@
    &&& inner@[0].1 matches JsonValue::Array(records)
    &&& records@.len() == recorded_causes(chain.len())
    &&& forall|k: int| 0 <= k < records@.len() ==> is_cause_record(#[trigger] records@[k], chain[k])
}

fn cause_record(c: &ErrorCause) -> (r: JsonValue)
    ensures
        is_cause_record(r, *c),
{
    let mut v: Vec<(String, JsonValue)> = Vec::new();
    v.push((String::from_str("type"), JsonValue::Str(c.type_label.clone())));
    match c.kind {
        CauseKind::Io(_) => {
            v.push((String::from_str("io_kind"), JsonValue::Str(c.io_kind_name.clone())));
        },
        CauseKind::RowNotFound => {
            v.push((String::from_str("sqlx_kind"), json_str("RowNotFound")));
        },
        CauseKind::Other => {},
    }
    JsonValue::Object(v)
}

/// The debug details of a cause chain (see `is_debug_details`).
pub fn debug_details(chain: &Vec<ErrorCause>) -> (r: JsonValue)
    ensures
        is_debug_details(r, chain@),
{
    let mut records: Vec<JsonValue> = Vec::new();
    let mut i: usize = 0;
    while i < chain.len() && i < 8
        invariant
            i <= chain.len() && i <= 8,
            records@.len() == i,
            forall|k: int| 0 <= k < i ==> is_cause_record(#[trigger] records@[k], chain@[k]),
        decreases chain.len() - i,
    {
        records.push(cause_record(&chain[i]));
        i = i + 1;
    }
    let mut inner: Vec<(String, JsonValue)> = Vec::new();
    inner.push((String::from_str("chain"), JsonValue::Array(records)));
    let mut outer: Vec<(String, JsonValue)> = Vec::new();
    outer.push((String::from_str("debug"), JsonValue::Object(inner)));
    JsonValue::Object(outer)
}

/// The error an unexpected failure is answered with: its classification when the cause
/// chain has one, else a 500 carrying debug details of the chain.
pub fn from_error_chain(chain: &Vec<ErrorCause>) -> (r: AppError)
    ensures
        match classify_spec(cause_kinds(chain@)) {
            Some((status, code, message)) => plain_error(r, status, code, message),
            None => {
                &&& r.status == STATUS_INTERNAL_SERVER_ERROR
                &&& r.code@ == "internal_error"@
                &&& r.message@ == "Internal server error"@
                &&& r.details is None
                &&& r.debug_details matches Some(d) && is_debug_details(d, chain@)
            },
        },
{
    match classify_error(chain) {
        Some(e) => e,
        None => AppError {
            status: STATUS_INTERNAL_SERVER_ERROR,
            code: String::from_str("internal_error"),
            message: String::from_str("Internal server error"),
            details: None,
            debug_details: Some(debug_details(chain)),
        },
    }
}

} // verus!
