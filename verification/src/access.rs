//! Who may talk to the Hub: agents by their bearer key, and browsers over HTTPS unless the
//! Hub allows otherwise.
use vstd::prelude::*;
use crate::error::{AppError, STATUS_BAD_REQUEST, STATUS_UNAUTHORIZED, plain_error};
use crate::text::{trim, trim_str, owned, str_eq, has_prefix, starts_with, chars_of, string_of};

verus! {

/// The key in an `Authorization` header of the form `Bearer <key>`, trimmed.
pub open spec fn bearer_spec(header: Option<Seq<char>>) -> Option<Seq<char>> {
    match header {
        Some(h) => if has_prefix(h, "Bearer "@) {
            Some(trim(h.skip(7)))
        } else {
            None
        },
        None => None,
    }
}

pub fn bearer_token(authorization: Option<&str>) -> (r: Option<String>)
    ensures
        match bearer_spec(match authorization {
            Some(h) => Some(h@),
            None => None,
        }) {
            Some(k) => r matches Some(t) && t@ == k,
            None => r is None,
        },
{
    let h = match authorization {
        Some(h) => h,
        None => { return None; },
    };
    proof {
        reveal_strlit("Bearer ");
    }
    if !starts_with(h, "Bearer ") {
        return None;
    }
    let v = chars_of(h);
    let rest = string_of(&v, 7, v.len());
    assert(rest@ == h@.skip(7));
    Some(owned(trim_str(rest.as_str())))
}

/// The first step of authenticating an agent: its bearer key, or a 401 `unauthorized` when
/// the request carries none. The key is then hashed and looked up, and the row found goes to
/// `agent_key_decision`.
pub fn require_agent_key(authorization: Option<&str>) -> (r: Result<String, AppError>)
    ensures
        match bearer_spec(match authorization {
            Some(h) => Some(h@),
            None => None,
        }) {
            Some(k) => r matches Ok(t) && t@ == k,
            None => r is Err && plain_error(r->Err_0, STATUS_UNAUTHORIZED, "unauthorized"@, "Unauthorized"@),
        },
{
    match bearer_token(authorization) {
        Some(k) => Ok(k),
        None => Err(AppError::unauthorized("unauthorized", "Unauthorized")),
    }
}

/// The agent a key belongs to, as looked up: absent, or its id and whether it was revoked.
pub fn agent_key_decision(found: Option<(String, bool)>) -> (r: Result<String, AppError>)
    ensures
        match found {
            None => r is Err && plain_error(r->Err_0, STATUS_UNAUTHORIZED, "unauthorized"@, "Unauthorized"@),
            Some((id, revoked)) => if revoked {
                r is Err && plain_error(r->Err_0, STATUS_UNAUTHORIZED, "revoked"@, "Agent revoked"@)
            } else {
                r matches Ok(v) && v@ == id@
            },
        },
{
    match found {
        None => Err(AppError::unauthorized("unauthorized", "Unauthorized")),
        Some((id, revoked)) => {
            if revoked {
                Err(AppError::unauthorized("revoked", "Agent revoked"))
            } else {
                Ok(id)
            }
        },
    }
}

/// Paths that answer over plain HTTP whatever the transport: health, readiness, system status
/// and setup status.
pub open spec fn insecure_path_spec(path: Seq<char>) -> bool {
    path == "/api/health"@ || path == "/api/ready"@ || path == "/api/system"@ || path == "/api/setup/status"@
}

/// Whether a request may go on: open paths always; others over HTTPS, when the Hub allows
/// plain HTTP, or from the loopback address. Refused requests get a bad request.
pub fn secure_transport_check(path: &str, https: bool, insecure_http: bool, loopback: bool) -> (r: Result<(), AppError>)
    ensures
        (insecure_path_spec(path@) || https || insecure_http || loopback) ==> r is Ok,
        !(insecure_path_spec(path@) || https || insecure_http || loopback) ==> r is Err && plain_error(r->Err_0,
            STATUS_BAD_REQUEST, "insecure_not_allowed"@, "HTTPS required (reverse proxy) or start with --insecure-http"@),
{
    if str_eq(path, "/api/health") || str_eq(path, "/api/ready") || str_eq(path, "/api/system")
        || str_eq(path, "/api/setup/status") {
        return Ok(());
    }
    if https || insecure_http || loopback {
        return Ok(());
    }
    Err(AppError::bad_request("insecure_not_allowed", "HTTPS required (reverse proxy) or start with --insecure-http"))
}

} // verus!
