//! Agents as the Hub sees them: enrollment defaults and whether an agent is online.
use vstd::prelude::*;
use crate::command_center::{saturating_sub_spec, saturating_sub_i64};

verus! {

/// How long an agent may stay silent and still count as online, in seconds.
pub const ONLINE_WINDOW_SECS: i64 = 60;

/// How long an enrollment token lives unless the request says otherwise, in seconds.
pub fn default_enroll_ttl_seconds() -> (r: i64)
    ensures
        r == 3600,
{
    60 * 60
}

/// Online: not revoked, and seen no earlier than a minute before `now`.
pub open spec fn agent_online_spec(revoked: bool, last_seen_at: Option<i64>, now: i64) -> bool {
    !revoked && match last_seen_at {
        Some(ts) => ts >= saturating_sub_spec(now, ONLINE_WINDOW_SECS),
        None => false,
    }
}

pub fn agent_online(revoked: bool, last_seen_at: Option<i64>, now: i64) -> (r: bool)
    ensures
        r == agent_online_spec(revoked, last_seen_at, now),
{
    if revoked {
        return false;
    }
    let cutoff = saturating_sub_i64(now, ONLINE_WINDOW_SECS);
    match last_seen_at {
        Some(ts) => ts >= cutoff,
        None => false,
    }
}

} // verus!
