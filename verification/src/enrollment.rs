//! Enrollment of new agents with one-time tokens.
use vstd::prelude::*;
use crate::error::{AppError, STATUS_UNAUTHORIZED, plain_error};
use crate::fs::{error_with_str_detail, str_detail_error};

verus! {

/// How long an enrollment token lives unless the request says otherwise, in seconds.
pub fn default_enroll_ttl_seconds() -> (r: i64)
    ensures
        r == 3600,
{
    60 * 60
}

/// When a token made now expires. The sum must fit (an overflow panics).
pub fn enrollment_expires_at(now: i64, ttl_seconds: i64) -> (r: i64)
    requires
        i64::MIN <= now + ttl_seconds <= i64::MAX,
    ensures
        r == now + ttl_seconds,
{
    now + ttl_seconds
}

/// What becomes of a stored enrollment token when an agent presents it.
#[derive(Debug, Clone, Copy, PartialEq, Eq, Structural)]
pub enum TokenAction {
    /// The token stays as it is.
    Keep,
    /// The token is removed.
    Delete,
    /// The token stays with this many uses left.
    SetRemaining(i64),
}

/// An agent presents a token. `well_formed` tells whether the token could be hashed at all;
/// `stored` is the token found under its hash (its expiry and remaining uses). The action
/// takes effect together with the enrollment, so a refused token (an expired one too) is
/// left as it was.
pub fn enroll_token_decision(well_formed: bool, stored: Option<(i64, Option<i64>)>, now: i64)
    -> (r: (TokenAction, Result<(), AppError>))
    ensures
        !well_formed ==> r.0 == TokenAction::Keep && r.1 is Err && error_with_str_detail(r.1->Err_0,
            STATUS_UNAUTHORIZED, "invalid_token"@, "Invalid enrollment token"@, "field"@, "token"@),
        well_formed && stored is None ==> r.0 == TokenAction::Keep && r.1 is Err
            && plain_error(r.1->Err_0, STATUS_UNAUTHORIZED, "invalid_token"@, "Invalid enrollment token"@),
        well_formed ==> r.0 == token_step(stored, now).0 && (r.1 is Ok <==> token_step(stored, now).1),
        well_formed ==> (stored matches Some((expires_at, uses)) ==> {
            if expires_at <= now {
                r.0 == TokenAction::Keep && r.1 is Err
                    && plain_error(r.1->Err_0, STATUS_UNAUTHORIZED, "expired_token"@, "Enrollment token expired"@)
            } else {
                match uses {
                    None => r.0 == TokenAction::Keep && r.1 is Ok,
                    Some(u) => if u <= 0 {
                        r.0 == TokenAction::Keep && r.1 is Err
                            && plain_error(r.1->Err_0, STATUS_UNAUTHORIZED, "invalid_token"@, "Invalid enrollment token"@)
                    } else if u == 1 {
                        r.0 == TokenAction::Delete && r.1 is Ok
                    } else {
                        r.0 == TokenAction::SetRemaining((u - 1) as i64) && r.1 is Ok
                    },
                }
            }
        }),
{
    if !well_formed {
        return (TokenAction::Keep, Err(str_detail_error(STATUS_UNAUTHORIZED, "invalid_token", "Invalid enrollment token", "field", "token")));
    }
    let (expires_at, uses) = match stored {
        Some(s) => s,
        None => { return (TokenAction::Keep, Err(AppError::unauthorized("invalid_token", "Invalid enrollment token"))); },
    };
    if expires_at <= now {
        return (TokenAction::Keep, Err(AppError::unauthorized("expired_token", "Enrollment token expired")));
    }
    match uses {
        None => (TokenAction::Keep, Ok(())),
        Some(u) => {
            if u <= 0 {
                return (TokenAction::Keep, Err(AppError::unauthorized("invalid_token", "Invalid enrollment token")));
            }
            let left = u - 1;
            if left == 0 {
                (TokenAction::Delete, Ok(()))
            } else {
                (TokenAction::SetRemaining(left), Ok(()))
            }
        },
    }
}

/// The action and whether enrollment goes on, for a well-formed token.
pub open spec fn token_step(stored: Option<(i64, Option<i64>)>, now: i64) -> (TokenAction, bool) {
    match stored {
        None => (TokenAction::Keep, false),
        Some((expires_at, uses)) => if expires_at <= now {
            (TokenAction::Keep, false)
        } else {
            match uses {
                None => (TokenAction::Keep, true),
                Some(u) => if u <= 0 {
                    (TokenAction::Keep, false)
                } else if u == 1 {
                    (TokenAction::Delete, true)
                } else {
                    (TokenAction::SetRemaining((u - 1) as i64), true)
                },
            }
        },
    }
}

/// The stored token after an action.
pub open spec fn token_after(stored: Option<(i64, Option<i64>)>, action: TokenAction) -> Option<(i64, Option<i64>)> {
    match action {
        TokenAction::Keep => stored,
        TokenAction::Delete => None,
        TokenAction::SetRemaining(k) => match stored {
            Some((e, _)) => Some((e, Some(k))),
            None => None,
        },
    }
}

/// The stored token after `k` presentations at time `now`.
pub open spec fn token_after_uses(stored: Option<(i64, Option<i64>)>, now: i64, k: nat) -> Option<(i64, Option<i64>)>
    decreases k,
{
    if k == 0 {
        stored
    } else {
        let before = token_after_uses(stored, now, (k - 1) as nat);
        token_after(before, token_step(before, now).0)
    }
}

/// A token good for `n` uses, presented before it expires, is accepted exactly `n` times: each
/// of the first `n` presentations succeeds, and then the token is gone.
pub proof fn lemma_token_uses(expires_at: i64, n: i64, now: i64, k: nat)
    requires
        now < expires_at,
        1 <= n,
        k <= n,
    ensures
        k < n ==> token_after_uses(Some((expires_at, Some(n))), now, k) == Some((expires_at, Some((n - k) as i64))),
        k < n ==> token_step(token_after_uses(Some((expires_at, Some(n))), now, k), now).1,
        k == n ==> token_after_uses(Some((expires_at, Some(n))), now, k) is None,
    decreases k,
{
    if k > 0 {
        lemma_token_uses(expires_at, n, now, (k - 1) as nat);
    }
}

/// An expired token is refused every time it is presented and is left as it was.
pub proof fn lemma_expired_token_stays(expires_at: i64, uses: Option<i64>, now: i64, k: nat)
    requires
        expires_at <= now,
    ensures
        token_after_uses(Some((expires_at, uses)), now, k) == Some((expires_at, uses)),
        !token_step(token_after_uses(Some((expires_at, uses)), now, k), now).1,
    decreases k,
{
    if k > 0 {
        lemma_expired_token_stays(expires_at, uses, now, (k - 1) as nat);
    }
}

} // verus!
