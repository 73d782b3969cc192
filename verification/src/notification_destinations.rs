//! Notification destinations: how a request names one, and the text of a test notification.
use vstd::prelude::*;
use crate::error::{AppError, STATUS_BAD_REQUEST, STATUS_NOT_FOUND, plain_error};
use crate::fs::{error_with_str_detail, str_detail_error};
use crate::notifications_queue::{require_supported_channel, supported_channel};
use crate::text::{trim, trim_str, str_eq, owned};

verus! {

/// The channels that deliver notifications.
#[derive(Debug, Clone, Copy, PartialEq, Eq, Structural)]
pub enum NotifyChannel {
    WecomBot,
    Email,
}

/// A destination named in a request path: a known channel and a name that is not blank.
/// Returns the channel and the trimmed name.
pub fn destination_path(channel: &str, name: &str) -> (r: Result<(NotifyChannel, String), AppError>)
    ensures
        !supported_channel(channel@) ==> r is Err && error_with_str_detail(r->Err_0, STATUS_BAD_REQUEST,
            "invalid_channel"@, "Unsupported notification channel"@, "field"@, "channel"@),
        supported_channel(channel@) && trim(name@).len() == 0 ==> r is Err && error_with_str_detail(r->Err_0,
            STATUS_BAD_REQUEST, "invalid_name"@, "Destination name is required"@, "field"@, "name"@),
        supported_channel(channel@) && trim(name@).len() > 0 ==> (r matches Ok((c, n)) && n@ == trim(name@)
            && (c == NotifyChannel::WecomBot <==> channel@ == "wecom_bot"@)),
{
    match require_supported_channel(channel) {
        Ok(()) => {},
        Err(e) => { return Err(e); },
    }
    let n = trim_str(name);
    if n.unicode_len() == 0 {
        return Err(str_detail_error(STATUS_BAD_REQUEST, "invalid_name", "Destination name is required", "field", "name"));
    }
    proof {
        reveal_strlit("wecom_bot");
        reveal_strlit("email");
        assert("wecom_bot"@.len() != "email"@.len());
    }
    let c = if str_eq(channel, "wecom_bot") { NotifyChannel::WecomBot } else { NotifyChannel::Email };
    Ok((c, owned(n)))
}

/// The destination must exist.
pub fn require_destination_found(exists: bool) -> (r: Result<(), AppError>)
    ensures
        exists ==> r is Ok,
        !exists ==> r is Err && plain_error(r->Err_0, STATUS_NOT_FOUND, "destination_not_found"@, "Destination not found"@),
{
    if !exists {
        return Err(AppError::not_found("destination_not_found", "Destination not found"));
    }
    Ok(())
}

/// The kind of stored secret that holds a channel's destinations.
pub fn destination_secret_kind(channel: NotifyChannel) -> (r: &'static str)
    ensures
        r@ == (match channel {
            NotifyChannel::WecomBot => "wecom_bot"@,
            NotifyChannel::Email => "smtp"@,
        }),
{
    match channel {
        NotifyChannel::WecomBot => "wecom_bot",
        NotifyChannel::Email => "smtp",
    }
}

/// A test notification: a subject (email only) and a body naming the destination and time.
#[derive(Debug)]
pub struct TestMessage {
    pub subject: Option<String>,
    pub body: String,
}

pub open spec fn test_body(channel: NotifyChannel, name: Seq<char>, time: Seq<char>) -> Seq<char> {
    match channel {
        NotifyChannel::WecomBot => "**Bastion test notification**\n> Destination: "@ + name + "\n> Time: "@ + time + "\n"@,
        NotifyChannel::Email => "Bastion test notification\n\nDestination: "@ + name + "\nTime: "@ + time + "\n"@,
    }
}

pub fn test_message(channel: NotifyChannel, name: &str, time: &str) -> (r: TestMessage)
    ensures
        r.body@ == test_body(channel, name@, time@),
        channel == NotifyChannel::WecomBot ==> r.subject is None,
        channel == NotifyChannel::Email ==> (r.subject matches Some(s) && s@ == "Bastion test notification"@),
{
    match channel {
        NotifyChannel::WecomBot => {
            let mut body = owned("**Bastion test notification**\n> Destination: ");
            body.append(name);
            body.append("\n> Time: ");
            body.append(time);
            body.append("\n");
            TestMessage { subject: None, body }
        },
        NotifyChannel::Email => {
            let mut body = owned("Bastion test notification\n\nDestination: ");
            body.append(name);
            body.append("\nTime: ");
            body.append(time);
            body.append("\n");
            TestMessage { subject: Some(owned("Bastion test notification")), body }
        },
    }
}

} // verus!
