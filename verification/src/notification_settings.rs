//! Notification settings: the templates they must hold, and which queued notifications a
//! change of settings cancels.
use vstd::prelude::*;
use crate::error::AppError;
use crate::command_center::{field_error, is_field_error};
use crate::text::{trim, trim_str};

verus! {

/// A 400 `invalid_template` error whose details are exactly the reason and the template
/// field.
pub fn invalid_template_error(reason: &str, field: &str, message: &str) -> (r: AppError)
    ensures
        is_field_error(r, "invalid_template"@, message@, reason@, field@),
{
    field_error("invalid_template", message, reason, field)
}

/// The first template left blank, as (reason, field, message); `None` when all are given.
pub open spec fn template_problem(wecom_markdown: Seq<char>, email_subject: Seq<char>, email_body: Seq<char>)
    -> Option<(Seq<char>, Seq<char>, Seq<char>)>
{
    if trim(wecom_markdown).len() == 0 {
        Some(("required_wecom_markdown"@, "templates.wecom_markdown"@, "WeCom template is required"@))
    } else if trim(email_subject).len() == 0 {
        Some(("required_email_subject"@, "templates.email_subject"@, "Email subject template is required"@))
    } else if trim(email_body).len() == 0 {
        Some(("required_email_body"@, "templates.email_body"@, "Email body template is required"@))
    } else {
        None
    }
}

/// Settings must hold every template.
pub fn check_templates(wecom_markdown: &str, email_subject: &str, email_body: &str) -> (r: Result<(), AppError>)
    ensures
        match template_problem(wecom_markdown@, email_subject@, email_body@) {
            None => r is Ok,
            Some((reason, field, message)) => r matches Err(e) && is_field_error(e, "invalid_template"@, message, reason, field),
        },
{
    if trim_str(wecom_markdown).unicode_len() == 0 {
        return Err(invalid_template_error("required_wecom_markdown", "templates.wecom_markdown", "WeCom template is required"));
    }
    if trim_str(email_subject).unicode_len() == 0 {
        return Err(invalid_template_error("required_email_subject", "templates.email_subject", "Email subject template is required"));
    }
    if trim_str(email_body).unicode_len() == 0 {
        return Err(invalid_template_error("required_email_body", "templates.email_body", "Email body template is required"));
    }
    Ok(())
}

/// Which queued notifications new settings cancel.
#[derive(Debug, Clone, Copy, PartialEq, Eq, Structural)]
pub struct SettingsCancellations {
    /// All of them (notifications turned off).
    pub all: bool,
    /// Those of the WeCom bot channel (turned off while notifications stay on).
    pub wecom_bot: bool,
    /// Those of the email channel (turned off while notifications stay on).
    pub email: bool,
}

pub fn settings_cancellations(enabled: bool, wecom_bot_enabled: bool, email_enabled: bool) -> (r: SettingsCancellations)
    ensures
        r.all == !enabled,
        r.wecom_bot == (enabled && !wecom_bot_enabled),
        r.email == (enabled && !email_enabled),
{
    SettingsCancellations { all: !enabled, wecom_bot: enabled && !wecom_bot_enabled, email: enabled && !email_enabled }
}

} // verus!
