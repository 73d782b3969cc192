//! Progress stages that agents report for a run, recorded once per change.
use vstd::prelude::*;
use crate::list_paging::opt_str_view;
use crate::text::{trim, trim_str, str_eq};

verus! {

/// The stages a run reports: scanning, packaging, uploading.
pub open spec fn is_stage_kind(s: Seq<char>) -> bool {
    s == "scan"@ || s == "packaging"@ || s == "upload"@
}

/// The trimmed stage when it is a known one.
pub fn normalize_stage(stage: &str) -> (r: Option<&str>)
    ensures
        is_stage_kind(trim(stage@)) ==> (r matches Some(s) && s@ == trim(stage@)),
        !is_stage_kind(trim(stage@)) ==> r is None,
{
    let s = trim_str(stage);
    if str_eq(s, "scan") || str_eq(s, "packaging") || str_eq(s, "upload") {
        Some(s)
    } else {
        None
    }
}

/// The stage event to record: a known stage that differs from the last one recorded for
/// the run (the same stage reported again is not recorded twice).
pub fn stage_event_to_record<'a>(last_recorded: Option<&str>, stage: &'a str) -> (r: Option<&'a str>)
    ensures
        match r {
            Some(s) => is_stage_kind(trim(stage@)) && s@ == trim(stage@) && opt_str_view(last_recorded) != Some(s@),
            None => !is_stage_kind(trim(stage@)) || opt_str_view(last_recorded) == Some(trim(stage@)),
        },
{
    match normalize_stage(stage) {
        None => None,
        Some(s) => match last_recorded {
            Some(last) => {
                if str_eq(last, s) {
                    None
                } else {
                    Some(s)
                }
            },
            None => Some(s),
        },
    }
}

} // verus!
