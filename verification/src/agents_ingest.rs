//! Runs that agents report after running a job offline: what a report must satisfy, and
//! whom the run and its job must belong to.
use vstd::prelude::*;
use vstd::utf8::encode_utf8;
use crate::error::{AppError, STATUS_BAD_REQUEST, plain_error};
use crate::labels::utf8_len_exceeds;
use crate::list_paging::opt_str_view;
use crate::text::{trim, trim_str, str_eq, chars_of};

verus! {

pub const MAX_EVENTS_PER_RUN: usize = 2000;
pub const MAX_ID_LEN: u64 = 128;
pub const MAX_EVENT_LEVEL_LEN: u64 = 16;
pub const MAX_EVENT_KIND_LEN: u64 = 64;
pub const MAX_EVENT_MESSAGE_LEN: u64 = 4096;
pub const MAX_ERROR_LEN: u64 = 4096;

#[derive(Debug)]
pub struct IngestEvent {
    pub seq: i64,
    pub ts: i64,
    pub level: String,
    pub kind: String,
    pub message: String,
}

#[derive(Debug)]
pub struct IngestRun {
    pub id: String,
    pub job_id: String,
    pub started_at: i64,
    pub ended_at: i64,
    pub error: Option<String>,
    pub events: Vec<IngestEvent>,
}

/// Byte length of the UTF-8 encoding.
pub open spec fn byte_len(s: Seq<char>) -> int {
    encode_utf8(s).len() as int
}

/// Events with a positive sequence number are stored: their level, kind and message,
/// trimmed, must be present and short enough. Others are skipped.
pub open spec fn event_ok(ev: IngestEvent) -> bool {
    ev.seq <= 0 || {
        let level = trim(ev.level@);
        let kind = trim(ev.kind@);
        let message = trim(ev.message@);
        &&& level.len() > 0 && kind.len() > 0 && message.len() > 0
        &&& byte_len(level) <= MAX_EVENT_LEVEL_LEN
        &&& byte_len(kind) <= MAX_EVENT_KIND_LEN
        &&& byte_len(message) <= MAX_EVENT_MESSAGE_LEN
    }
}

/// The first rule a report breaks, as error code and message; `None` when it is valid.
pub open spec fn ingest_problem(run: IngestRun) -> Option<(Seq<char>, Seq<char>)> {
    if trim(run.id@).len() == 0 || byte_len(run.id@) > MAX_ID_LEN {
        Some(("invalid_run_id"@, "Run id is required"@))
    } else if trim(run.job_id@).len() == 0 || byte_len(run.job_id@) > MAX_ID_LEN {
        Some(("invalid_job_id"@, "Job id is required"@))
    } else if run.events.len() > MAX_EVENTS_PER_RUN {
        Some(("too_many_events"@, "Too many run events"@))
    } else if run.started_at < 0 {
        Some(("invalid_started_at"@, "started_at is invalid"@))
    } else if run.ended_at < run.started_at {
        Some(("invalid_ended_at"@, "ended_at is invalid"@))
    } else if run.error matches Some(e) && byte_len(e@) > MAX_ERROR_LEN {
        Some(("invalid_error"@, "error is too long"@))
    } else if exists|i: int| 0 <= i < run.events.len() && !event_ok(#[trigger] run.events@[i]) {
        Some(("invalid_event"@, "Invalid run event"@))
    } else {
        None
    }
}

fn blank_or_longer(s: &str, limit: u64) -> (r: bool)
    requires
        limit <= 1_000_000,
    ensures
        r == (trim(s@).len() == 0 || byte_len(s@) > limit),
{
    let v = chars_of(s);
    trim_str(s).unicode_len() == 0 || utf8_len_exceeds(&v, limit)
}

fn empty_or_longer(s: &str, limit: u64) -> (r: bool)
    requires
        limit <= 1_000_000,
    ensures
        r == (s@.len() == 0 || byte_len(s@) > limit),
{
    let v = chars_of(s);
    v.len() == 0 || utf8_len_exceeds(&v, limit)
}

fn event_valid(ev: &IngestEvent) -> (r: bool)
    ensures
        r == event_ok(*ev),
{
    if ev.seq <= 0 {
        return true;
    }
    let level = trim_str(ev.level.as_str());
    let kind = trim_str(ev.kind.as_str());
    let message = trim_str(ev.message.as_str());
    !(empty_or_longer(level, MAX_EVENT_LEVEL_LEN) || empty_or_longer(kind, MAX_EVENT_KIND_LEN)
        || empty_or_longer(message, MAX_EVENT_MESSAGE_LEN))
}

fn all_events_valid(events: &Vec<IngestEvent>) -> (r: bool)
    ensures
        r == (forall|i: int| 0 <= i < events.len() ==> event_ok(#[trigger] events@[i])),
{
    let mut i: usize = 0;
    while i < events.len()
        invariant
            i <= events.len(),
            forall|k: int| 0 <= k < i ==> event_ok(#[trigger] events@[k]),
        decreases events.len() - i,
    {
        if !event_valid(&events[i]) {
            return false;
        }
        i = i + 1;
    }
    true
}

/// Checks a reported run before anything of it is stored.
pub fn validate_ingest_run(run: &IngestRun) -> (r: Result<(), AppError>)
    ensures
        match ingest_problem(*run) {
            None => r is Ok,
            Some((code, message)) => r is Err && plain_error(r->Err_0, STATUS_BAD_REQUEST, code, message),
        },
{
    if blank_or_longer(run.id.as_str(), MAX_ID_LEN) {
        return Err(AppError::bad_request("invalid_run_id", "Run id is required"));
    }
    if blank_or_longer(run.job_id.as_str(), MAX_ID_LEN) {
        return Err(AppError::bad_request("invalid_job_id", "Job id is required"));
    }
    if run.events.len() > MAX_EVENTS_PER_RUN {
        return Err(AppError::bad_request("too_many_events", "Too many run events"));
    }
    if run.started_at < 0 {
        return Err(AppError::bad_request("invalid_started_at", "started_at is invalid"));
    }
    if run.ended_at < run.started_at {
        return Err(AppError::bad_request("invalid_ended_at", "ended_at is invalid"));
    }
    match &run.error {
        Some(e) => {
            let v = chars_of(e.as_str());
            if utf8_len_exceeds(&v, MAX_ERROR_LEN) {
                return Err(AppError::bad_request("invalid_error", "error is too long"));
            }
        },
        None => {},
    }
    if !all_events_valid(&run.events) {
        return Err(AppError::bad_request("invalid_event", "Invalid run event"));
    }
    Ok(())
}

/// The job must exist and be assigned to the reporting agent, and a run id already known
/// must belong to the same job.
pub open spec fn ownership_problem(
    job_agent_id: Option<Option<Seq<char>>>,
    agent_id: Seq<char>,
    existing_run_job_id: Option<Seq<char>>,
    run_job_id: Seq<char>,
) -> Option<(Seq<char>, Seq<char>)> {
    match job_agent_id {
        None => Some(("invalid_job_id"@, "Job not found"@)),
        Some(owner) => if owner != Some(agent_id) {
            Some(("invalid_job_id"@, "Job is not assigned to this Agent"@))
        } else if existing_run_job_id matches Some(j) && j != run_job_id {
            Some(("invalid_run_id"@, "Run id is already associated with a different job"@))
        } else {
            None
        },
    }
}

/// `job_agent_id` is `None` when the job is unknown, else the agent it is assigned to;
/// `existing_run_job_id` is the job of an already stored run with the same id.
pub fn check_ingest_ownership(
    job_agent_id: Option<Option<&str>>,
    agent_id: &str,
    existing_run_job_id: Option<&str>,
    run_job_id: &str,
) -> (r: Result<(), AppError>)
    ensures
        match ownership_problem(
            match job_agent_id {
                Some(o) => Some(opt_str_view(o)),
                None => None,
            },
            agent_id@,
            opt_str_view(existing_run_job_id),
            run_job_id@,
        ) {
            None => r is Ok,
            Some((code, message)) => r is Err && plain_error(r->Err_0, STATUS_BAD_REQUEST, code, message),
        },
{
    let owner = match job_agent_id {
        None => return Err(AppError::bad_request("invalid_job_id", "Job not found")),
        Some(o) => o,
    };
    let owned_by_agent = match owner {
        Some(a) => str_eq(a, agent_id),
        None => false,
    };
    if !owned_by_agent {
        return Err(AppError::bad_request("invalid_job_id", "Job is not assigned to this Agent"));
    }
    match existing_run_job_id {
        Some(j) => {
            if !str_eq(j, run_job_id) {
                return Err(AppError::bad_request("invalid_run_id", "Run id is already associated with a different job"));
            }
        },
        None => {},
    }
    Ok(())
}

} // verus!
