//! Whether an agent may open an artifact stream: the request must name an operation and a
//! run, and the operation must be an open restore task of that agent for that run.
use vstd::prelude::*;
use crate::text::{trim, trim_str, str_eq, owned};

verus! {

/// The error an agent is told when a stream is refused.
pub const ARTIFACT_STREAM_AUTH_ERROR: &'static str = "artifact stream authorization failed";

/// The operation and run that a stream request names, trimmed; both are required.
pub fn stream_open_request_ids(op_id: &str, run_id: &str) -> (r: Result<(String, String), String>)
    ensures
        trim(op_id@).len() == 0 ==> (r matches Err(e) && e@ == "op_id is required"@),
        trim(op_id@).len() > 0 && trim(run_id@).len() == 0 ==> (r matches Err(e) && e@ == "run_id is required"@),
        trim(op_id@).len() > 0 && trim(run_id@).len() > 0 ==> (r matches Ok((o, u)) && o@ == trim(op_id@)
            && u@ == trim(run_id@)),
{
    let o = trim_str(op_id);
    if o.unicode_len() == 0 {
        return Err(owned("op_id is required"));
    }
    let u = trim_str(run_id);
    if u.unicode_len() == 0 {
        return Err(owned("run_id is required"));
    }
    Ok((owned(o), owned(u)))
}

/// What the stored task message is, as far as streams care.
#[derive(Debug)]
pub enum StreamTaskPayload {
    /// The stored message could not be read.
    Invalid,
    /// A restore task: its task id and the operation and run it names.
    Restore { task_id: String, op_id: String, run_id: String },
    /// Any other task.
    Other,
}

/// The agent's task stored under the operation id.
#[derive(Debug)]
pub struct StreamTask {
    pub completed: bool,
    pub run_id: String,
    pub payload: StreamTaskPayload,
}

/// Why the task does not allow the stream, checked in this order; `None` when it does.
pub open spec fn stream_task_problem(op_id: Seq<char>, run_id: Seq<char>, task: Option<StreamTask>) -> Option<Seq<char>> {
    match task {
        None => Some("task not found for agent"@),
        Some(t) => if t.completed {
            Some("task already completed"@)
        } else if trim(t.run_id@) != run_id {
            Some("task run mismatch"@)
        } else {
            match t.payload {
                StreamTaskPayload::Invalid => Some("invalid task payload"@),
                StreamTaskPayload::Other => Some("task payload does not allow artifact stream"@),
                StreamTaskPayload::Restore { task_id, op_id: p_op, run_id: p_run } => if task_id@ != op_id {
                    Some("task id mismatch"@)
                } else if trim(p_op@) != op_id {
                    Some("task op_id mismatch"@)
                } else if trim(p_run@) != run_id {
                    Some("task payload run mismatch"@)
                } else {
                    None
                },
            }
        },
    }
}

pub open spec fn task_opt(task: Option<&StreamTask>) -> Option<StreamTask> {
    match task {
        Some(t) => Some(*t),
        None => None,
    }
}

/// Checks the task found for the (trimmed) operation id and this agent against the request.
pub fn check_stream_task(op_id: &str, run_id: &str, task: Option<&StreamTask>) -> (r: Result<(), String>)
    ensures
        match stream_task_problem(op_id@, run_id@, task_opt(task)) {
            None => r is Ok,
            Some(m) => r matches Err(e) && e@ == m,
        },
{
    let t = match task {
        Some(t) => t,
        None => { return Err(owned("task not found for agent")); },
    };
    if t.completed {
        return Err(owned("task already completed"));
    }
    if !str_eq(trim_str(t.run_id.as_str()), run_id) {
        return Err(owned("task run mismatch"));
    }
    match &t.payload {
        StreamTaskPayload::Invalid => Err(owned("invalid task payload")),
        StreamTaskPayload::Other => Err(owned("task payload does not allow artifact stream")),
        StreamTaskPayload::Restore { task_id, op_id: p_op, run_id: p_run } => {
            if !str_eq(task_id.as_str(), op_id) {
                return Err(owned("task id mismatch"));
            }
            if !str_eq(trim_str(p_op.as_str()), op_id) {
                return Err(owned("task op_id mismatch"));
            }
            if !str_eq(trim_str(p_run.as_str()), run_id) {
                return Err(owned("task payload run mismatch"));
            }
            Ok(())
        },
    }
}

} // verus!
