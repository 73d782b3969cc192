//! Restore and verify operations: the run they start from, what a restore request must hold,
//! where it restores to, and which node carries it out.
use vstd::prelude::*;
use crate::error::{AppError, STATUS_BAD_REQUEST, STATUS_NOT_FOUND, plain_error};
use crate::list_paging::{opt_str_view, blank_to_none, trimmed_non_blank};
use crate::text::{trim, trim_str, str_eq, owned};

verus! {

#[derive(Debug)]
pub enum RestoreDestination {
    LocalFs { node_id: String, directory: String },
    Webdav { base_url: String, secret_name: String, prefix: String },
}

/// A selection must name at least one file or directory that is not blank.
pub open spec fn selection_blank(files: Seq<String>, dirs: Seq<String>) -> bool {
    (forall|i: int| 0 <= i < files.len() ==> trim(#[trigger] files[i]@).len() == 0)
        && (forall|i: int| 0 <= i < dirs.len() ==> trim(#[trigger] dirs[i]@).len() == 0)
}

fn all_blank(v: &Vec<String>) -> (r: bool)
    ensures
        r == (forall|i: int| 0 <= i < v.len() ==> trim(#[trigger] v@[i]@).len() == 0),
{
    let mut i: usize = 0;
    while i < v.len()
        invariant
            i <= v.len(),
            forall|k: int| 0 <= k < i ==> trim(#[trigger] v@[k]@).len() == 0,
        decreases v.len() - i,
    {
        if trim_str(v[i].as_str()).unicode_len() != 0 {
            return false;
        }
        i = i + 1;
    }
    true
}

pub fn check_restore_selection(files: &Vec<String>, dirs: &Vec<String>) -> (r: Result<(), AppError>)
    ensures
        !selection_blank(files@, dirs@) ==> r is Ok,
        selection_blank(files@, dirs@) ==> r is Err && plain_error(r->Err_0, STATUS_BAD_REQUEST, "invalid_selection"@, "restore selection is empty"@),
{
    if all_blank(files) && all_blank(dirs) {
        return Err(AppError::bad_request("invalid_selection", "restore selection is empty"));
    }
    Ok(())
}

/// Where a restore goes and who performs it, after validation: fields trimmed.
#[derive(Debug)]
pub struct RestorePlan {
    pub destination: RestoreDestination,
    pub executor_node_id: String,
}

/// The node a run was made on: its job's agent, or the Hub.
pub open spec fn run_node_spec(job_agent_id: Option<Seq<char>>, hub: Seq<char>) -> Seq<char> {
    match blank_to_none(job_agent_id) {
        Some(a) => a,
        None => hub,
    }
}

/// The first problem of a destination, as the error message; `None` when it is complete.
/// A local destination may only be restored by its own node.
pub open spec fn destination_problem(d: RestoreDestination, executor: Option<Seq<char>>) -> Option<Seq<char>> {
    match d {
        RestoreDestination::LocalFs { node_id, directory } => if trim(node_id@).len() == 0 {
            Some("destination.node_id is required"@)
        } else if trim(directory@).len() == 0 {
            Some("destination.directory is required"@)
        } else if blank_to_none(executor) matches Some(e) && e != trim(node_id@) {
            Some("executor.node_id must match destination.node_id for local_fs destinations"@)
        } else {
            None
        },
        RestoreDestination::Webdav { base_url, secret_name, prefix } => if trim(base_url@).len() == 0 {
            Some("destination.base_url is required"@)
        } else if trim(secret_name@).len() == 0 {
            Some("destination.secret_name is required"@)
        } else if trim(prefix@).len() == 0 {
            Some("destination.prefix is required"@)
        } else {
            None
        },
    }
}

/// The valid plan: trimmed destination fields, and the executor asked for, or else the
/// destination's node (local) or the run's node (WebDAV).
pub open spec fn is_restore_plan(p: RestorePlan, d: RestoreDestination, executor: Option<Seq<char>>, run_node: Seq<char>) -> bool {
    match (d, p.destination) {
        (RestoreDestination::LocalFs { node_id, directory }, RestoreDestination::LocalFs { node_id: n, directory: dir }) => {
            &&& n@ == trim(node_id@)
            &&& dir@ == trim(directory@)
            &&& p.executor_node_id@ == (match blank_to_none(executor) { Some(e) => e, None => trim(node_id@) })
        },
        (
            RestoreDestination::Webdav { base_url, secret_name, prefix },
            RestoreDestination::Webdav { base_url: b, secret_name: s, prefix: x },
        ) => {
            &&& b@ == trim(base_url@)
            &&& s@ == trim(secret_name@)
            &&& x@ == trim(prefix@)
            &&& p.executor_node_id@ == (match blank_to_none(executor) { Some(e) => e, None => run_node })
        },
        _ => false,
    }
}

fn invalid_destination(message: &str) -> (e: AppError)
    ensures
        plain_error(e, STATUS_BAD_REQUEST, "invalid_destination"@, message@),
{
    AppError::bad_request("invalid_destination", message)
}

/// Checks a restore destination against the run's node and picks the executor.
pub fn plan_restore(
    destination: &RestoreDestination,
    executor: Option<&str>,
    job_agent_id: Option<&str>,
    hub_node_id: &str,
) -> (r: Result<RestorePlan, AppError>)
    ensures
        match destination_problem(*destination, opt_str_view(executor)) {
            None => r matches Ok(p) && is_restore_plan(p, *destination, opt_str_view(executor), run_node_spec(opt_str_view(job_agent_id), hub_node_id@)),
            Some(m) => r is Err && plain_error(
                r->Err_0,
                STATUS_BAD_REQUEST,
                if m == "executor.node_id must match destination.node_id for local_fs destinations"@ {
                    "invalid_executor"@
                } else {
                    "invalid_destination"@
                },
                m,
            ),
        },
{
    proof {
        reveal_strlit("executor.node_id must match destination.node_id for local_fs destinations");
        reveal_strlit("destination.node_id is required");
        reveal_strlit("destination.directory is required");
        reveal_strlit("destination.base_url is required");
        reveal_strlit("destination.secret_name is required");
        reveal_strlit("destination.prefix is required");
        assert("executor.node_id must match destination.node_id for local_fs destinations"@[0] != "destination.node_id is required"@[0]);
        assert("executor.node_id must match destination.node_id for local_fs destinations"@[0] != "destination.directory is required"@[0]);
        assert("executor.node_id must match destination.node_id for local_fs destinations"@[0] != "destination.base_url is required"@[0]);
        assert("executor.node_id must match destination.node_id for local_fs destinations"@[0] != "destination.secret_name is required"@[0]);
        assert("executor.node_id must match destination.node_id for local_fs destinations"@[0] != "destination.prefix is required"@[0]);
    }
    let asked = trimmed_non_blank(executor);
    match destination {
        RestoreDestination::LocalFs { node_id, directory } => {
            let n = trim_str(node_id.as_str());
            let d = trim_str(directory.as_str());
            if n.unicode_len() == 0 {
                return Err(invalid_destination("destination.node_id is required"));
            }
            if d.unicode_len() == 0 {
                return Err(invalid_destination("destination.directory is required"));
            }
            let executor_node_id = match asked {
                Some(e) => {
                    if !str_eq(e.as_str(), n) {
                        return Err(AppError::bad_request(
                            "invalid_executor",
                            "executor.node_id must match destination.node_id for local_fs destinations",
                        ));
                    }
                    e
                },
                None => owned(n),
            };
            Ok(RestorePlan {
                destination: RestoreDestination::LocalFs { node_id: owned(n), directory: owned(d) },
                executor_node_id,
            })
        },
        RestoreDestination::Webdav { base_url, secret_name, prefix } => {
            let b = trim_str(base_url.as_str());
            let s = trim_str(secret_name.as_str());
            let x = trim_str(prefix.as_str());
            if b.unicode_len() == 0 {
                return Err(invalid_destination("destination.base_url is required"));
            }
            if s.unicode_len() == 0 {
                return Err(invalid_destination("destination.secret_name is required"));
            }
            if x.unicode_len() == 0 {
                return Err(invalid_destination("destination.prefix is required"));
            }
            let executor_node_id = match asked {
                Some(e) => e,
                None => match trimmed_non_blank(job_agent_id) {
                    Some(a) => a,
                    None => owned(hub_node_id),
                },
            };
            Ok(RestorePlan {
                destination: RestoreDestination::Webdav { base_url: owned(b), secret_name: owned(s), prefix: owned(x) },
                executor_node_id,
            })
        },
    }
}

/// A restore or a verify starts from a run that exists (`Some`) and succeeded (`true`).
pub fn check_source_run(run_succeeded: Option<bool>) -> (r: Result<(), AppError>)
    ensures
        run_succeeded is None ==> r is Err && plain_error(r->Err_0, STATUS_NOT_FOUND, "run_not_found"@, "Run not found"@),
        run_succeeded == Some(false) ==> r is Err && plain_error(r->Err_0, STATUS_BAD_REQUEST, "invalid_run"@, "Run is not successful"@),
        run_succeeded == Some(true) ==> r is Ok,
{
    match run_succeeded {
        None => Err(AppError::not_found("run_not_found", "Run not found")),
        Some(false) => Err(AppError::bad_request("invalid_run", "Run is not successful")),
        Some(true) => Ok(()),
    }
}

} // verus!
