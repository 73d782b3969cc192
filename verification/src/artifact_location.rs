//! Where a run's artifacts are read from when an agent asks the Hub to stream them: the run
//! must have succeeded, and its job's target must say where the artifacts live.
use vstd::prelude::*;
use crate::list_paging::{opt_str_view, trimmed_non_blank};
use crate::operations::run_node_spec;
use crate::text::{trim, trim_str, str_eq, owned};

verus! {

/// A stream names an artifact; a blank name is refused. Returns the name trimmed.
pub fn require_artifact(artifact: &str) -> (r: Result<String, String>)
    ensures
        trim(artifact@).len() == 0 ==> (r matches Err(e) && e@ == "artifact is required"@),
        trim(artifact@).len() > 0 ==> (r matches Ok(a) && a@ == trim(artifact@)),
{
    let a = trim_str(artifact);
    if a.unicode_len() == 0 {
        return Err(owned("artifact is required"));
    }
    Ok(owned(a))
}

/// The run whose artifacts are streamed exists (`Some`) and succeeded (`true`).
pub fn check_artifact_run(run_succeeded: Option<bool>) -> (r: Result<(), String>)
    ensures
        run_succeeded is None ==> (r matches Err(e) && e@ == "run not found"@),
        run_succeeded == Some(false) ==> (r matches Err(e) && e@ == "run is not successful"@),
        run_succeeded == Some(true) ==> r is Ok,
{
    match run_succeeded {
        None => Err(owned("run not found")),
        Some(false) => Err(owned("run is not successful")),
        Some(true) => Ok(()),
    }
}

/// The target of the run's job, as its spec gives it.
#[derive(Debug)]
pub enum ArtifactTarget {
    Webdav { base_url: String, secret_name: String },
    LocalDir { base_dir: String },
}

/// Where the artifacts live, once the target is checked: fields trimmed, with the node the run
/// was made on.
#[derive(Debug)]
pub enum ArtifactLocation {
    Webdav { node_id: String, base_url: String, secret_name: String },
    LocalDir { node_id: String, base_dir: String },
}

/// The artifacts' location from the job's agent (the Hub when none) and target; a WebDAV
/// target needs a credential name and a local one a base directory.
pub fn artifacts_location(job_agent_id: Option<&str>, hub_node_id: &str, target: &ArtifactTarget) -> (r: Result<ArtifactLocation, String>)
    ensures
        match target {
            ArtifactTarget::Webdav { base_url, secret_name } => if trim(secret_name@).len() == 0 {
                r matches Err(e) && e@ == "webdav.secret_name is required"@
            } else {
                r matches Ok(ArtifactLocation::Webdav { node_id: n, base_url: b, secret_name: s })
                    && n@ == run_node_spec(opt_str_view(job_agent_id), hub_node_id@)
                    && b@ == trim(base_url@) && s@ == trim(secret_name@)
            },
            ArtifactTarget::LocalDir { base_dir } => if trim(base_dir@).len() == 0 {
                r matches Err(e) && e@ == "local_dir.base_dir is required"@
            } else {
                r matches Ok(ArtifactLocation::LocalDir { node_id: n, base_dir: d })
                    && n@ == run_node_spec(opt_str_view(job_agent_id), hub_node_id@) && d@ == trim(base_dir@)
            },
        },
{
    let node = match trimmed_non_blank(job_agent_id) {
        Some(a) => a,
        None => owned(hub_node_id),
    };
    match target {
        ArtifactTarget::Webdav { base_url, secret_name } => {
            let s = trim_str(secret_name.as_str());
            if s.unicode_len() == 0 {
                return Err(owned("webdav.secret_name is required"));
            }
            Ok(ArtifactLocation::Webdav { node_id: node, base_url: owned(trim_str(base_url.as_str())), secret_name: owned(s) })
        },
        ArtifactTarget::LocalDir { base_dir } => {
            let d = trim_str(base_dir.as_str());
            if d.unicode_len() == 0 {
                return Err(owned("local_dir.base_dir is required"));
            }
            Ok(ArtifactLocation::LocalDir { node_id: node, base_dir: owned(d) })
        },
    }
}

/// Who serves the bytes: the Hub from its own disk, the agent that holds them, or WebDAV.
#[derive(Debug, Clone, Copy, PartialEq, Eq, Structural)]
pub enum ArtifactSource {
    HubDisk,
    Agent,
    Webdav,
}

pub fn artifact_source(location: &ArtifactLocation, hub_node_id: &str) -> (r: ArtifactSource)
    ensures
        r == (match location {
            ArtifactLocation::Webdav { .. } => ArtifactSource::Webdav,
            ArtifactLocation::LocalDir { node_id, .. } => if node_id@ == hub_node_id@ {
                ArtifactSource::HubDisk
            } else {
                ArtifactSource::Agent
            },
        }),
{
    match location {
        ArtifactLocation::Webdav { .. } => ArtifactSource::Webdav,
        ArtifactLocation::LocalDir { node_id, .. } => {
            if str_eq(node_id.as_str(), hub_node_id) {
                ArtifactSource::HubDisk
            } else {
                ArtifactSource::Agent
            }
        },
    }
}

} // verus!
