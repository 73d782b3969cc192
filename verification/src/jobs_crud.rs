//! Jobs: the fields a job request must hold (name, schedule time zone, agent), the filters and
//! sort orders of the jobs list, and how a manually triggered run starts.
use vstd::prelude::*;
use crate::error::{AppError, STATUS_BAD_REQUEST, plain_error};
use crate::list_paging::{opt_view, opt_str_view, blank_to_none, trimmed_non_blank};
use crate::text::{trim, trim_start, trim_end, is_ws, trim_str, str_eq, owned};

verus! {

/// The trimmed job name, which must not be blank.
pub fn require_job_name(name: &str) -> (r: Result<&str, AppError>)
    ensures
        trim(name@).len() > 0 ==> (r matches Ok(n) && n@ == trim(name@)),
        trim(name@).len() == 0 ==> r is Err && plain_error(r->Err_0, STATUS_BAD_REQUEST, "invalid_name"@, "Job name is required"@),
{
    let n = trim_str(name);
    if n.unicode_len() == 0 {
        return Err(AppError::bad_request("invalid_name", "Job name is required"));
    }
    Ok(n)
}

/// Whether the name is one of the time zones that `chrono_tz` was built with, written exactly.
pub uninterp spec fn tz_database_name(name: Seq<char>) -> bool;

/// Parses the name as a `chrono_tz::Tz`. The crate's `FromStr` looks the text up, as it
/// stands, among the IANA zone names compiled into it; which names those are is not spelled
/// out here: the answer is named `tz_database_name` of the text.
#[verifier::external_body]
fn parses_as_time_zone(name: &str) -> (r: bool)
    ensures
        r == tz_database_name(name@),
{
    name.parse::<chrono_tz::Tz>().is_ok()
}

/// The zone a job asks for: the given one trimmed, or the default when it is absent or blank,
/// trimmed as well.
pub open spec fn chosen_time_zone(value: Option<Seq<char>>, default: Seq<char>) -> Seq<char> {
    trim(match blank_to_none(value) {
        Some(v) => v,
        None => default,
    })
}

/// The job's schedule time zone: the chosen name, which must name a known zone.
pub fn normalize_timezone(value: Option<&str>, default: &str) -> (r: Result<String, AppError>)
    ensures
        tz_database_name(chosen_time_zone(opt_str_view(value), default@))
            ==> (r matches Ok(z) && z@ == chosen_time_zone(opt_str_view(value), default@)),
        !tz_database_name(chosen_time_zone(opt_str_view(value), default@))
            ==> r is Err && plain_error(r->Err_0, STATUS_BAD_REQUEST, "invalid_timezone"@, "Invalid schedule timezone"@),
{
    let v = match trimmed_non_blank(value) {
        Some(v) => v,
        None => owned(default),
    };
    let t = trim_str(v.as_str());
    if parses_as_time_zone(t) {
        Ok(owned(t))
    } else {
        Err(AppError::bad_request("invalid_timezone", "Invalid schedule timezone"))
    }
}

/// The trimmed text, or `None` when absent or blank.
pub fn normalize_optional_string(value: Option<&str>) -> (r: Option<String>)
    ensures
        opt_view(r) == blank_to_none(opt_str_view(value)),
{
    trimmed_non_blank(value)
}

/// The trimmed search text, or `None` when absent or blank.
pub fn normalize_search_query(value: Option<&str>) -> (r: Option<String>)
    ensures
        opt_view(r) == blank_to_none(opt_str_view(value)),
{
    trimmed_non_blank(value)
}

#[derive(Debug)]
pub enum JobNodeFilter {
    Any,
    Hub,
    Agent(String),
}

/// Absent, blank or "all" is any node; "hub" is the Hub; anything else names an agent.
pub open spec fn node_filter_spec(f: JobNodeFilter, raw: Option<Seq<char>>) -> bool {
    match blank_to_none(raw) {
        None => f is Any,
        Some(v) => if v == "hub"@ {
            f is Hub
        } else if v == "all"@ {
            f is Any
        } else {
            f matches JobNodeFilter::Agent(a) && a@ == v
        },
    }
}

pub fn parse_node_filter(value: Option<&str>) -> (r: JobNodeFilter)
    ensures
        node_filter_spec(r, opt_str_view(value)),
{
    match trimmed_non_blank(value) {
        None => JobNodeFilter::Any,
        Some(v) => {
            if str_eq(v.as_str(), "hub") {
                JobNodeFilter::Hub
            } else if str_eq(v.as_str(), "all") {
                JobNodeFilter::Any
            } else {
                JobNodeFilter::Agent(v)
            }
        },
    }
}

#[derive(Debug, Clone, Copy, PartialEq, Eq, Structural)]
pub enum JobScheduleModeFilter {
    All,
    Manual,
    Scheduled,
}

pub open spec fn schedule_mode_spec(raw: Option<Seq<char>>) -> Option<JobScheduleModeFilter> {
    let v = match blank_to_none(raw) {
        Some(v) => v,
        None => "all"@,
    };
    if v == "all"@ {
        Some(JobScheduleModeFilter::All)
    } else if v == "manual"@ {
        Some(JobScheduleModeFilter::Manual)
    } else if v == "scheduled"@ {
        Some(JobScheduleModeFilter::Scheduled)
    } else {
        None
    }
}

pub fn parse_schedule_mode_filter(value: Option<&str>) -> (r: Result<JobScheduleModeFilter, AppError>)
    ensures
        match schedule_mode_spec(opt_str_view(value)) {
            Some(m) => r == Ok::<JobScheduleModeFilter, AppError>(m),
            None => r is Err && plain_error(r->Err_0, STATUS_BAD_REQUEST, "invalid_schedule_mode"@, "Invalid schedule_mode"@),
        },
{
    let t = trimmed_non_blank(value);
    let v: &str = match &t {
        Some(s) => s.as_str(),
        None => "all",
    };
    if str_eq(v, "all") {
        Ok(JobScheduleModeFilter::All)
    } else if str_eq(v, "manual") {
        Ok(JobScheduleModeFilter::Manual)
    } else if str_eq(v, "scheduled") {
        Ok(JobScheduleModeFilter::Scheduled)
    } else {
        Err(AppError::bad_request("invalid_schedule_mode", "Invalid schedule_mode"))
    }
}

#[derive(Debug, Clone, Copy, PartialEq, Eq, Structural)]
pub enum JobSort {
    UpdatedDesc,
    UpdatedAsc,
    NameAsc,
    NameDesc,
}

pub open spec fn jobs_sort_spec(raw: Option<Seq<char>>) -> Option<JobSort> {
    let v = match blank_to_none(raw) {
        Some(v) => v,
        None => "updated_desc"@,
    };
    if v == "updated_desc"@ {
        Some(JobSort::UpdatedDesc)
    } else if v == "updated_asc"@ {
        Some(JobSort::UpdatedAsc)
    } else if v == "name_asc"@ {
        Some(JobSort::NameAsc)
    } else if v == "name_desc"@ {
        Some(JobSort::NameDesc)
    } else {
        None
    }
}

pub fn parse_jobs_sort(value: Option<&str>) -> (r: Result<JobSort, AppError>)
    ensures
        match jobs_sort_spec(opt_str_view(value)) {
            Some(s) => r == Ok::<JobSort, AppError>(s),
            None => r is Err && plain_error(r->Err_0, STATUS_BAD_REQUEST, "invalid_sort"@, "Invalid sort"@),
        },
{
    let t = trimmed_non_blank(value);
    let v: &str = match &t {
        Some(s) => s.as_str(),
        None => "updated_desc",
    };
    if str_eq(v, "updated_desc") {
        Ok(JobSort::UpdatedDesc)
    } else if str_eq(v, "updated_asc") {
        Ok(JobSort::UpdatedAsc)
    } else if str_eq(v, "name_asc") {
        Ok(JobSort::NameAsc)
    } else if str_eq(v, "name_desc") {
        Ok(JobSort::NameDesc)
    } else {
        Err(AppError::bad_request("invalid_sort", "Invalid sort"))
    }
}

/// How a manually triggered run starts: rejected at once when the job rejects overlapping
/// runs and one is running or queued, else queued.
#[derive(Debug)]
pub struct ManualRun {
    pub rejected: bool,
    pub ended_at: Option<i64>,
    pub error: Option<String>,
    pub event_kind: String,
}

pub fn plan_manual_run(rejects_overlap: bool, running_or_queued: i64, now: i64) -> (r: ManualRun)
    ensures
        r.rejected == (rejects_overlap && running_or_queued > 0),
        r.rejected ==> r.ended_at == Some(now) && opt_view(r.error) == Some("overlap_rejected"@)
            && r.event_kind@ == "rejected"@,
        !r.rejected ==> r.ended_at is None && r.error is None && r.event_kind@ == "queued"@,
{
    if rejects_overlap && running_or_queued > 0 {
        ManualRun { rejected: true, ended_at: Some(now), error: Some(owned("overlap_rejected")), event_kind: owned("rejected") }
    } else {
        ManualRun { rejected: false, ended_at: None, error: None, event_kind: owned("queued") }
    }
}

/// The plain fields of a job as a create or update request gives them, normalized.
#[derive(Debug)]
pub struct JobForm {
    pub name: String,
    pub schedule: Option<String>,
    pub schedule_timezone: String,
    pub agent_id: Option<String>,
}

/// Reads the plain fields of a job request in the order the Hub checks them: the name, then
/// the schedule and its time zone (the Hub's zone by default), then the agent.
pub fn job_form(
    name: &str,
    schedule: Option<&str>,
    schedule_timezone: Option<&str>,
    agent_id: Option<&str>,
    hub_timezone: &str,
) -> (r: Result<JobForm, AppError>)
    ensures
        trim(name@).len() == 0 ==> r is Err && plain_error(r->Err_0, STATUS_BAD_REQUEST, "invalid_name"@, "Job name is required"@),
        trim(name@).len() > 0 && !tz_database_name(chosen_time_zone(opt_str_view(schedule_timezone), hub_timezone@))
            ==> r is Err && plain_error(r->Err_0, STATUS_BAD_REQUEST, "invalid_timezone"@, "Invalid schedule timezone"@),
        trim(name@).len() > 0 && tz_database_name(chosen_time_zone(opt_str_view(schedule_timezone), hub_timezone@))
            ==> (r matches Ok(f) && f.name@ == trim(name@)
                && opt_view(f.schedule) == blank_to_none(opt_str_view(schedule))
                && f.schedule_timezone@ == chosen_time_zone(opt_str_view(schedule_timezone), hub_timezone@)
                && opt_view(f.agent_id) == blank_to_none(opt_str_view(agent_id))),
{
    let n = match require_job_name(name) {
        Ok(n) => owned(n),
        Err(e) => { return Err(e); },
    };
    let sched = normalize_optional_string(schedule);
    let tz = match normalize_timezone(schedule_timezone, hub_timezone) {
        Ok(z) => z,
        Err(e) => { return Err(e); },
    };
    let agent = normalize_optional_string(agent_id);
    Ok(JobForm { name: n, schedule: sched, schedule_timezone: tz, agent_id: agent })
}

/// The agent a job names, as looked up: `None` when the job names none; else whether it was
/// found and, if so, whether it is revoked.
pub fn check_job_agent(agent: Option<Option<bool>>) -> (r: Result<(), AppError>)
    ensures
        agent is None ==> r is Ok,
        agent == Some(None::<bool>) ==> r is Err && plain_error(r->Err_0, STATUS_BAD_REQUEST, "invalid_agent_id"@, "Agent not found"@),
        agent == Some(Some(true)) ==> r is Err && plain_error(r->Err_0, STATUS_BAD_REQUEST, "invalid_agent_id"@, "Agent is revoked"@),
        agent == Some(Some(false)) ==> r is Ok,
{
    match agent {
        None => Ok(()),
        Some(None) => Err(AppError::bad_request("invalid_agent_id", "Agent not found")),
        Some(Some(true)) => Err(AppError::bad_request("invalid_agent_id", "Agent is revoked")),
        Some(Some(false)) => Ok(()),
    }
}

/// A new job takes the Hub's default retention when its spec is an object without one and
/// the default is enabled.
pub fn inherits_default_retention(spec_is_object: bool, spec_has_retention: bool, default_enabled: bool) -> (r: bool)
    ensures
        r == (spec_is_object && !spec_has_retention && default_enabled),
{
    spec_is_object && !spec_has_retention && default_enabled
}

/// The agents to send a fresh config to after a job changed: the one it was on, then the one
/// it is on now when that is another.
pub fn agents_to_refresh(previous: Option<String>, current: Option<String>) -> (r: Vec<String>)
    ensures
        r@.map_values(|a: String| a@) == (match (opt_view(previous), opt_view(current)) {
            (None, None) => seq![],
            (Some(p), None) => seq![p],
            (None, Some(c)) => seq![c],
            (Some(p), Some(c)) => if p == c { seq![p] } else { seq![p, c] },
        }),
{
    let mut out: Vec<String> = Vec::new();
    match previous {
        Some(p) => {
            match current {
                Some(c) => {
                    let same = str_eq(p.as_str(), c.as_str());
                    out.push(p);
                    if !same {
                        out.push(c);
                    }
                },
                None => { out.push(p); },
            }
        },
        None => {
            match current {
                Some(c) => { out.push(c); },
                None => {},
            }
        },
    }
    proof {
        assert(out@.map_values(|a: String| a@) =~= (match (opt_view(previous), opt_view(current)) {
            (None, None) => seq![],
            (Some(p), None) => seq![p],
            (None, Some(c)) => seq![c],
            (Some(p), Some(c)) => if p == c { seq![p] } else { seq![p, c] },
        }));
    }
    out
}

/// What a sort orders jobs by: `updated` or `name`.
pub open spec fn sort_field_word(s: JobSort) -> Seq<char> {
    match s {
        JobSort::UpdatedDesc | JobSort::UpdatedAsc => "updated"@,
        JobSort::NameAsc | JobSort::NameDesc => "name"@,
    }
}

/// Which way a sort runs: `asc` or `desc`.
pub open spec fn sort_dir_word(s: JobSort) -> Seq<char> {
    match s {
        JobSort::UpdatedDesc | JobSort::NameDesc => "desc"@,
        JobSort::UpdatedAsc | JobSort::NameAsc => "asc"@,
    }
}

/// The text that asks for a sort: `<field>_<direction>`.
pub open spec fn sort_text(s: JobSort) -> Seq<char> {
    sort_field_word(s) + "_"@ + sort_dir_word(s)
}

proof fn lemma_sort_texts()
    ensures
        sort_text(JobSort::UpdatedDesc) == "updated_desc"@,
        sort_text(JobSort::UpdatedAsc) == "updated_asc"@,
        sort_text(JobSort::NameAsc) == "name_asc"@,
        sort_text(JobSort::NameDesc) == "name_desc"@,
{
    reveal_strlit("updated");
    reveal_strlit("name");
    reveal_strlit("asc");
    reveal_strlit("desc");
    reveal_strlit("_");
    reveal_strlit("updated_desc");
    reveal_strlit("updated_asc");
    reveal_strlit("name_asc");
    reveal_strlit("name_desc");
    assert(sort_text(JobSort::UpdatedDesc) =~= "updated_desc"@);
    assert(sort_text(JobSort::UpdatedAsc) =~= "updated_asc"@);
    assert(sort_text(JobSort::NameAsc) =~= "name_asc"@);
    assert(sort_text(JobSort::NameDesc) =~= "name_desc"@);
}

/// The sort a text asks for is the one it names: an accepted (trimmed) text is exactly the
/// `<field>_<direction>` of the sort it gives, and no text gives the newest-first default
/// unless it names it or is blank. So two texts that give the same sort are the same text,
/// and asking for names A to Z never lists them Z to A.
pub proof fn law_jobs_sort_is_what_the_text_names(raw: Option<Seq<char>>, s: JobSort)
    requires
        jobs_sort_spec(raw) == Some(s),
    ensures
        blank_to_none(raw) matches Some(t) ==> t == sort_text(s),
        blank_to_none(raw) is None ==> s == JobSort::UpdatedDesc,
{
    lemma_sort_texts();
}

/// Every sort is given by its own text, and only by it (up to surrounding blanks).
pub proof fn law_jobs_sort_texts_round_trip(s: JobSort, raw: Option<Seq<char>>)
    ensures
        jobs_sort_spec(Some(sort_text(s))) == Some(s),
        jobs_sort_spec(raw) == Some(s) && blank_to_none(raw) is Some ==> blank_to_none(raw) == Some(sort_text(s)),
{
    lemma_sort_texts();
    let t = sort_text(s);
    assert(t.len() > 0 && !is_ws(t[0]) && !is_ws(t.last())) by {
        reveal_strlit("updated_desc");
        reveal_strlit("updated_asc");
        reveal_strlit("name_asc");
        reveal_strlit("name_desc");
    }
    assert(trim(t) == t);
    reveal_strlit("updated_desc");
    reveal_strlit("updated_asc");
    reveal_strlit("name_asc");
    reveal_strlit("name_desc");
    assert("updated_desc"@.len() != "updated_asc"@.len());
    assert("name_asc"@.len() != "name_desc"@.len());
    assert("updated_desc"@[0] != "name_asc"@[0]);
    assert("updated_desc"@.len() != "name_desc"@.len() || "updated_desc"@[0] != "name_desc"@[0]);
    assert("updated_asc"@[0] != "name_asc"@[0] && "updated_asc"@[0] != "name_desc"@[0]);
}

} // verus!
