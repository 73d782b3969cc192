//! Recovery readiness: whether the jobs in scope have recent successful backups and
//! verifications, and what stands in the way when they do not.
use vstd::prelude::*;
use crate::command_center::{
    RequestedScope, SectionState, ReadinessOverall, scope_includes, scope_text, job_scope_spec,
    job_scope_string, jobs_scope_href, jobs_scope_href_spec, runs_index_href, runs_index_href_spec,
    run_detail_href, run_detail_href_spec,
};
use crate::list_paging::{opt_view, opt_str_view};
use crate::numfmt::{decimal_int, i64_to_decimal};
use crate::text::{owned, str_eq};

verus! {

#[derive(Debug)]
pub struct ActiveJobRow {
    pub job_id: String,
    pub agent_id: Option<String>,
}

#[derive(Debug)]
pub struct JobSignalRow {
    pub job_id: String,
    pub latest_success_at: Option<i64>,
}

#[derive(Debug)]
pub struct LatestBackupRow {
    pub run_id: String,
    pub job_id: String,
    pub job_name: String,
    pub agent_id: Option<String>,
    pub ended_at: i64,
}

#[derive(Debug)]
pub struct LatestVerifyRow {
    pub operation_id: String,
    pub run_id: String,
    pub job_id: String,
    pub job_name: String,
    pub agent_id: Option<String>,
    pub ended_at: i64,
}

#[derive(Debug)]
pub struct RecoveryReadinessSignal {
    pub recent_success_at: Option<i64>,
    pub recent_run_id: Option<String>,
    pub recent_job_id: Option<String>,
    pub recent_job_name: Option<String>,
    pub recent_operation_id: Option<String>,
    pub active_jobs: i64,
    pub covered_jobs: i64,
}

#[derive(Debug)]
pub struct RecoveryReadinessBlocker {
    pub kind: String,
    pub title: String,
    pub summary: String,
    pub href: String,
}

#[derive(Debug)]
pub struct RecoveryReadiness {
    pub state: SectionState,
    pub overall: ReadinessOverall,
    pub backup: RecoveryReadinessSignal,
    pub verify: RecoveryReadinessSignal,
    pub blockers: Vec<RecoveryReadinessBlocker>,
}

/// The number of active jobs in scope.
pub open spec fn scoped_count(scope: RequestedScope, jobs: Seq<ActiveJobRow>) -> nat
    decreases jobs.len(),
{
    if jobs.len() == 0 {
        0
    } else {
        scoped_count(scope, jobs.drop_last()) + if scope_includes(scope, opt_view(jobs.last().agent_id)) { 1nat } else { 0nat }
    }
}

/// Some active job in scope has this id.
pub open spec fn job_in_scope(scope: RequestedScope, jobs: Seq<ActiveJobRow>, job_id: Seq<char>) -> bool {
    exists|j: int| 0 <= j < jobs.len() && scope_includes(scope, opt_view(#[trigger] jobs[j].agent_id)) && jobs[j].job_id@ == job_id
}

/// The number of signal rows with a success that belong to an active job in scope.
pub open spec fn covered_count(scope: RequestedScope, jobs: Seq<ActiveJobRow>, signals: Seq<JobSignalRow>) -> nat
    decreases signals.len(),
{
    if signals.len() == 0 {
        0
    } else {
        covered_count(scope, jobs, signals.drop_last())
            + if signals.last().latest_success_at is Some && job_in_scope(scope, jobs, signals.last().job_id@) { 1nat } else { 0nat }
    }
}

/// The first row in scope, in the order given (the newest when rows come newest first).
pub open spec fn first_backup(scope: RequestedScope, rows: Seq<LatestBackupRow>) -> Option<LatestBackupRow>
    decreases rows.len(),
{
    if rows.len() == 0 {
        None
    } else if scope_includes(scope, opt_view(rows[0].agent_id)) {
        Some(rows[0])
    } else {
        first_backup(scope, rows.drop_first())
    }
}

pub open spec fn first_verify(scope: RequestedScope, rows: Seq<LatestVerifyRow>) -> Option<LatestVerifyRow>
    decreases rows.len(),
{
    if rows.len() == 0 {
        None
    } else if scope_includes(scope, opt_view(rows[0].agent_id)) {
        Some(rows[0])
    } else {
        first_verify(scope, rows.drop_first())
    }
}

/// A blocker as its kind, title, summary and link.
pub open spec fn blocker_text(b: RecoveryReadinessBlocker) -> (Seq<char>, Seq<char>, Seq<char>, Seq<char>) {
    (b.kind@, b.title@, b.summary@, b.href@)
}

/// The blockers, in order: about backups, about verification, about their order in time.
pub open spec fn readiness_blockers(
    scope: RequestedScope,
    active: int,
    backup_covered: int,
    verify_covered: int,
    backup: Option<LatestBackupRow>,
    verify: Option<LatestVerifyRow>,
) -> Seq<(Seq<char>, Seq<char>, Seq<char>, Seq<char>)> {
    let scope_txt = scope_text(scope);
    let backup_part = if backup is None {
        seq![("missing_backup"@, "No successful backup is available"@,
            "At least one successful backup is required before recovery can be trusted."@,
            jobs_scope_href_spec(scope_txt))]
    } else if backup_covered < active {
        seq![("partial_backup_coverage"@, "Some jobs have never completed successfully"@,
            decimal_int(backup_covered) + " of "@ + decimal_int(active) + " active jobs have a successful backup."@,
            jobs_scope_href_spec(scope_txt))]
    } else {
        seq![]
    };
    let verify_part = if verify is None {
        seq![("missing_verification"@, "Verification signal is missing"@,
            "Backups exist, but no successful verify operation has been recorded for this scope."@,
            runs_index_href_spec(scope_txt))]
    } else if verify_covered < active {
        seq![("partial_verification_coverage"@, "Verification coverage is incomplete"@,
            decimal_int(verify_covered) + " of "@ + decimal_int(active) + " active jobs have a successful verify operation."@,
            runs_index_href_spec(scope_txt))]
    } else {
        seq![]
    };
    let order_part = match (backup, verify) {
        (Some(b), Some(v)) => if v.ended_at < b.ended_at {
            seq![("verify_older_than_backup"@, "Verification is older than the latest backup"@,
                "A newer successful backup exists than the newest successful verify signal."@,
                run_detail_href_spec(b.run_id@, job_scope_spec(opt_view(b.agent_id))))]
        } else {
            seq![]
        },
        _ => seq![],
    };
    backup_part + verify_part + order_part
}

/// A signal with nothing recorded and no jobs.
pub open spec fn is_empty_signal(s: RecoveryReadinessSignal) -> bool {
    &&& s.recent_success_at is None
    &&& s.recent_run_id is None
    &&& s.recent_job_id is None
    &&& s.recent_job_name is None
    &&& s.recent_operation_id is None
    &&& s.active_jobs == 0
    &&& s.covered_jobs == 0
}

pub open spec fn is_backup_signal(s: RecoveryReadinessSignal, b: Option<LatestBackupRow>, active: int, covered: int) -> bool {
    &&& s.recent_success_at == (match b { Some(r) => Some(r.ended_at), None => None })
    &&& opt_view(s.recent_run_id) == (match b { Some(r) => Some(r.run_id@), None => None })
    &&& opt_view(s.recent_job_id) == (match b { Some(r) => Some(r.job_id@), None => None })
    &&& opt_view(s.recent_job_name) == (match b { Some(r) => Some(r.job_name@), None => None })
    &&& s.recent_operation_id is None
    &&& s.active_jobs == active
    &&& s.covered_jobs == covered
}

pub open spec fn is_verify_signal(s: RecoveryReadinessSignal, v: Option<LatestVerifyRow>, active: int, covered: int) -> bool {
    &&& s.recent_success_at == (match v { Some(r) => Some(r.ended_at), None => None })
    &&& opt_view(s.recent_run_id) == (match v { Some(r) => Some(r.run_id@), None => None })
    &&& opt_view(s.recent_job_id) == (match v { Some(r) => Some(r.job_id@), None => None })
    &&& opt_view(s.recent_job_name) == (match v { Some(r) => Some(r.job_name@), None => None })
    &&& opt_view(s.recent_operation_id) == (match v { Some(r) => Some(r.operation_id@), None => None })
    &&& s.active_jobs == active
    &&& s.covered_jobs == covered
}

fn empty_signal() -> (s: RecoveryReadinessSignal)
    ensures
        is_empty_signal(s),
{
    RecoveryReadinessSignal {
        recent_success_at: None,
        recent_run_id: None,
        recent_job_id: None,
        recent_job_name: None,
        recent_operation_id: None,
        active_jobs: 0,
        covered_jobs: 0,
    }
}

/// What a failed assembly of readiness signals stands as.
pub open spec fn is_degraded_readiness(r: RecoveryReadiness) -> bool {
    &&& r.state == SectionState::Degraded
    &&& r.overall == ReadinessOverall::Degraded
    &&& is_empty_signal(r.backup)
    &&& is_empty_signal(r.verify)
    &&& r.blockers@.map_values(|b: RecoveryReadinessBlocker| blocker_text(b)) == seq![(
        "section_unavailable"@, "Recovery readiness is unavailable"@,
        "The server could not assemble readiness signals for this scope."@, "/system/runtime"@)]
}

fn blocker(kind: &str, title: &str, summary: String, href: String) -> (b: RecoveryReadinessBlocker)
    ensures
        blocker_text(b) == (kind@, title@, summary@, href@),
{
    RecoveryReadinessBlocker { kind: owned(kind), title: owned(title), summary, href }
}

/// The readiness that was assembled, or a degraded one in its place when that failed.
pub fn recovery_readiness_or_degraded<E>(result: Result<RecoveryReadiness, E>) -> (r: RecoveryReadiness)
    ensures
        match result {
            Ok(built) => r == built,
            Err(_) => is_degraded_readiness(r),
        },
{
    match result {
        Ok(readiness) => readiness,
        Err(_) => {
            let mut blockers: Vec<RecoveryReadinessBlocker> = Vec::new();
            blockers.push(blocker(
                "section_unavailable",
                "Recovery readiness is unavailable",
                owned("The server could not assemble readiness signals for this scope."),
                owned("/system/runtime"),
            ));
            let r = RecoveryReadiness {
                state: SectionState::Degraded,
                overall: ReadinessOverall::Degraded,
                backup: empty_signal(),
                verify: empty_signal(),
                blockers,
            };
            assert(r.blockers@.map_values(|b: RecoveryReadinessBlocker| blocker_text(b)) =~= seq![(
                "section_unavailable"@, "Recovery readiness is unavailable"@,
                "The server could not assemble readiness signals for this scope."@, "/system/runtime"@)]);
            r
        },
    }
}


fn opt_as_str(s: &Option<String>) -> (r: Option<&str>)
    ensures
        opt_str_view(r) == opt_view(*s),
{
    match s {
        Some(v) => Some(v.as_str()),
        None => None,
    }
}

fn count_scoped(scope: &RequestedScope, jobs: &Vec<ActiveJobRow>) -> (n: usize)
    ensures
        n == scoped_count(*scope, jobs@),
        n <= jobs.len(),
{
    let mut n: usize = 0;
    let mut i: usize = 0;
    while i < jobs.len()
        invariant
            i <= jobs.len(),
            n <= i,
            n == scoped_count(*scope, jobs@.take(i as int)),
        decreases jobs.len() - i,
    {
        assert(jobs@.take(i + 1).drop_last() =~= jobs@.take(i as int));
        if scope.includes_agent(opt_as_str(&jobs[i].agent_id)) {
            n = n + 1;
        }
        i = i + 1;
    }
    assert(jobs@.take(jobs.len() as int) =~= jobs@);
    n
}

fn job_in_scope_exec(scope: &RequestedScope, jobs: &Vec<ActiveJobRow>, job_id: &str) -> (r: bool)
    ensures
        r == job_in_scope(*scope, jobs@, job_id@),
{
    let mut i: usize = 0;
    while i < jobs.len()
        invariant
            i <= jobs.len(),
            forall|j: int| 0 <= j < i ==> !(scope_includes(*scope, opt_view(#[trigger] jobs@[j].agent_id)) && jobs@[j].job_id@ == job_id@),
        decreases jobs.len() - i,
    {
        if scope.includes_agent(opt_as_str(&jobs[i].agent_id)) && str_eq(jobs[i].job_id.as_str(), job_id) {
            return true;
        }
        i = i + 1;
    }
    false
}

fn count_covered(scope: &RequestedScope, jobs: &Vec<ActiveJobRow>, signals: &Vec<JobSignalRow>) -> (n: usize)
    ensures
        n == covered_count(*scope, jobs@, signals@),
        n <= signals.len(),
{
    let mut n: usize = 0;
    let mut i: usize = 0;
    while i < signals.len()
        invariant
            i <= signals.len(),
            n <= i,
            n == covered_count(*scope, jobs@, signals@.take(i as int)),
        decreases signals.len() - i,
    {
        assert(signals@.take(i + 1).drop_last() =~= signals@.take(i as int));
        if signals[i].latest_success_at.is_some() && job_in_scope_exec(scope, jobs, signals[i].job_id.as_str()) {
            n = n + 1;
        }
        i = i + 1;
    }
    assert(signals@.take(signals.len() as int) =~= signals@);
    n
}

fn find_backup(scope: &RequestedScope, rows: &Vec<LatestBackupRow>) -> (r: Option<usize>)
    ensures
        match r {
            Some(i) => i < rows.len() && first_backup(*scope, rows@) == Some(rows@[i as int]),
            None => first_backup(*scope, rows@) is None,
        },
{
    let n = rows.len();
    let mut i: usize = 0;
    assert(rows@.subrange(0, n as int) =~= rows@);
    while i < n
        invariant
            n == rows.len(),
            i <= n,
            first_backup(*scope, rows@) == first_backup(*scope, rows@.subrange(i as int, n as int)),
        decreases n - i,
    {
        let ghost rest = rows@.subrange(i as int, n as int);
        assert(rest[0] == rows@[i as int]);
        if scope.includes_agent(opt_as_str(&rows[i].agent_id)) {
            return Some(i);
        }
        assert(rest.drop_first() =~= rows@.subrange(i + 1, n as int));
        i = i + 1;
    }
    None
}

fn find_verify(scope: &RequestedScope, rows: &Vec<LatestVerifyRow>) -> (r: Option<usize>)
    ensures
        match r {
            Some(i) => i < rows.len() && first_verify(*scope, rows@) == Some(rows@[i as int]),
            None => first_verify(*scope, rows@) is None,
        },
{
    let n = rows.len();
    let mut i: usize = 0;
    assert(rows@.subrange(0, n as int) =~= rows@);
    while i < n
        invariant
            n == rows.len(),
            i <= n,
            first_verify(*scope, rows@) == first_verify(*scope, rows@.subrange(i as int, n as int)),
        decreases n - i,
    {
        let ghost rest = rows@.subrange(i as int, n as int);
        assert(rest[0] == rows@[i as int]);
        if scope.includes_agent(opt_as_str(&rows[i].agent_id)) {
            return Some(i);
        }
        assert(rest.drop_first() =~= rows@.subrange(i + 1, n as int));
        i = i + 1;
    }
    None
}

fn clone_opt(s: Option<&String>) -> (r: Option<String>)
    ensures
        opt_view(r) == (match s { Some(v) => Some(v@), None => None }),
{
    match s {
        Some(v) => Some(v.clone()),
        None => None,
    }
}

/// `r` is the readiness of the jobs in scope: with none, an empty section; otherwise the
/// counts of active and covered jobs, the newest backup and verification in scope, the
/// blockers that follow from them, and a state and overall verdict that are healthy
/// exactly when no blocker stands.
pub open spec fn is_recovery_readiness(
    scope: RequestedScope,
    active_jobs: Seq<ActiveJobRow>,
    backup_signals: Seq<JobSignalRow>,
    verify_signals: Seq<JobSignalRow>,
    latest_backups: Seq<LatestBackupRow>,
    latest_verifies: Seq<LatestVerifyRow>,
    r: RecoveryReadiness,
) -> bool {
    let active = scoped_count(scope, active_jobs) as int;
    let bc = covered_count(scope, active_jobs, backup_signals) as int;
    let vc = covered_count(scope, active_jobs, verify_signals) as int;
    let lb = first_backup(scope, latest_backups);
    let lv = first_verify(scope, latest_verifies);
    let bl = readiness_blockers(scope, active, bc, vc, lb, lv);
    if active == 0 {
        &&& r.state == SectionState::Empty
        &&& r.overall == ReadinessOverall::Empty
        &&& is_empty_signal(r.backup)
        &&& is_empty_signal(r.verify)
        &&& r.blockers.len() == 0
    } else {
        &&& r.blockers@.map_values(|b: RecoveryReadinessBlocker| blocker_text(b)) == bl
        &&& r.state == (if bl.len() == 0 { SectionState::Ready } else { SectionState::Degraded })
        &&& r.overall == (if bl.len() == 0 { ReadinessOverall::Healthy } else { ReadinessOverall::Degraded })
        &&& is_backup_signal(r.backup, lb, active, bc)
        &&& is_verify_signal(r.verify, lv, active, vc)
    }
}

/// The readiness of the jobs in scope: how many are active, how many have a successful
/// backup and verification, the newest of each in scope, and the blockers that follow.
pub fn build_recovery_readiness(
    scope: &RequestedScope,
    active_jobs: &Vec<ActiveJobRow>,
    backup_signals: &Vec<JobSignalRow>,
    verify_signals: &Vec<JobSignalRow>,
    latest_backups: &Vec<LatestBackupRow>,
    latest_verifies: &Vec<LatestVerifyRow>,
) -> (r: RecoveryReadiness)
    requires
        active_jobs.len() <= i64::MAX,
        backup_signals.len() <= i64::MAX,
        verify_signals.len() <= i64::MAX,
    ensures
        is_recovery_readiness(*scope, active_jobs@, backup_signals@, verify_signals@, latest_backups@, latest_verifies@, r),
{
    let active = count_scoped(scope, active_jobs) as i64;
    if active == 0 {
        return RecoveryReadiness {
            state: SectionState::Empty,
            overall: ReadinessOverall::Empty,
            backup: empty_signal(),
            verify: empty_signal(),
            blockers: Vec::new(),
        };
    }
    let backup_covered = count_covered(scope, active_jobs, backup_signals) as i64;
    let verify_covered = count_covered(scope, active_jobs, verify_signals) as i64;
    let bi = find_backup(scope, latest_backups);
    let vi = find_verify(scope, latest_verifies);
    let backup: Option<&LatestBackupRow> = match bi {
        Some(i) => Some(&latest_backups[i]),
        None => None,
    };
    let verify: Option<&LatestVerifyRow> = match vi {
        Some(i) => Some(&latest_verifies[i]),
        None => None,
    };
    let ghost lb = first_backup(*scope, latest_backups@);
    let ghost lv = first_verify(*scope, latest_verifies@);
    let scope_txt = scope.as_str();
    let mut blockers: Vec<RecoveryReadinessBlocker> = Vec::new();
    if backup.is_none() {
        blockers.push(blocker(
            "missing_backup",
            "No successful backup is available",
            owned("At least one successful backup is required before recovery can be trusted."),
            jobs_scope_href(scope_txt.as_str()),
        ));
    } else if backup_covered < active {
        let summary = i64_to_decimal(backup_covered).concat(" of ").concat(i64_to_decimal(active).as_str())
            .concat(" active jobs have a successful backup.");
        blockers.push(blocker(
            "partial_backup_coverage",
            "Some jobs have never completed successfully",
            summary,
            jobs_scope_href(scope_txt.as_str()),
        ));
    }
    let ghost after_backup = blockers@;
    if verify.is_none() {
        blockers.push(blocker(
            "missing_verification",
            "Verification signal is missing",
            owned("Backups exist, but no successful verify operation has been recorded for this scope."),
            runs_index_href(scope_txt.as_str()),
        ));
    } else if verify_covered < active {
        let summary = i64_to_decimal(verify_covered).concat(" of ").concat(i64_to_decimal(active).as_str())
            .concat(" active jobs have a successful verify operation.");
        blockers.push(blocker(
            "partial_verification_coverage",
            "Verification coverage is incomplete",
            summary,
            runs_index_href(scope_txt.as_str()),
        ));
    }
    let ghost after_verify = blockers@;
    match (backup, verify) {
        (Some(b), Some(v)) => {
            if v.ended_at < b.ended_at {
                let agent_scope = job_scope_string(opt_as_str(&b.agent_id));
                blockers.push(blocker(
                    "verify_older_than_backup",
                    "Verification is older than the latest backup",
                    owned("A newer successful backup exists than the newest successful verify signal."),
                    run_detail_href(b.run_id.as_str(), agent_scope.as_str()),
                ));
            }
        },
        _ => {},
    }
    proof {
        let bl = readiness_blockers(*scope, active as int, backup_covered as int, verify_covered as int, lb, lv);
        assert(blockers@.map_values(|b: RecoveryReadinessBlocker| blocker_text(b)) =~= bl);
    }
    let healthy = blockers.len() == 0;
    RecoveryReadiness {
        state: if healthy { SectionState::Ready } else { SectionState::Degraded },
        overall: if healthy { ReadinessOverall::Healthy } else { ReadinessOverall::Degraded },
        backup: RecoveryReadinessSignal {
            recent_success_at: match backup { Some(b) => Some(b.ended_at), None => None },
            recent_run_id: clone_opt(match backup { Some(b) => Some(&b.run_id), None => None }),
            recent_job_id: clone_opt(match backup { Some(b) => Some(&b.job_id), None => None }),
            recent_job_name: clone_opt(match backup { Some(b) => Some(&b.job_name), None => None }),
            recent_operation_id: None,
            active_jobs: active,
            covered_jobs: backup_covered,
        },
        verify: RecoveryReadinessSignal {
            recent_success_at: match verify { Some(v) => Some(v.ended_at), None => None },
            recent_run_id: clone_opt(match verify { Some(v) => Some(&v.run_id), None => None }),
            recent_job_id: clone_opt(match verify { Some(v) => Some(&v.job_id), None => None }),
            recent_job_name: clone_opt(match verify { Some(v) => Some(&v.job_name), None => None }),
            recent_operation_id: clone_opt(match verify { Some(v) => Some(&v.operation_id), None => None }),
            active_jobs: active,
            covered_jobs: verify_covered,
        },
        blockers,
    }
}


/// Readiness without blockers means a successful backup and verification exist, every
/// active job in scope is covered by both, and the verification is no older than the backup.
pub proof fn lemma_no_blockers_means_covered(
    scope: RequestedScope,
    active: int,
    backup_covered: int,
    verify_covered: int,
    backup: Option<LatestBackupRow>,
    verify: Option<LatestVerifyRow>,
)
    requires
        readiness_blockers(scope, active, backup_covered, verify_covered, backup, verify).len() == 0,
    ensures
        backup is Some,
        verify is Some,
        backup_covered >= active,
        verify_covered >= active,
        backup->0.ended_at <= verify->0.ended_at,
{
}

/// No two signal rows speak of the same job, as one row per job reads.
pub open spec fn one_row_per_job(signals: Seq<JobSignalRow>) -> bool {
    forall|i: int, j: int|
        0 <= i < signals.len() && 0 <= j < signals.len() && i != j ==> #[trigger] signals[i].job_id@
            != #[trigger] signals[j].job_id@
}

/// The positions of the signal rows that count as covered.
pub open spec fn covered_positions(scope: RequestedScope, jobs: Seq<ActiveJobRow>, signals: Seq<JobSignalRow>) -> Set<int> {
    Set::new(|i: int| 0 <= i < signals.len() && signals[i].latest_success_at is Some && job_in_scope(scope, jobs, signals[i].job_id@))
}

/// The positions of the active jobs in scope.
pub open spec fn scoped_positions(scope: RequestedScope, jobs: Seq<ActiveJobRow>) -> Set<int> {
    Set::new(|j: int| 0 <= j < jobs.len() && scope_includes(scope, opt_view(jobs[j].agent_id)))
}

proof fn lemma_covered_positions(scope: RequestedScope, jobs: Seq<ActiveJobRow>, signals: Seq<JobSignalRow>)
    ensures
        covered_positions(scope, jobs, signals).finite(),
        covered_positions(scope, jobs, signals).len() == covered_count(scope, jobs, signals),
    decreases signals.len(),
{
    let p = covered_positions(scope, jobs, signals);
    if signals.len() == 0 {
        assert(p =~= Set::<int>::empty());
    } else {
        let rest = signals.drop_last();
        lemma_covered_positions(scope, jobs, rest);
        let q = covered_positions(scope, jobs, rest);
        let last = signals.len() - 1;
        if signals.last().latest_success_at is Some && job_in_scope(scope, jobs, signals.last().job_id@) {
            assert(p =~= q.insert(last));
            assert(!q.contains(last));
        } else {
            assert(p =~= q);
        }
    }
}

proof fn lemma_scoped_positions(scope: RequestedScope, jobs: Seq<ActiveJobRow>)
    ensures
        scoped_positions(scope, jobs).finite(),
        scoped_positions(scope, jobs).len() == scoped_count(scope, jobs),
    decreases jobs.len(),
{
    let p = scoped_positions(scope, jobs);
    if jobs.len() == 0 {
        assert(p =~= Set::<int>::empty());
    } else {
        let rest = jobs.drop_last();
        lemma_scoped_positions(scope, rest);
        let q = scoped_positions(scope, rest);
        let last = jobs.len() - 1;
        if scope_includes(scope, opt_view(jobs.last().agent_id)) {
            assert(p =~= q.insert(last));
            assert(!q.contains(last));
        } else {
            assert(p =~= q);
        }
    }
}

/// With one signal row per job, no more jobs are covered than are active in scope.
pub proof fn lemma_covered_at_most_active(scope: RequestedScope, jobs: Seq<ActiveJobRow>, signals: Seq<JobSignalRow>)
    requires
        one_row_per_job(signals),
    ensures
        covered_count(scope, jobs, signals) <= scoped_count(scope, jobs),
{
    lemma_covered_positions(scope, jobs, signals);
    lemma_scoped_positions(scope, jobs);
    let p = covered_positions(scope, jobs, signals);
    let q = scoped_positions(scope, jobs);
    let signal_id = |i: int| signals[i].job_id@;
    let job_id = |j: int| jobs[j].job_id@;
    let ids = p.map(signal_id);
    let job_ids = q.map(job_id);
    assert(vstd::relations::injective_on(signal_id, p)) by {
        assert forall|a: int, b: int| p.contains(a) && p.contains(b) && #[trigger] signal_id(a) == #[trigger] signal_id(b)
            implies a == b by {
            if a != b {
                assert(signals[a].job_id@ != signals[b].job_id@);
            }
        }
    }
    vstd::set_lib::lemma_map_size(p, ids, signal_id);
    vstd::set_lib::lemma_map_size_bound(q, job_ids, job_id);
    assert(ids.subset_of(job_ids)) by {
        assert forall|x: Seq<char>| ids.contains(x) implies job_ids.contains(x) by {
            let i = choose|i: int| p.contains(i) && signal_id(i) == x;
            assert(job_in_scope(scope, jobs, signals[i].job_id@));
            let j = choose|j: int| 0 <= j < jobs.len() && scope_includes(scope, opt_view(#[trigger] jobs[j].agent_id)) && jobs[j].job_id@ == signals[i].job_id@;
            assert(q.contains(j) && job_id(j) == x);
        }
    }
    vstd::set_lib::lemma_len_subset(ids, job_ids);
}

/// Readiness in brief. With no active job in scope the section is empty and has no
/// blockers. Otherwise both signals count the `n` active jobs in scope, the verdict is
/// healthy exactly when no blocker stands, which is exactly when the section is ready,
/// and (with one signal row per job) neither signal counts more covered jobs than `n`.
pub proof fn law_readiness_summary(
    scope: RequestedScope,
    active_jobs: Seq<ActiveJobRow>,
    backup_signals: Seq<JobSignalRow>,
    verify_signals: Seq<JobSignalRow>,
    latest_backups: Seq<LatestBackupRow>,
    latest_verifies: Seq<LatestVerifyRow>,
    r: RecoveryReadiness,
)
    requires
        is_recovery_readiness(scope, active_jobs, backup_signals, verify_signals, latest_backups, latest_verifies, r),
        one_row_per_job(backup_signals),
        one_row_per_job(verify_signals),
    ensures
        scoped_count(scope, active_jobs) == 0 ==> r.state == SectionState::Empty && r.overall == ReadinessOverall::Empty
            && r.blockers.len() == 0,
        scoped_count(scope, active_jobs) > 0 ==> {
            &&& (r.overall == ReadinessOverall::Healthy <==> r.blockers.len() == 0)
            &&& (r.blockers.len() == 0 <==> r.state == SectionState::Ready)
            &&& r.backup.active_jobs == scoped_count(scope, active_jobs)
            &&& r.verify.active_jobs == scoped_count(scope, active_jobs)
            &&& 0 <= r.backup.covered_jobs <= r.backup.active_jobs
            &&& 0 <= r.verify.covered_jobs <= r.verify.active_jobs
        },
{
    lemma_covered_at_most_active(scope, active_jobs, backup_signals);
    lemma_covered_at_most_active(scope, active_jobs, verify_signals);
    if scoped_count(scope, active_jobs) > 0 {
        let bl = readiness_blockers(
            scope,
            scoped_count(scope, active_jobs) as int,
            covered_count(scope, active_jobs, backup_signals) as int,
            covered_count(scope, active_jobs, verify_signals) as int,
            first_backup(scope, latest_backups),
            first_verify(scope, latest_verifies),
        );
        assert(r.blockers@.map_values(|b: RecoveryReadinessBlocker| blocker_text(b)).len() == r.blockers@.len());
        assert(bl.len() == r.blockers.len());
    }
}

} // verus!
