//! The command center's sections: candidate items from loaded rows, filtered by scope,
//! ordered, and cut to size.
use vstd::prelude::*;
use crate::command_center::{
    RequestedScope, Severity, SectionState, scope_includes, severity_rank, severity_rank_spec,
    activity_rank, activity_rank_spec, job_scope_spec, job_scope_string, node_id_spec,
    node_id_for_agent, node_name_spec, node_name_for_agent, scope_label_spec,
    scope_label_from_agent, run_detail_href, run_detail_href_spec, jobs_scope_href,
    jobs_scope_href_spec, fleet_href, fleet_href_spec, notifications_queue_href,
    notifications_queue_href_spec, run_suffix_spec, activity_suffix_for_run,
    operation_suffix_spec, activity_suffix_for_operation,
};
use crate::list_paging::opt_view;
use crate::select::{select_ranked, is_top_selection};
use crate::text::{owned, str_eq, has_infix};

verus! {

#[derive(Debug)]
pub struct CommandCenterAction {
    pub label: String,
    pub href: String,
}

#[derive(Debug)]
pub struct CommandCenterItemContext {
    pub run_id: Option<String>,
    pub job_id: Option<String>,
    pub job_name: Option<String>,
    pub node_id: Option<String>,
    pub node_name: Option<String>,
    pub operation_id: Option<String>,
    pub notification_id: Option<String>,
    pub channel: Option<String>,
    pub status: Option<String>,
    pub error: Option<String>,
}

#[derive(Debug)]
pub struct CommandCenterItem {
    pub id: String,
    pub kind: String,
    pub severity: Severity,
    pub title: String,
    pub summary: String,
    pub occurred_at: i64,
    pub scope: String,
    pub context: CommandCenterItemContext,
    pub primary_action: CommandCenterAction,
    pub secondary_action: Option<CommandCenterAction>,
}

#[derive(Debug)]
pub struct CommandCenterSection {
    pub state: SectionState,
    pub items: Vec<CommandCenterItem>,
    pub note: Option<String>,
}

/// A failed or rejected run.
#[derive(Debug)]
pub struct AttentionRunRow {
    pub run_id: String,
    pub job_id: String,
    pub job_name: String,
    pub agent_id: Option<String>,
    pub agent_name: Option<String>,
    pub status: String,
    pub occurred_at: i64,
    pub error: Option<String>,
}

/// A notification (failed or still queued) and the run it is about.
#[derive(Debug)]
pub struct NotificationFailureRow {
    pub notification_id: String,
    pub run_id: String,
    pub job_id: String,
    pub job_name: String,
    pub agent_id: Option<String>,
    pub agent_name: Option<String>,
    pub channel: String,
    pub occurred_at: i64,
    pub error: Option<String>,
}

/// A revoked or silent agent.
#[derive(Debug)]
pub struct AgentIssueRow {
    pub agent_id: String,
    pub agent_name: Option<String>,
    pub revoked_at: Option<i64>,
    pub last_seen_at: Option<i64>,
    pub created_at: i64,
}

#[derive(Debug)]
pub struct ActivityRunRow {
    pub run_id: String,
    pub job_id: String,
    pub job_name: String,
    pub agent_id: Option<String>,
    pub agent_name: Option<String>,
    pub status: String,
    pub started_at: i64,
    pub ended_at: Option<i64>,
    pub error: Option<String>,
}

#[derive(Debug)]
pub struct ActivityOperationRow {
    pub operation_id: String,
    pub kind: String,
    pub status: String,
    pub run_id: String,
    pub job_id: String,
    pub job_name: String,
    pub agent_id: Option<String>,
    pub agent_name: Option<String>,
    pub started_at: i64,
    pub ended_at: Option<i64>,
    pub error: Option<String>,
}

pub open spec fn some_view(s: String) -> Option<Seq<char>> {
    Some(s@)
}

/// The context fields, each compared by its text.
pub open spec fn context_is(
    c: CommandCenterItemContext,
    run_id: Option<Seq<char>>,
    job_id: Option<Seq<char>>,
    job_name: Option<Seq<char>>,
    node_id: Option<Seq<char>>,
    node_name: Option<Seq<char>>,
    operation_id: Option<Seq<char>>,
    notification_id: Option<Seq<char>>,
    channel: Option<Seq<char>>,
    status: Option<Seq<char>>,
    error: Option<Seq<char>>,
) -> bool {
    &&& opt_view(c.run_id) == run_id
    &&& opt_view(c.job_id) == job_id
    &&& opt_view(c.job_name) == job_name
    &&& opt_view(c.node_id) == node_id
    &&& opt_view(c.node_name) == node_name
    &&& opt_view(c.operation_id) == operation_id
    &&& opt_view(c.notification_id) == notification_id
    &&& opt_view(c.channel) == channel
    &&& opt_view(c.status) == status
    &&& opt_view(c.error) == error
}

pub open spec fn action_is(a: CommandCenterAction, label: Seq<char>, href: Seq<char>) -> bool {
    a.label@ == label && a.href@ == href
}

/// The text of an optional string, or a fallback.
pub open spec fn or_else(o: Option<String>, fallback: Seq<char>) -> Seq<char> {
    match o {
        Some(s) => s@,
        None => fallback,
    }
}

pub open spec fn failed_run_severity(status: Seq<char>) -> Severity {
    if status == "failed"@ {
        Severity::Critical
    } else {
        Severity::Warning
    }
}

/// The attention item for a failed or rejected run.
pub open spec fn is_run_attention_item(i: CommandCenterItem, r: AttentionRunRow) -> bool {
    let scope = job_scope_spec(opt_view(r.agent_id));
    &&& i.id@ == "run:"@ + r.run_id@
    &&& i.kind@ == "run_"@ + r.status@
    &&& i.severity == failed_run_severity(r.status@)
    &&& i.title@ == r.job_name@ + " needs review"@
    &&& i.summary@ == or_else(r.error, "Latest run finished as "@ + r.status@ + "."@)
    &&& i.occurred_at == r.occurred_at
    &&& i.scope@ == scope
    &&& context_is(i.context, some_view(r.run_id), some_view(r.job_id), some_view(r.job_name),
        Some(node_id_spec(opt_view(r.agent_id))), Some(node_name_spec(opt_view(r.agent_id), opt_view(r.agent_name))),
        None, None, None, some_view(r.status), opt_view(r.error))
    &&& action_is(i.primary_action, "Open run"@, run_detail_href_spec(r.run_id@, scope))
    &&& i.secondary_action matches Some(a) && action_is(a, "Open jobs"@, jobs_scope_href_spec(scope))
}

/// The attention item for a failed notification.
pub open spec fn is_notification_attention_item(i: CommandCenterItem, r: NotificationFailureRow) -> bool {
    let scope = job_scope_spec(opt_view(r.agent_id));
    &&& i.id@ == "notification:"@ + r.notification_id@
    &&& i.kind@ == "notification_failed"@
    &&& i.severity == Severity::Warning
    &&& i.title@ == "Notification delivery failed for "@ + r.job_name@
    &&& i.summary@ == or_else(r.error, r.channel@ + " destination needs retry."@)
    &&& i.occurred_at == r.occurred_at
    &&& i.scope@ == scope
    &&& context_is(i.context, some_view(r.run_id), some_view(r.job_id), some_view(r.job_name),
        Some(node_id_spec(opt_view(r.agent_id))), Some(node_name_spec(opt_view(r.agent_id), opt_view(r.agent_name))),
        None, some_view(r.notification_id), some_view(r.channel), None, opt_view(r.error))
    &&& action_is(i.primary_action, "Open queue"@, notifications_queue_href_spec("failed"@))
    &&& i.secondary_action matches Some(a) && action_is(a, "Open run"@, run_detail_href_spec(r.run_id@, scope))
}

/// The attention item for a revoked agent, or else a silent one.
pub open spec fn is_agent_attention_item(i: CommandCenterItem, r: AgentIssueRow) -> bool {
    let name = or_else(r.agent_name, r.agent_id@);
    &&& i.id@ == "agent:"@ + r.agent_id@
    &&& match r.revoked_at {
        Some(t) => i.kind@ == "agent_revoked"@ && i.severity == Severity::Critical
            && i.title@ == name + " is revoked"@
            && i.summary@ == "This agent must be re-enrolled before it can receive work again."@
            && i.occurred_at == t
            && action_is(i.primary_action, "Open fleet"@, fleet_href_spec("revoked"@)),
        None => i.kind@ == "agent_offline"@ && i.severity == Severity::Warning
            && i.title@ == name + " is offline"@
            && i.summary@ == "The Hub has not heard from this agent in the normal heartbeat window."@
            && i.occurred_at == (match r.last_seen_at {
                Some(t) => t,
                None => r.created_at,
            })
            && action_is(i.primary_action, "Open fleet"@, fleet_href_spec("offline"@)),
    }
    &&& i.scope@ == "agent:"@ + r.agent_id@
    &&& context_is(i.context, None, None, None, some_view(r.agent_id), Some(name), None, None, None, None, None)
    &&& i.secondary_action is None
}

fn some_owned(s: &String) -> (r: Option<String>)
    ensures
        opt_view(r) == some_view(*s),
{
    Some(s.clone())
}

fn opt_owned(s: &Option<String>) -> (r: Option<String>)
    ensures
        opt_view(r) == opt_view(*s),
{
    match s {
        Some(v) => Some(v.clone()),
        None => None,
    }
}

fn opt_as_str(s: &Option<String>) -> (r: Option<&str>)
    ensures
        crate::list_paging::opt_str_view(r) == opt_view(*s),
{
    match s {
        Some(v) => Some(v.as_str()),
        None => None,
    }
}

fn action(label: &str, href: String) -> (r: CommandCenterAction)
    ensures
        action_is(r, label@, href@),
{
    CommandCenterAction { label: owned(label), href }
}

fn text_or_else(o: &Option<String>, fallback: String) -> (r: String)
    ensures
        r@ == or_else(*o, fallback@),
{
    match o {
        Some(s) => s.clone(),
        None => fallback,
    }
}

fn run_attention_item(r: &AttentionRunRow) -> (i: CommandCenterItem)
    ensures
        is_run_attention_item(i, *r),
{
    let agent = opt_as_str(&r.agent_id);
    let scope = job_scope_string(agent);
    let severity = if str_eq(r.status.as_str(), "failed") {
        Severity::Critical
    } else {
        Severity::Warning
    };
    CommandCenterItem {
        id: owned("run:").concat(r.run_id.as_str()),
        kind: owned("run_").concat(r.status.as_str()),
        severity,
        title: r.job_name.clone().concat(" needs review"),
        summary: text_or_else(&r.error, owned("Latest run finished as ").concat(r.status.as_str()).concat(".")),
        occurred_at: r.occurred_at,
        scope: scope.clone(),
        context: CommandCenterItemContext {
            run_id: some_owned(&r.run_id),
            job_id: some_owned(&r.job_id),
            job_name: some_owned(&r.job_name),
            node_id: Some(node_id_for_agent(agent)),
            node_name: node_name_for_agent(agent, opt_as_str(&r.agent_name)),
            operation_id: None,
            notification_id: None,
            channel: None,
            status: some_owned(&r.status),
            error: opt_owned(&r.error),
        },
        primary_action: action("Open run", run_detail_href(r.run_id.as_str(), scope.as_str())),
        secondary_action: Some(action("Open jobs", jobs_scope_href(scope.as_str()))),
    }
}

fn notification_attention_item(r: &NotificationFailureRow) -> (i: CommandCenterItem)
    ensures
        is_notification_attention_item(i, *r),
{
    let agent = opt_as_str(&r.agent_id);
    let scope = job_scope_string(agent);
    CommandCenterItem {
        id: owned("notification:").concat(r.notification_id.as_str()),
        kind: owned("notification_failed"),
        severity: Severity::Warning,
        title: owned("Notification delivery failed for ").concat(r.job_name.as_str()),
        summary: text_or_else(&r.error, r.channel.clone().concat(" destination needs retry.")),
        occurred_at: r.occurred_at,
        scope: scope.clone(),
        context: CommandCenterItemContext {
            run_id: some_owned(&r.run_id),
            job_id: some_owned(&r.job_id),
            job_name: some_owned(&r.job_name),
            node_id: Some(node_id_for_agent(agent)),
            node_name: node_name_for_agent(agent, opt_as_str(&r.agent_name)),
            operation_id: None,
            notification_id: some_owned(&r.notification_id),
            channel: some_owned(&r.channel),
            status: None,
            error: opt_owned(&r.error),
        },
        primary_action: action("Open queue", notifications_queue_href("failed")),
        secondary_action: Some(action("Open run", run_detail_href(r.run_id.as_str(), scope.as_str()))),
    }
}

fn agent_attention_item(r: &AgentIssueRow) -> (i: CommandCenterItem)
    ensures
        is_agent_attention_item(i, *r),
{
    let name = text_or_else(&r.agent_name, r.agent_id.clone());
    let (kind, severity, title, summary, occurred_at, status) = match r.revoked_at {
        Some(t) => (
            "agent_revoked",
            Severity::Critical,
            name.clone().concat(" is revoked"),
            "This agent must be re-enrolled before it can receive work again.",
            t,
            "revoked",
        ),
        None => (
            "agent_offline",
            Severity::Warning,
            name.clone().concat(" is offline"),
            "The Hub has not heard from this agent in the normal heartbeat window.",
            match r.last_seen_at {
                Some(t) => t,
                None => r.created_at,
            },
            "offline",
        ),
    };
    CommandCenterItem {
        id: owned("agent:").concat(r.agent_id.as_str()),
        kind: owned(kind),
        severity,
        title,
        summary: owned(summary),
        occurred_at,
        scope: owned("agent:").concat(r.agent_id.as_str()),
        context: CommandCenterItemContext {
            run_id: None,
            job_id: None,
            job_name: None,
            node_id: some_owned(&r.agent_id),
            node_name: Some(name),
            operation_id: None,
            notification_id: None,
            channel: None,
            status: None,
            error: None,
        },
        primary_action: action("Open fleet", fleet_href(status)),
        secondary_action: None,
    }
}


/// A section's state follows from its items: empty or ready, with no note.
pub open spec fn is_plain_section(s: CommandCenterSection) -> bool {
    &&& s.note is None
    &&& s.state == (if s.items.len() == 0 { SectionState::Empty } else { SectionState::Ready })
}

/// A section built from the given items.
pub fn section_from_items(items: Vec<CommandCenterItem>) -> (s: CommandCenterSection)
    ensures
        s.items@ == items@,
        is_plain_section(s),
{
    if items.len() == 0 {
        CommandCenterSection { state: SectionState::Empty, items, note: None }
    } else {
        CommandCenterSection { state: SectionState::Ready, items, note: None }
    }
}

/// The section a failed build stands for: degraded, empty, with a note saying so.
pub open spec fn is_degraded_section(s: CommandCenterSection) -> bool {
    &&& s.state == SectionState::Degraded
    &&& s.items.len() == 0
    &&& s.note matches Some(n) && n@ == "section_unavailable"@
}

/// The built section, or a degraded one in its place when the build failed.
pub fn section_or_degraded<E>(result: Result<CommandCenterSection, E>) -> (s: CommandCenterSection)
    ensures
        match result {
            Ok(built) => s == built,
            Err(_) => is_degraded_section(s),
        },
{
    match result {
        Ok(section) => section,
        Err(_) => CommandCenterSection {
            state: SectionState::Degraded,
            items: Vec::new(),
            note: Some(owned("section_unavailable")),
        },
    }
}

fn agent_severity(revoked_at: Option<i64>) -> (s: Severity)
    ensures
        s == (if revoked_at is Some { Severity::Critical } else { Severity::Warning }),
{
    match revoked_at {
        Some(_) => Severity::Critical,
        None => Severity::Warning,
    }
}

/// When an agent issue happened: its revocation, else when it was last seen, else its enrollment.
pub open spec fn agent_issue_time(a: AgentIssueRow) -> i64 {
    match a.revoked_at {
        Some(t) => t,
        None => match a.last_seen_at {
            Some(t) => t,
            None => a.created_at,
        },
    }
}

/// Attention candidates are the runs, then the notifications, then the agents, in the
/// order given; these give the rank, time and scope test of candidate `i`.
pub open spec fn attention_rank_at(runs: Seq<AttentionRunRow>, notes: Seq<NotificationFailureRow>, agents: Seq<AgentIssueRow>, i: int) -> u8 {
    if i < runs.len() {
        severity_rank_spec(failed_run_severity(runs[i].status@))
    } else if i < runs.len() + notes.len() {
        severity_rank_spec(Severity::Warning)
    } else {
        severity_rank_spec(if agents[i - runs.len() - notes.len()].revoked_at is Some { Severity::Critical } else { Severity::Warning })
    }
}

pub open spec fn attention_time_at(runs: Seq<AttentionRunRow>, notes: Seq<NotificationFailureRow>, agents: Seq<AgentIssueRow>, i: int) -> i64 {
    if i < runs.len() {
        runs[i].occurred_at
    } else if i < runs.len() + notes.len() {
        notes[i - runs.len()].occurred_at
    } else {
        agent_issue_time(agents[i - runs.len() - notes.len()])
    }
}

pub open spec fn attention_in_scope_at(scope: RequestedScope, runs: Seq<AttentionRunRow>, notes: Seq<NotificationFailureRow>, agents: Seq<AgentIssueRow>, i: int) -> bool {
    if i < runs.len() {
        scope_includes(scope, opt_view(runs[i].agent_id))
    } else if i < runs.len() + notes.len() {
        scope_includes(scope, opt_view(notes[i - runs.len()].agent_id))
    } else {
        scope_includes(scope, Some(agents[i - runs.len() - notes.len()].agent_id@))
    }
}

pub open spec fn is_attention_candidate(item: CommandCenterItem, runs: Seq<AttentionRunRow>, notes: Seq<NotificationFailureRow>, agents: Seq<AgentIssueRow>, i: int) -> bool {
    if i < runs.len() {
        is_run_attention_item(item, runs[i])
    } else if i < runs.len() + notes.len() {
        is_notification_attention_item(item, notes[i - runs.len()])
    } else {
        is_agent_attention_item(item, agents[i - runs.len() - notes.len()])
    }
}

pub open spec fn attention_ranks(runs: Seq<AttentionRunRow>, notes: Seq<NotificationFailureRow>, agents: Seq<AgentIssueRow>) -> Seq<u8> {
    Seq::new(runs.len() + notes.len() + agents.len(), |i: int| attention_rank_at(runs, notes, agents, i))
}

pub open spec fn attention_times(runs: Seq<AttentionRunRow>, notes: Seq<NotificationFailureRow>, agents: Seq<AgentIssueRow>) -> Seq<i64> {
    Seq::new(runs.len() + notes.len() + agents.len(), |i: int| attention_time_at(runs, notes, agents, i))
}

pub open spec fn attention_in_scope(scope: RequestedScope, runs: Seq<AttentionRunRow>, notes: Seq<NotificationFailureRow>, agents: Seq<AgentIssueRow>) -> Seq<bool> {
    Seq::new(runs.len() + notes.len() + agents.len(), |i: int| attention_in_scope_at(scope, runs, notes, agents, i))
}

/// The items of a section are the candidates at the selected positions, in that order.
pub open spec fn items_at(items: Seq<CommandCenterItem>, sel: Seq<usize>, candidate: spec_fn(CommandCenterItem, int) -> bool) -> bool {
    &&& items.len() == sel.len()
    &&& forall|k: int| 0 <= k < sel.len() ==> #[trigger] candidate(items[k], sel[k] as int)
}

/// What needs attention: failed or rejected runs, failed notifications and agent issues in
/// scope; critical first, then newest first (ties in the order given), at most eight.
pub fn build_attention(
    scope: &RequestedScope,
    runs: &Vec<AttentionRunRow>,
    notes: &Vec<NotificationFailureRow>,
    agents: &Vec<AgentIssueRow>,
) -> (s: CommandCenterSection)
    requires
        runs.len() + notes.len() + agents.len() <= usize::MAX,
    ensures
        is_plain_section(s),
        exists|sel: Seq<usize>|
            #[trigger] is_top_selection(attention_ranks(runs@, notes@, agents@), attention_times(runs@, notes@, agents@),
                attention_in_scope(*scope, runs@, notes@, agents@), 8, sel)
            && items_at(s.items@, sel, |item: CommandCenterItem, i: int| is_attention_candidate(item, runs@, notes@, agents@, i)),
{
    let nr = runs.len();
    let nn = notes.len();
    let total = nr + nn + agents.len();
    let mut ranks: Vec<u8> = Vec::new();
    let mut times: Vec<i64> = Vec::new();
    let mut in_scope: Vec<bool> = Vec::new();
    let mut g: usize = 0;
    while g < total
        invariant
            nr == runs.len(),
            nn == notes.len(),
            total == nr + nn + agents.len(),
            g <= total,
            ranks.len() == g && times.len() == g && in_scope.len() == g,
            forall|k: int| 0 <= k < g ==> (#[trigger] ranks@[k]) == attention_rank_at(runs@, notes@, agents@, k),
            forall|k: int| 0 <= k < g ==> (#[trigger] times@[k]) == attention_time_at(runs@, notes@, agents@, k),
            forall|k: int| 0 <= k < g ==> (#[trigger] in_scope@[k]) == attention_in_scope_at(*scope, runs@, notes@, agents@, k),
        decreases total - g,
    {
        if g < nr {
            let r = &runs[g];
            let sev = if str_eq(r.status.as_str(), "failed") { Severity::Critical } else { Severity::Warning };
            ranks.push(severity_rank(sev));
            times.push(r.occurred_at);
            in_scope.push(scope.includes_agent(opt_as_str(&r.agent_id)));
        } else if g < nr + nn {
            let r = &notes[g - nr];
            ranks.push(severity_rank(Severity::Warning));
            times.push(r.occurred_at);
            in_scope.push(scope.includes_agent(opt_as_str(&r.agent_id)));
        } else {
            let a = &agents[g - nr - nn];
            ranks.push(severity_rank(agent_severity(a.revoked_at)));
            let t = match a.revoked_at {
                Some(t) => t,
                None => match a.last_seen_at {
                    Some(t) => t,
                    None => a.created_at,
                },
            };
            times.push(t);
            in_scope.push(scope.includes_agent(Some(a.agent_id.as_str())));
        }
        g = g + 1;
    }
    proof {
        assert(ranks@ =~= attention_ranks(runs@, notes@, agents@));
        assert(times@ =~= attention_times(runs@, notes@, agents@));
        assert(in_scope@ =~= attention_in_scope(*scope, runs@, notes@, agents@));
    }
    let sel = select_ranked(&ranks, &times, &in_scope, 8);
    let ghost cand = |item: CommandCenterItem, i: int| is_attention_candidate(item, runs@, notes@, agents@, i);
    let mut items: Vec<CommandCenterItem> = Vec::new();
    let mut k: usize = 0;
    while k < sel.len()
        invariant
            nr == runs.len(),
            nn == notes.len(),
            total == nr + nn + agents.len(),
            forall|j: int| 0 <= j < sel.len() ==> (#[trigger] sel@[j]) < total,
            k <= sel.len(),
            items.len() == k,
            cand == (|item: CommandCenterItem, i: int| is_attention_candidate(item, runs@, notes@, agents@, i)),
            forall|j: int| 0 <= j < k ==> #[trigger] cand(items@[j], sel@[j] as int),
        decreases sel.len() - k,
    {
        let g = sel[k];
        let item = if g < nr {
            run_attention_item(&runs[g])
        } else if g < nr + nn {
            notification_attention_item(&notes[g - nr])
        } else {
            agent_attention_item(&agents[g - nr - nn])
        };
        items.push(item);
        k = k + 1;
    }
    proof {
        assert(items_at(items@, sel@, cand));
    }
    section_from_items(items)
}


pub open spec fn run_activity_severity(status: Seq<char>) -> Severity {
    if status == "failed"@ {
        Severity::Critical
    } else if status == "rejected"@ {
        Severity::Warning
    } else {
        Severity::Info
    }
}

pub open spec fn operation_activity_severity(status: Seq<char>) -> Severity {
    if status == "failed"@ {
        Severity::Critical
    } else if status == "canceled"@ {
        Severity::Warning
    } else {
        Severity::Info
    }
}

/// When activity happened: its end, or its start while it has none.
pub open spec fn activity_time(ended_at: Option<i64>, started_at: i64) -> i64 {
    match ended_at {
        Some(t) => t,
        None => started_at,
    }
}

pub open spec fn operation_kind_text(kind: Seq<char>, status: Seq<char>) -> Seq<char> {
    "operation_"@ + kind + "_"@ + status
}

/// The critical-activity item for a recent run.
pub open spec fn is_activity_run_item(i: CommandCenterItem, r: ActivityRunRow) -> bool {
    let agent = opt_view(r.agent_id);
    let scope = job_scope_spec(agent);
    &&& i.id@ == "activity-run:"@ + r.run_id@
    &&& i.kind@ == "run_"@ + r.status@
    &&& i.severity == run_activity_severity(r.status@)
    &&& i.title@ == r.job_name@ + " "@ + run_suffix_spec(r.status@)
    &&& i.summary@ == or_else(r.error, scope_label_spec(agent) + " scope activity."@)
    &&& i.occurred_at == activity_time(r.ended_at, r.started_at)
    &&& i.scope@ == scope
    &&& context_is(i.context, some_view(r.run_id), some_view(r.job_id), some_view(r.job_name),
        Some(node_id_spec(agent)), Some(node_name_spec(agent, opt_view(r.agent_name))),
        None, None, None, some_view(r.status), opt_view(r.error))
    &&& action_is(i.primary_action, "Open run"@, run_detail_href_spec(r.run_id@, scope))
    &&& i.secondary_action matches Some(a) && action_is(a, "Open jobs"@, jobs_scope_href_spec(scope))
}

/// The critical-activity item for a recent operation.
pub open spec fn is_activity_operation_item(i: CommandCenterItem, r: ActivityOperationRow) -> bool {
    let agent = opt_view(r.agent_id);
    let scope = job_scope_spec(agent);
    &&& i.id@ == "activity-op:"@ + r.operation_id@
    &&& i.kind@ == operation_kind_text(r.kind@, r.status@)
    &&& i.severity == operation_activity_severity(r.status@)
    &&& i.title@ == r.job_name@ + " "@ + operation_suffix_spec(r.kind@, r.status@)
    &&& i.summary@ == or_else(r.error, r.kind@ + " operation linked to this run."@)
    &&& i.occurred_at == activity_time(r.ended_at, r.started_at)
    &&& i.scope@ == scope
    &&& context_is(i.context, some_view(r.run_id), some_view(r.job_id), some_view(r.job_name),
        Some(node_id_spec(agent)), Some(node_name_spec(agent, opt_view(r.agent_name))),
        some_view(r.operation_id), None, None, some_view(r.status), opt_view(r.error))
    &&& action_is(i.primary_action, "Open run"@, run_detail_href_spec(r.run_id@, scope))
    &&& i.secondary_action is None
}

/// The watchlist item for an active run.
pub open spec fn is_watch_run_item(i: CommandCenterItem, r: ActivityRunRow) -> bool {
    let agent = opt_view(r.agent_id);
    let scope = job_scope_spec(agent);
    &&& i.id@ == "watch-run:"@ + r.run_id@
    &&& i.kind@ == "run_"@ + r.status@
    &&& i.severity == Severity::Info
    &&& i.title@ == r.job_name@ + " "@ + run_suffix_spec(r.status@)
    &&& i.summary@ == "This run is still active and worth following."@
    &&& i.occurred_at == r.started_at
    &&& i.scope@ == scope
    &&& context_is(i.context, some_view(r.run_id), some_view(r.job_id), some_view(r.job_name),
        Some(node_id_spec(agent)), Some(node_name_spec(agent, opt_view(r.agent_name))),
        None, None, None, some_view(r.status), None)
    &&& action_is(i.primary_action, "Open run"@, run_detail_href_spec(r.run_id@, scope))
    &&& i.secondary_action is None
}

/// The watchlist item for a running operation.
pub open spec fn is_watch_operation_item(i: CommandCenterItem, r: ActivityOperationRow) -> bool {
    let agent = opt_view(r.agent_id);
    let scope = job_scope_spec(agent);
    &&& i.id@ == "watch-op:"@ + r.operation_id@
    &&& i.kind@ == "operation_"@ + r.kind@ + "_running"@
    &&& i.severity == Severity::Info
    &&& i.title@ == r.job_name@ + " "@ + operation_suffix_spec(r.kind@, r.status@)
    &&& i.summary@ == "An operator workflow is still in progress for this backup."@
    &&& i.occurred_at == r.started_at
    &&& i.scope@ == scope
    &&& context_is(i.context, some_view(r.run_id), some_view(r.job_id), some_view(r.job_name),
        Some(node_id_spec(agent)), Some(node_name_spec(agent, opt_view(r.agent_name))),
        some_view(r.operation_id), None, None, some_view(r.status), None)
    &&& action_is(i.primary_action, "Open run"@, run_detail_href_spec(r.run_id@, scope))
    &&& i.secondary_action is None
}

/// The watchlist item for a queued notification.
pub open spec fn is_watch_notification_item(i: CommandCenterItem, r: NotificationFailureRow) -> bool {
    let agent = opt_view(r.agent_id);
    let scope = job_scope_spec(agent);
    &&& i.id@ == "watch-notification:"@ + r.notification_id@
    &&& i.kind@ == "notification_queued"@
    &&& i.severity == Severity::Info
    &&& i.title@ == r.job_name@ + " notification pending"@
    &&& i.summary@ == r.channel@ + " delivery is still queued."@
    &&& i.occurred_at == r.occurred_at
    &&& i.scope@ == scope
    &&& context_is(i.context, some_view(r.run_id), some_view(r.job_id), some_view(r.job_name),
        Some(node_id_spec(agent)), Some(node_name_spec(agent, opt_view(r.agent_name))),
        None, some_view(r.notification_id), some_view(r.channel), None, None)
    &&& action_is(i.primary_action, "Open queue"@, notifications_queue_href_spec("queued"@))
    &&& i.secondary_action is None
}

fn time_of(ended_at: Option<i64>, started_at: i64) -> (t: i64)
    ensures
        t == activity_time(ended_at, started_at),
{
    match ended_at {
        Some(t) => t,
        None => started_at,
    }
}

fn activity_run_item(r: &ActivityRunRow) -> (i: CommandCenterItem)
    ensures
        is_activity_run_item(i, *r),
{
    let agent = opt_as_str(&r.agent_id);
    let scope = job_scope_string(agent);
    let severity = if str_eq(r.status.as_str(), "failed") {
        Severity::Critical
    } else if str_eq(r.status.as_str(), "rejected") {
        Severity::Warning
    } else {
        Severity::Info
    };
    CommandCenterItem {
        id: owned("activity-run:").concat(r.run_id.as_str()),
        kind: owned("run_").concat(r.status.as_str()),
        severity,
        title: r.job_name.clone().concat(" ").concat(activity_suffix_for_run(r.status.as_str())),
        summary: text_or_else(&r.error, owned(scope_label_from_agent(agent)).concat(" scope activity.")),
        occurred_at: time_of(r.ended_at, r.started_at),
        scope: scope.clone(),
        context: CommandCenterItemContext {
            run_id: some_owned(&r.run_id),
            job_id: some_owned(&r.job_id),
            job_name: some_owned(&r.job_name),
            node_id: Some(node_id_for_agent(agent)),
            node_name: node_name_for_agent(agent, opt_as_str(&r.agent_name)),
            operation_id: None,
            notification_id: None,
            channel: None,
            status: some_owned(&r.status),
            error: opt_owned(&r.error),
        },
        primary_action: action("Open run", run_detail_href(r.run_id.as_str(), scope.as_str())),
        secondary_action: Some(action("Open jobs", jobs_scope_href(scope.as_str()))),
    }
}

fn operation_kind_string(kind: &str, status: &str) -> (r: String)
    ensures
        r@ == operation_kind_text(kind@, status@),
{
    owned("operation_").concat(kind).concat("_").concat(status)
}

fn activity_operation_item(r: &ActivityOperationRow) -> (i: CommandCenterItem)
    ensures
        is_activity_operation_item(i, *r),
{
    let agent = opt_as_str(&r.agent_id);
    let scope = job_scope_string(agent);
    let severity = if str_eq(r.status.as_str(), "failed") {
        Severity::Critical
    } else if str_eq(r.status.as_str(), "canceled") {
        Severity::Warning
    } else {
        Severity::Info
    };
    let suffix = activity_suffix_for_operation(r.kind.as_str(), r.status.as_str());
    CommandCenterItem {
        id: owned("activity-op:").concat(r.operation_id.as_str()),
        kind: operation_kind_string(r.kind.as_str(), r.status.as_str()),
        severity,
        title: r.job_name.clone().concat(" ").concat(suffix.as_str()),
        summary: text_or_else(&r.error, r.kind.clone().concat(" operation linked to this run.")),
        occurred_at: time_of(r.ended_at, r.started_at),
        scope: scope.clone(),
        context: CommandCenterItemContext {
            run_id: some_owned(&r.run_id),
            job_id: some_owned(&r.job_id),
            job_name: some_owned(&r.job_name),
            node_id: Some(node_id_for_agent(agent)),
            node_name: node_name_for_agent(agent, opt_as_str(&r.agent_name)),
            operation_id: some_owned(&r.operation_id),
            notification_id: None,
            channel: None,
            status: some_owned(&r.status),
            error: opt_owned(&r.error),
        },
        primary_action: action("Open run", run_detail_href(r.run_id.as_str(), scope.as_str())),
        secondary_action: None,
    }
}

fn watch_run_item(r: &ActivityRunRow) -> (i: CommandCenterItem)
    ensures
        is_watch_run_item(i, *r),
{
    let agent = opt_as_str(&r.agent_id);
    let scope = job_scope_string(agent);
    CommandCenterItem {
        id: owned("watch-run:").concat(r.run_id.as_str()),
        kind: owned("run_").concat(r.status.as_str()),
        severity: Severity::Info,
        title: r.job_name.clone().concat(" ").concat(activity_suffix_for_run(r.status.as_str())),
        summary: owned("This run is still active and worth following."),
        occurred_at: r.started_at,
        scope: scope.clone(),
        context: CommandCenterItemContext {
            run_id: some_owned(&r.run_id),
            job_id: some_owned(&r.job_id),
            job_name: some_owned(&r.job_name),
            node_id: Some(node_id_for_agent(agent)),
            node_name: node_name_for_agent(agent, opt_as_str(&r.agent_name)),
            operation_id: None,
            notification_id: None,
            channel: None,
            status: some_owned(&r.status),
            error: None,
        },
        primary_action: action("Open run", run_detail_href(r.run_id.as_str(), scope.as_str())),
        secondary_action: None,
    }
}

fn watch_operation_item(r: &ActivityOperationRow) -> (i: CommandCenterItem)
    ensures
        is_watch_operation_item(i, *r),
{
    let agent = opt_as_str(&r.agent_id);
    let scope = job_scope_string(agent);
    let suffix = activity_suffix_for_operation(r.kind.as_str(), r.status.as_str());
    CommandCenterItem {
        id: owned("watch-op:").concat(r.operation_id.as_str()),
        kind: owned("operation_").concat(r.kind.as_str()).concat("_running"),
        severity: Severity::Info,
        title: r.job_name.clone().concat(" ").concat(suffix.as_str()),
        summary: owned("An operator workflow is still in progress for this backup."),
        occurred_at: r.started_at,
        scope: scope.clone(),
        context: CommandCenterItemContext {
            run_id: some_owned(&r.run_id),
            job_id: some_owned(&r.job_id),
            job_name: some_owned(&r.job_name),
            node_id: Some(node_id_for_agent(agent)),
            node_name: node_name_for_agent(agent, opt_as_str(&r.agent_name)),
            operation_id: some_owned(&r.operation_id),
            notification_id: None,
            channel: None,
            status: some_owned(&r.status),
            error: None,
        },
        primary_action: action("Open run", run_detail_href(r.run_id.as_str(), scope.as_str())),
        secondary_action: None,
    }
}

fn watch_notification_item(r: &NotificationFailureRow) -> (i: CommandCenterItem)
    ensures
        is_watch_notification_item(i, *r),
{
    let agent = opt_as_str(&r.agent_id);
    let scope = job_scope_string(agent);
    CommandCenterItem {
        id: owned("watch-notification:").concat(r.notification_id.as_str()),
        kind: owned("notification_queued"),
        severity: Severity::Info,
        title: r.job_name.clone().concat(" notification pending"),
        summary: r.channel.clone().concat(" delivery is still queued."),
        occurred_at: r.occurred_at,
        scope: scope.clone(),
        context: CommandCenterItemContext {
            run_id: some_owned(&r.run_id),
            job_id: some_owned(&r.job_id),
            job_name: some_owned(&r.job_name),
            node_id: Some(node_id_for_agent(agent)),
            node_name: node_name_for_agent(agent, opt_as_str(&r.agent_name)),
            operation_id: None,
            notification_id: some_owned(&r.notification_id),
            channel: some_owned(&r.channel),
            status: None,
            error: None,
        },
        primary_action: action("Open queue", notifications_queue_href("queued")),
        secondary_action: None,
    }
}


/// Critical-activity candidates are the runs, then the operations, in the order given.
pub open spec fn activity_kind_at(runs: Seq<ActivityRunRow>, ops: Seq<ActivityOperationRow>, i: int) -> Seq<char> {
    if i < runs.len() {
        "run_"@ + runs[i].status@
    } else {
        operation_kind_text(ops[i - runs.len()].kind@, ops[i - runs.len()].status@)
    }
}

pub open spec fn activity_time_at(runs: Seq<ActivityRunRow>, ops: Seq<ActivityOperationRow>, i: int) -> i64 {
    if i < runs.len() {
        activity_time(runs[i].ended_at, runs[i].started_at)
    } else {
        activity_time(ops[i - runs.len()].ended_at, ops[i - runs.len()].started_at)
    }
}

pub open spec fn activity_agent_at(runs: Seq<ActivityRunRow>, ops: Seq<ActivityOperationRow>, i: int) -> Option<Seq<char>> {
    if i < runs.len() {
        opt_view(runs[i].agent_id)
    } else {
        opt_view(ops[i - runs.len()].agent_id)
    }
}

pub open spec fn is_activity_candidate(item: CommandCenterItem, runs: Seq<ActivityRunRow>, ops: Seq<ActivityOperationRow>, i: int) -> bool {
    if i < runs.len() {
        is_activity_run_item(item, runs[i])
    } else {
        is_activity_operation_item(item, ops[i - runs.len()])
    }
}

pub open spec fn activity_ranks(runs: Seq<ActivityRunRow>, ops: Seq<ActivityOperationRow>) -> Seq<u8> {
    Seq::new(runs.len() + ops.len(), |i: int| activity_rank_spec(activity_kind_at(runs, ops, i)))
}

pub open spec fn activity_times(runs: Seq<ActivityRunRow>, ops: Seq<ActivityOperationRow>) -> Seq<i64> {
    Seq::new(runs.len() + ops.len(), |i: int| activity_time_at(runs, ops, i))
}

pub open spec fn activity_in_scope(scope: RequestedScope, runs: Seq<ActivityRunRow>, ops: Seq<ActivityOperationRow>) -> Seq<bool> {
    Seq::new(runs.len() + ops.len(), |i: int| scope_includes(scope, activity_agent_at(runs, ops, i)))
}

/// Recent runs and operations in scope; failures first, then rejections and cancellations,
/// running work, verify and restore, the rest; newest first within a rank (ties in the order
/// given); at most eight.
pub fn build_critical_activity(
    scope: &RequestedScope,
    runs: &Vec<ActivityRunRow>,
    ops: &Vec<ActivityOperationRow>,
) -> (s: CommandCenterSection)
    requires
        runs.len() + ops.len() <= usize::MAX,
    ensures
        is_plain_section(s),
        exists|sel: Seq<usize>|
            #[trigger] is_top_selection(
                activity_ranks(runs@, ops@),
                activity_times(runs@, ops@),
                activity_in_scope(*scope, runs@, ops@),
                8, sel)
            && items_at(s.items@, sel, |item: CommandCenterItem, i: int| is_activity_candidate(item, runs@, ops@, i)),
{
    let nr = runs.len();
    let total = nr + ops.len();
    let mut ranks: Vec<u8> = Vec::new();
    let mut times: Vec<i64> = Vec::new();
    let mut in_scope: Vec<bool> = Vec::new();
    let mut g: usize = 0;
    while g < total
        invariant
            nr == runs.len(),
            total == nr + ops.len(),
            g <= total,
            ranks.len() == g && times.len() == g && in_scope.len() == g,
            forall|k: int| 0 <= k < g ==> (#[trigger] ranks@[k]) == activity_rank_spec(activity_kind_at(runs@, ops@, k)),
            forall|k: int| 0 <= k < g ==> (#[trigger] times@[k]) == activity_time_at(runs@, ops@, k),
            forall|k: int| 0 <= k < g ==> (#[trigger] in_scope@[k]) == scope_includes(*scope, activity_agent_at(runs@, ops@, k)),
        decreases total - g,
    {
        if g < nr {
            let r = &runs[g];
            let kind = owned("run_").concat(r.status.as_str());
            ranks.push(activity_rank(kind.as_str()));
            times.push(time_of(r.ended_at, r.started_at));
            in_scope.push(scope.includes_agent(opt_as_str(&r.agent_id)));
        } else {
            let r = &ops[g - nr];
            let kind = operation_kind_string(r.kind.as_str(), r.status.as_str());
            ranks.push(activity_rank(kind.as_str()));
            times.push(time_of(r.ended_at, r.started_at));
            in_scope.push(scope.includes_agent(opt_as_str(&r.agent_id)));
        }
        g = g + 1;
    }
    proof {
        assert(ranks@ =~= activity_ranks(runs@, ops@));
        assert(times@ =~= activity_times(runs@, ops@));
        assert(in_scope@ =~= activity_in_scope(*scope, runs@, ops@));
    }
    let sel = select_ranked(&ranks, &times, &in_scope, 8);
    let ghost cand = |item: CommandCenterItem, i: int| is_activity_candidate(item, runs@, ops@, i);
    let mut items: Vec<CommandCenterItem> = Vec::new();
    let mut k: usize = 0;
    while k < sel.len()
        invariant
            nr == runs.len(),
            total == nr + ops.len(),
            forall|j: int| 0 <= j < sel.len() ==> (#[trigger] sel@[j]) < total,
            k <= sel.len(),
            items.len() == k,
            cand == (|item: CommandCenterItem, i: int| is_activity_candidate(item, runs@, ops@, i)),
            forall|j: int| 0 <= j < k ==> #[trigger] cand(items@[j], sel@[j] as int),
        decreases sel.len() - k,
    {
        let g = sel[k];
        let item = if g < nr {
            activity_run_item(&runs[g])
        } else {
            activity_operation_item(&ops[g - nr])
        };
        items.push(item);
        k = k + 1;
    }
    proof {
        assert(items_at(items@, sel@, cand));
    }
    section_from_items(items)
}

/// Watchlist candidates are the runs, then the operations, then the queued notifications.
pub open spec fn watch_time_at(runs: Seq<ActivityRunRow>, ops: Seq<ActivityOperationRow>, queued: Seq<NotificationFailureRow>, i: int) -> i64 {
    if i < runs.len() {
        runs[i].started_at
    } else if i < runs.len() + ops.len() {
        ops[i - runs.len()].started_at
    } else {
        queued[i - runs.len() - ops.len()].occurred_at
    }
}

/// In scope and still active: a running or queued run, a running operation, any queued
/// notification.
pub open spec fn watch_eligible_at(scope: RequestedScope, runs: Seq<ActivityRunRow>, ops: Seq<ActivityOperationRow>, queued: Seq<NotificationFailureRow>, i: int) -> bool {
    if i < runs.len() {
        scope_includes(scope, opt_view(runs[i].agent_id)) && (runs[i].status@ == "running"@ || runs[i].status@ == "queued"@)
    } else if i < runs.len() + ops.len() {
        scope_includes(scope, opt_view(ops[i - runs.len()].agent_id)) && ops[i - runs.len()].status@ == "running"@
    } else {
        scope_includes(scope, opt_view(queued[i - runs.len() - ops.len()].agent_id))
    }
}

pub open spec fn is_watch_candidate(item: CommandCenterItem, runs: Seq<ActivityRunRow>, ops: Seq<ActivityOperationRow>, queued: Seq<NotificationFailureRow>, i: int) -> bool {
    if i < runs.len() {
        is_watch_run_item(item, runs[i])
    } else if i < runs.len() + ops.len() {
        is_watch_operation_item(item, ops[i - runs.len()])
    } else {
        is_watch_notification_item(item, queued[i - runs.len() - ops.len()])
    }
}

pub open spec fn watch_ranks(runs: Seq<ActivityRunRow>, ops: Seq<ActivityOperationRow>, queued: Seq<NotificationFailureRow>) -> Seq<u8> {
    Seq::new(runs.len() + ops.len() + queued.len(), |i: int| 0u8)
}

pub open spec fn watch_times(runs: Seq<ActivityRunRow>, ops: Seq<ActivityOperationRow>, queued: Seq<NotificationFailureRow>) -> Seq<i64> {
    Seq::new(runs.len() + ops.len() + queued.len(), |i: int| watch_time_at(runs, ops, queued, i))
}

pub open spec fn watch_eligible(scope: RequestedScope, runs: Seq<ActivityRunRow>, ops: Seq<ActivityOperationRow>, queued: Seq<NotificationFailureRow>) -> Seq<bool> {
    Seq::new(runs.len() + ops.len() + queued.len(), |i: int| watch_eligible_at(scope, runs, ops, queued, i))
}

/// Work still in progress in scope, newest first (ties in the order given), at most six.
pub fn build_watchlist(
    scope: &RequestedScope,
    runs: &Vec<ActivityRunRow>,
    ops: &Vec<ActivityOperationRow>,
    queued: &Vec<NotificationFailureRow>,
) -> (s: CommandCenterSection)
    requires
        runs.len() + ops.len() + queued.len() <= usize::MAX,
    ensures
        is_plain_section(s),
        exists|sel: Seq<usize>|
            #[trigger] is_top_selection(
                watch_ranks(runs@, ops@, queued@),
                watch_times(runs@, ops@, queued@),
                watch_eligible(*scope, runs@, ops@, queued@),
                6, sel)
            && items_at(s.items@, sel, |item: CommandCenterItem, i: int| is_watch_candidate(item, runs@, ops@, queued@, i)),
{
    let nr = runs.len();
    let no = ops.len();
    let total = nr + no + queued.len();
    let mut ranks: Vec<u8> = Vec::new();
    let mut times: Vec<i64> = Vec::new();
    let mut eligible: Vec<bool> = Vec::new();
    let mut g: usize = 0;
    while g < total
        invariant
            nr == runs.len(),
            no == ops.len(),
            total == nr + no + queued.len(),
            g <= total,
            ranks.len() == g && times.len() == g && eligible.len() == g,
            forall|k: int| 0 <= k < g ==> (#[trigger] ranks@[k]) == 0u8,
            forall|k: int| 0 <= k < g ==> (#[trigger] times@[k]) == watch_time_at(runs@, ops@, queued@, k),
            forall|k: int| 0 <= k < g ==> (#[trigger] eligible@[k]) == watch_eligible_at(*scope, runs@, ops@, queued@, k),
        decreases total - g,
    {
        ranks.push(0);
        if g < nr {
            let r = &runs[g];
            times.push(r.started_at);
            let active = str_eq(r.status.as_str(), "running") || str_eq(r.status.as_str(), "queued");
            eligible.push(scope.includes_agent(opt_as_str(&r.agent_id)) && active);
        } else if g < nr + no {
            let r = &ops[g - nr];
            times.push(r.started_at);
            let active = str_eq(r.status.as_str(), "running");
            eligible.push(scope.includes_agent(opt_as_str(&r.agent_id)) && active);
        } else {
            let r = &queued[g - nr - no];
            times.push(r.occurred_at);
            eligible.push(scope.includes_agent(opt_as_str(&r.agent_id)));
        }
        g = g + 1;
    }
    proof {
        assert(ranks@ =~= watch_ranks(runs@, ops@, queued@));
        assert(times@ =~= watch_times(runs@, ops@, queued@));
        assert(eligible@ =~= watch_eligible(*scope, runs@, ops@, queued@));
    }
    let sel = select_ranked(&ranks, &times, &eligible, 6);
    let ghost cand = |item: CommandCenterItem, i: int| is_watch_candidate(item, runs@, ops@, queued@, i);
    let mut items: Vec<CommandCenterItem> = Vec::new();
    let mut k: usize = 0;
    while k < sel.len()
        invariant
            nr == runs.len(),
            no == ops.len(),
            total == nr + no + queued.len(),
            forall|j: int| 0 <= j < sel.len() ==> (#[trigger] sel@[j]) < total,
            k <= sel.len(),
            items.len() == k,
            cand == (|item: CommandCenterItem, i: int| is_watch_candidate(item, runs@, ops@, queued@, i)),
            forall|j: int| 0 <= j < k ==> #[trigger] cand(items@[j], sel@[j] as int),
        decreases sel.len() - k,
    {
        let g = sel[k];
        let item = if g < nr {
            watch_run_item(&runs[g])
        } else if g < nr + no {
            watch_operation_item(&ops[g - nr])
        } else {
            watch_notification_item(&queued[g - nr - no])
        };
        items.push(item);
        k = k + 1;
    }
    proof {
        assert(items_at(items@, sel@, cand));
    }
    section_from_items(items)
}

proof fn lemma_ends_with_word(prefix: Seq<char>, word: Seq<char>)
    ensures
        has_infix(prefix + word, word),
{
    let t = prefix + word;
    assert(t.subrange(prefix.len() as int, (prefix.len() + word.len()) as int) =~= word);
}

proof fn lemma_status_words()
    ensures
        "failed"@ != "canceled"@,
        "failed"@ != "rejected"@,
{
    reveal_strlit("failed");
    reveal_strlit("canceled");
    reveal_strlit("rejected");
    assert("failed"@.len() != "canceled"@.len());
    assert("failed"@[0] != "rejected"@[0]);
}

/// A failed operation shows as critical, a canceled one as a warning, any other as
/// information; and the severity agrees with the activity's rank: critical activity ranks
/// first, a warning no later than second.
pub proof fn law_operation_activity_severity(i: CommandCenterItem, r: ActivityOperationRow)
    requires
        is_activity_operation_item(i, r),
    ensures
        i.severity == Severity::Critical <==> r.status@ == "failed"@,
        i.severity == Severity::Warning <==> r.status@ == "canceled"@,
        i.severity == Severity::Critical ==> activity_rank_spec(i.kind@) == 0,
        i.severity == Severity::Warning ==> activity_rank_spec(i.kind@) <= 1,
{
    lemma_status_words();
    lemma_ends_with_word("operation_"@ + r.kind@ + "_"@, r.status@);
}

/// A failed run shows as critical, a rejected one as a warning, any other as information;
/// critical activity ranks first, a warning no later than second.
pub proof fn law_run_activity_severity(i: CommandCenterItem, r: ActivityRunRow)
    requires
        is_activity_run_item(i, r),
    ensures
        i.severity == Severity::Critical <==> r.status@ == "failed"@,
        i.severity == Severity::Warning <==> r.status@ == "rejected"@,
        i.severity == Severity::Critical ==> activity_rank_spec(i.kind@) == 0,
        i.severity == Severity::Warning ==> activity_rank_spec(i.kind@) <= 1,
{
    lemma_status_words();
    lemma_ends_with_word("run_"@, r.status@);
}

/// Every critical-activity item stands for the run or operation at its position: it is
/// critical exactly when that run or operation failed, and critical items rank first.
pub proof fn law_critical_activity_item_severity(
    item: CommandCenterItem,
    runs: Seq<ActivityRunRow>,
    ops: Seq<ActivityOperationRow>,
    i: int,
)
    requires
        0 <= i < runs.len() + ops.len(),
        is_activity_candidate(item, runs, ops, i),
    ensures
        item.severity == Severity::Critical <==> (if i < runs.len() {
            runs[i].status@
        } else {
            ops[i - runs.len()].status@
        }) == "failed"@,
        item.severity == Severity::Critical ==> activity_rank_spec(item.kind@) == 0,
{
    if i < runs.len() {
        law_run_activity_severity(item, runs[i]);
    } else {
        law_operation_activity_severity(item, ops[i - runs.len()]);
    }
}

} // verus!
