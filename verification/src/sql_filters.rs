//! The WHERE clauses of the agents and jobs lists, as SQL text and bound values in order.
use vstd::prelude::*;
use crate::agents_admin::AgentStatusFilter;
use crate::jobs_crud::{JobNodeFilter, JobScheduleModeFilter};
use crate::labels::LabelsMode;
use crate::list_paging::opt_str_view;
use crate::text::{owned, to_lowercase, unicode_lowercase};

verus! {

/// A piece of a query: SQL text, or a value bound in its place.
#[derive(Debug)]
pub enum SqlPiece {
    Text(String),
    BindText(String),
    BindInt(i64),
}

/// A piece as plain values: its kind (0 text, 1 bound text, 2 bound integer), text, integer.
pub type PieceView = (int, Seq<char>, i64);

pub open spec fn piece_view(p: SqlPiece) -> PieceView {
    match p {
        SqlPiece::Text(s) => (0, s@, 0),
        SqlPiece::BindText(s) => (1, s@, 0),
        SqlPiece::BindInt(n) => (2, Seq::empty(), n),
    }
}

pub open spec fn pieces_view(v: Seq<SqlPiece>) -> Seq<PieceView> {
    v.map_values(|p: SqlPiece| piece_view(p))
}

pub open spec fn text(s: Seq<char>) -> PieceView {
    (0, s, 0)
}

pub open spec fn bind_text(s: Seq<char>) -> PieceView {
    (1, s, 0)
}

pub open spec fn bind_int(n: i64) -> PieceView {
    (2, Seq::empty(), n)
}

/// The conditions joined: the first after " WHERE ", the others after " AND ".
pub open spec fn where_clause(conds: Seq<Seq<PieceView>>) -> Seq<PieceView>
    decreases conds.len(),
{
    if conds.len() == 0 {
        seq![]
    } else {
        let sep = if conds.len() == 1 { " WHERE "@ } else { " AND "@ };
        where_clause(conds.drop_last()) + seq![text(sep)] + conds.last()
    }
}

/// Bound values separated by ", " (as `QueryBuilder::separated` writes them).
pub open spec fn bound_list(values: Seq<Seq<char>>) -> Seq<PieceView>
    decreases values.len(),
{
    if values.len() == 0 {
        seq![]
    } else if values.len() == 1 {
        seq![bind_text(values[0])]
    } else {
        bound_list(values.drop_last()) + seq![text(", "@), bind_text(values.last())]
    }
}

/// `%text%`, lowercased, for a LIKE match anywhere.
pub open spec fn like_pattern(search: Seq<char>) -> Seq<char> {
    seq!['%'] + unicode_lowercase(search) + seq!['%']
}

pub open spec fn agent_conditions(
    labels: Seq<Seq<char>>,
    mode: LabelsMode,
    status: AgentStatusFilter,
    online_cutoff: i64,
    search: Option<Seq<char>>,
) -> Seq<Seq<PieceView>> {
    let label_cond: Seq<Seq<PieceView>> = if labels.len() == 0 {
        seq![]
    } else {
        let inner = match mode {
            LabelsMode::And => seq![text("SELECT al2.agent_id FROM agent_labels al2 WHERE al2.label IN ("@)]
                + bound_list(labels) + seq![text(")"@), text(" GROUP BY al2.agent_id HAVING COUNT(DISTINCT al2.label) = "@),
                bind_int(labels.len() as i64)],
            LabelsMode::Or => seq![text("SELECT DISTINCT al2.agent_id FROM agent_labels al2 WHERE al2.label IN ("@)]
                + bound_list(labels) + seq![text(")"@)],
        };
        seq![seq![text("a.id IN ("@)] + inner + seq![text(")"@)]]
    };
    let status_cond: Seq<Seq<PieceView>> = match status {
        AgentStatusFilter::All => seq![],
        AgentStatusFilter::Revoked => seq![seq![text("a.revoked_at IS NOT NULL"@)]],
        AgentStatusFilter::Online => seq![seq![
            text("a.revoked_at IS NULL AND a.last_seen_at IS NOT NULL AND a.last_seen_at >= "@),
            bind_int(online_cutoff),
        ]],
        AgentStatusFilter::Offline => seq![seq![
            text("a.revoked_at IS NULL AND (a.last_seen_at IS NULL OR a.last_seen_at < "@),
            bind_int(online_cutoff),
            text(")"@),
        ]],
    };
    let search_cond: Seq<Seq<PieceView>> = match search {
        None => seq![],
        Some(s) => seq![seq![
            text("(LOWER(COALESCE(a.name, '')) LIKE "@),
            bind_text(like_pattern(s)),
            text(" OR LOWER(a.id) LIKE "@),
            bind_text(like_pattern(s)),
            text(")"@),
        ]],
    };
    label_cond + status_cond + search_cond
}

fn push_text(out: &mut Vec<SqlPiece>, s: &str)
    ensures
        pieces_view(final(out)@) == pieces_view(old(out)@).push(text(s@)),
{
    out.push(SqlPiece::Text(owned(s)));
    assert(pieces_view(out@) =~= pieces_view(old(out)@).push(text(s@)));
}

fn push_bind_text(out: &mut Vec<SqlPiece>, s: String)
    ensures
        pieces_view(final(out)@) == pieces_view(old(out)@).push(bind_text(s@)),
{
    out.push(SqlPiece::BindText(s));
    assert(pieces_view(out@) =~= pieces_view(old(out)@).push(bind_text(s@)));
}

fn push_bind_int(out: &mut Vec<SqlPiece>, n: i64)
    ensures
        pieces_view(final(out)@) == pieces_view(old(out)@).push(bind_int(n)),
{
    out.push(SqlPiece::BindInt(n));
    assert(pieces_view(out@) =~= pieces_view(old(out)@).push(bind_int(n)));
}

/// Appends one condition's pieces after the right joining word.
fn push_condition(out: &mut Vec<SqlPiece>, cond: Vec<SqlPiece>, conds_before: Ghost<Seq<Seq<PieceView>>>, has_where: bool)
    requires
        pieces_view(old(out)@) == where_clause(conds_before@),
        has_where == (conds_before@.len() > 0),
    ensures
        pieces_view(final(out)@) == where_clause(conds_before@.push(pieces_view(cond@))),
{
    let ghost conds = conds_before@.push(pieces_view(cond@));
    assert(conds.drop_last() =~= conds_before@);
    if has_where {
        push_text(out, " AND ");
    } else {
        push_text(out, " WHERE ");
    }
    let ghost before = pieces_view(out@);
    let mut c = cond;
    out.append(&mut c);
    assert(pieces_view(out@) =~= before + pieces_view(cond@));
}


fn push_bound_list(out: &mut Vec<SqlPiece>, values: &Vec<String>)
    ensures
        pieces_view(final(out)@) == pieces_view(old(out)@) + bound_list(views(values@)),
{
    let ghost start = pieces_view(out@);
    let mut i: usize = 0;
    assert(views(values@).take(0) =~= Seq::<Seq<char>>::empty());
    assert(start + bound_list(Seq::<Seq<char>>::empty()) =~= start);
    while i < values.len()
        invariant
            i <= values.len(),
            pieces_view(out@) == start + bound_list(views(values@).take(i as int)),
        decreases values.len() - i,
    {
        let ghost next = views(values@).take(i + 1);
        assert(next.drop_last() =~= views(values@).take(i as int));
        assert(next.last() == values@[i as int]@);
        if i > 0 {
            push_text(out, ", ");
        } else {
            assert(next =~= seq![values@[0]@]);
        }
        push_bind_text(out, values[i].clone());
        proof {
            if i > 0 {
                assert(bound_list(next) == bound_list(next.drop_last()) + seq![text(", "@), bind_text(next.last())]);
                assert(pieces_view(out@) =~= start + bound_list(next));
            } else {
                assert(pieces_view(out@) =~= start + bound_list(next));
            }
        }
        i = i + 1;
    }
    assert(views(values@).take(values.len() as int) =~= views(values@));
}

/// The label views.
pub open spec fn views(v: Seq<String>) -> Seq<Seq<char>> {
    v.map_values(|s: String| s@)
}

/// The filters of the agents list: labels (all of them, or any), status, and a search in
/// names and ids.
pub fn agent_list_filters(
    labels: &Vec<String>,
    mode: LabelsMode,
    status: AgentStatusFilter,
    online_cutoff: i64,
    search: Option<&str>,
) -> (r: Vec<SqlPiece>)
    requires
        labels.len() <= i64::MAX,
    ensures
        pieces_view(r@) == where_clause(agent_conditions(views(labels@), mode, status, online_cutoff, opt_str_view(search))),
{
    let mut out: Vec<SqlPiece> = Vec::new();
    let mut has_where = false;
    let ghost mut conds: Seq<Seq<PieceView>> = seq![];
    assert(pieces_view(out@) =~= where_clause(conds));
    if labels.len() > 0 {
        let mut c: Vec<SqlPiece> = Vec::new();
        push_text(&mut c, "a.id IN (");
        match mode {
            LabelsMode::And => {
                push_text(&mut c, "SELECT al2.agent_id FROM agent_labels al2 WHERE al2.label IN (");
                push_bound_list(&mut c, labels);
                push_text(&mut c, ")");
                push_text(&mut c, " GROUP BY al2.agent_id HAVING COUNT(DISTINCT al2.label) = ");
                push_bind_int(&mut c, labels.len() as i64);
            },
            LabelsMode::Or => {
                push_text(&mut c, "SELECT DISTINCT al2.agent_id FROM agent_labels al2 WHERE al2.label IN (");
                push_bound_list(&mut c, labels);
                push_text(&mut c, ")");
            },
        }
        push_text(&mut c, ")");
        let ghost cv = pieces_view(c@);
        proof {
            let labs = views(labels@);
            let inner = match mode {
                LabelsMode::And => seq![text("SELECT al2.agent_id FROM agent_labels al2 WHERE al2.label IN ("@)]
                    + bound_list(labs) + seq![text(")"@), text(" GROUP BY al2.agent_id HAVING COUNT(DISTINCT al2.label) = "@),
                    bind_int(labs.len() as i64)],
                LabelsMode::Or => seq![text("SELECT DISTINCT al2.agent_id FROM agent_labels al2 WHERE al2.label IN ("@)]
                    + bound_list(labs) + seq![text(")"@)],
            };
            assert(cv =~= seq![text("a.id IN ("@)] + inner + seq![text(")"@)]);
        }
        push_condition(&mut out, c, Ghost(conds), has_where);
        proof {
            conds = conds.push(cv);
        }
        has_where = true;
    }
    let ghost after_labels = conds;
    let status_cond: Option<Vec<SqlPiece>> = match status {
        AgentStatusFilter::All => None,
        AgentStatusFilter::Revoked => {
            let mut c: Vec<SqlPiece> = Vec::new();
            push_text(&mut c, "a.revoked_at IS NOT NULL");
            assert(pieces_view(c@) =~= seq![text("a.revoked_at IS NOT NULL"@)]);
            Some(c)
        },
        AgentStatusFilter::Online => {
            let mut c: Vec<SqlPiece> = Vec::new();
            push_text(&mut c, "a.revoked_at IS NULL AND a.last_seen_at IS NOT NULL AND a.last_seen_at >= ");
            push_bind_int(&mut c, online_cutoff);
            assert(pieces_view(c@) =~= seq![
                text("a.revoked_at IS NULL AND a.last_seen_at IS NOT NULL AND a.last_seen_at >= "@),
                bind_int(online_cutoff),
            ]);
            Some(c)
        },
        AgentStatusFilter::Offline => {
            let mut c: Vec<SqlPiece> = Vec::new();
            push_text(&mut c, "a.revoked_at IS NULL AND (a.last_seen_at IS NULL OR a.last_seen_at < ");
            push_bind_int(&mut c, online_cutoff);
            push_text(&mut c, ")");
            assert(pieces_view(c@) =~= seq![
                text("a.revoked_at IS NULL AND (a.last_seen_at IS NULL OR a.last_seen_at < "@),
                bind_int(online_cutoff),
                text(")"@),
            ]);
            Some(c)
        },
    };
    let ghost status_part: Seq<Seq<PieceView>> = match &status_cond {
        Some(c) => seq![pieces_view(c@)],
        None => seq![],
    };
    match status_cond {
        Some(c) => {
            let ghost cv = pieces_view(c@);
            push_condition(&mut out, c, Ghost(conds), has_where);
            proof {
                conds = conds.push(cv);
            }
            has_where = true;
        },
        None => {},
    }
    proof {
        assert(conds =~= after_labels + status_part);
    }
    let ghost after_status = conds;
    match search {
        Some(s) => {
            let pattern = owned("%").concat(to_lowercase(s).as_str()).concat("%");
            proof {
                reveal_strlit("%");
                assert(pattern@ =~= like_pattern(s@));
            }
            let mut c: Vec<SqlPiece> = Vec::new();
            push_text(&mut c, "(LOWER(COALESCE(a.name, '')) LIKE ");
            push_bind_text(&mut c, pattern.clone());
            push_text(&mut c, " OR LOWER(a.id) LIKE ");
            push_bind_text(&mut c, pattern);
            push_text(&mut c, ")");
            let ghost cv = pieces_view(c@);
            assert(cv =~= seq![
                text("(LOWER(COALESCE(a.name, '')) LIKE "@),
                bind_text(like_pattern(s@)),
                text(" OR LOWER(a.id) LIKE "@),
                bind_text(like_pattern(s@)),
                text(")"@),
            ]);
            push_condition(&mut out, c, Ghost(conds), has_where);
            proof {
                conds = conds.push(cv);
            }
        },
        None => {},
    }
    proof {
        let expected = agent_conditions(views(labels@), mode, status, online_cutoff, opt_str_view(search));
        assert(conds =~= expected);
    }
    out
}


/// The latest-run filter of the jobs list: any, jobs never run, or jobs whose latest run has
/// the given status (as the run status is written).
#[derive(Debug)]
pub enum JobLatestStatusFilter {
    All,
    Never,
    Status(String),
}

pub open spec fn job_conditions(
    include_archived: bool,
    node: JobNodeFilter,
    search: Option<Seq<char>>,
    latest: JobLatestStatusFilter,
    schedule: JobScheduleModeFilter,
) -> Seq<Seq<PieceView>> {
    let archived: Seq<Seq<PieceView>> = if include_archived { seq![] } else { seq![seq![text("j.archived_at IS NULL"@)]] };
    let node_part: Seq<Seq<PieceView>> = match node {
        JobNodeFilter::Any => seq![],
        JobNodeFilter::Hub => seq![seq![text("j.agent_id IS NULL"@)]],
        JobNodeFilter::Agent(a) => seq![seq![text("j.agent_id = "@), bind_text(a@)]],
    };
    let search_part: Seq<Seq<PieceView>> = match search {
        None => seq![],
        Some(s) => seq![seq![
            text("(LOWER(j.name) LIKE "@),
            bind_text(like_pattern(s)),
            text(" OR LOWER(j.id) LIKE "@),
            bind_text(like_pattern(s)),
            text(")"@),
        ]],
    };
    let latest_part: Seq<Seq<PieceView>> = match latest {
        JobLatestStatusFilter::All => seq![],
        JobLatestStatusFilter::Never => seq![seq![text("r.id IS NULL"@)]],
        JobLatestStatusFilter::Status(st) => seq![seq![text("r.status = "@), bind_text(st@)]],
    };
    let schedule_part: Seq<Seq<PieceView>> = match schedule {
        JobScheduleModeFilter::All => seq![],
        JobScheduleModeFilter::Manual => seq![seq![text("j.schedule IS NULL"@)]],
        JobScheduleModeFilter::Scheduled => seq![seq![text("j.schedule IS NOT NULL"@)]],
    };
    archived + node_part + search_part + latest_part + schedule_part
}

fn one_text(s: &str) -> (c: Vec<SqlPiece>)
    ensures
        pieces_view(c@) == seq![text(s@)],
{
    let mut c: Vec<SqlPiece> = Vec::new();
    push_text(&mut c, s);
    assert(pieces_view(c@) =~= seq![text(s@)]);
    c
}

fn text_then_bind(s: &str, v: String) -> (c: Vec<SqlPiece>)
    ensures
        pieces_view(c@) == seq![text(s@), bind_text(v@)],
{
    let mut c: Vec<SqlPiece> = Vec::new();
    push_text(&mut c, s);
    push_bind_text(&mut c, v);
    assert(pieces_view(c@) =~= seq![text(s@), bind_text(v@)]);
    c
}

/// Adds the condition, when there is one, to the clause built so far.
fn add_condition(out: &mut Vec<SqlPiece>, has_where: &mut bool, cond: Option<Vec<SqlPiece>>, conds: Ghost<Seq<Seq<PieceView>>>)
    requires
        pieces_view(old(out)@) == where_clause(conds@),
        *old(has_where) == (conds@.len() > 0),
    ensures
        ({
            let added = match cond { Some(c) => conds@.push(pieces_view(c@)), None => conds@ };
            &&& pieces_view(final(out)@) == where_clause(added)
            &&& *final(has_where) == (added.len() > 0)
        }),
{
    match cond {
        Some(c) => {
            push_condition(out, c, conds, *has_where);
            *has_where = true;
        },
        None => {},
    }
}

/// The filters of the jobs list: archived jobs, node, a search in names and ids, the
/// latest run's status and the schedule mode.
pub fn job_list_filters(
    include_archived: bool,
    node: &JobNodeFilter,
    search: Option<&str>,
    latest: &JobLatestStatusFilter,
    schedule: JobScheduleModeFilter,
) -> (r: Vec<SqlPiece>)
    ensures
        pieces_view(r@) == where_clause(job_conditions(include_archived, *node, opt_str_view(search), *latest, schedule)),
{
    let mut out: Vec<SqlPiece> = Vec::new();
    let mut has_where = false;
    let ghost mut conds: Seq<Seq<PieceView>> = seq![];
    assert(pieces_view(out@) =~= where_clause(conds));

    let c1 = if include_archived { None } else { Some(one_text("j.archived_at IS NULL")) };
    let ghost v1: Seq<Seq<PieceView>> = match &c1 { Some(c) => seq![pieces_view(c@)], None => seq![] };
    add_condition(&mut out, &mut has_where, c1, Ghost(conds));
    proof { conds = if v1.len() > 0 { conds.push(v1[0]) } else { conds }; }

    let c2 = match node {
        JobNodeFilter::Any => None,
        JobNodeFilter::Hub => Some(one_text("j.agent_id IS NULL")),
        JobNodeFilter::Agent(a) => Some(text_then_bind("j.agent_id = ", a.clone())),
    };
    let ghost v2: Seq<Seq<PieceView>> = match &c2 { Some(c) => seq![pieces_view(c@)], None => seq![] };
    add_condition(&mut out, &mut has_where, c2, Ghost(conds));
    proof { conds = if v2.len() > 0 { conds.push(v2[0]) } else { conds }; }

    let c3 = match search {
        None => None,
        Some(s) => {
            let pattern = owned("%").concat(to_lowercase(s).as_str()).concat("%");
            proof {
                reveal_strlit("%");
                assert(pattern@ =~= like_pattern(s@));
            }
            let mut c: Vec<SqlPiece> = Vec::new();
            push_text(&mut c, "(LOWER(j.name) LIKE ");
            push_bind_text(&mut c, pattern.clone());
            push_text(&mut c, " OR LOWER(j.id) LIKE ");
            push_bind_text(&mut c, pattern);
            push_text(&mut c, ")");
            assert(pieces_view(c@) =~= seq![
                text("(LOWER(j.name) LIKE "@),
                bind_text(like_pattern(s@)),
                text(" OR LOWER(j.id) LIKE "@),
                bind_text(like_pattern(s@)),
                text(")"@),
            ]);
            Some(c)
        },
    };
    let ghost v3: Seq<Seq<PieceView>> = match &c3 { Some(c) => seq![pieces_view(c@)], None => seq![] };
    add_condition(&mut out, &mut has_where, c3, Ghost(conds));
    proof { conds = if v3.len() > 0 { conds.push(v3[0]) } else { conds }; }

    let c4 = match latest {
        JobLatestStatusFilter::All => None,
        JobLatestStatusFilter::Never => Some(one_text("r.id IS NULL")),
        JobLatestStatusFilter::Status(st) => Some(text_then_bind("r.status = ", st.clone())),
    };
    let ghost v4: Seq<Seq<PieceView>> = match &c4 { Some(c) => seq![pieces_view(c@)], None => seq![] };
    add_condition(&mut out, &mut has_where, c4, Ghost(conds));
    proof { conds = if v4.len() > 0 { conds.push(v4[0]) } else { conds }; }

    let c5 = match schedule {
        JobScheduleModeFilter::All => None,
        JobScheduleModeFilter::Manual => Some(one_text("j.schedule IS NULL")),
        JobScheduleModeFilter::Scheduled => Some(one_text("j.schedule IS NOT NULL")),
    };
    let ghost v5: Seq<Seq<PieceView>> = match &c5 { Some(c) => seq![pieces_view(c@)], None => seq![] };
    add_condition(&mut out, &mut has_where, c5, Ghost(conds));
    proof {
        conds = if v5.len() > 0 { conds.push(v5[0]) } else { conds };
        let expected = job_conditions(include_archived, *node, opt_str_view(search), *latest, schedule);
        assert(conds =~= expected);
    }
    out
}

} // verus!
