//! Bulk operations over many agents: what they may be, which agents they name, and what a
//! preview shows for each agent.
use vstd::prelude::*;
use crate::error::{AppError, STATUS_BAD_REQUEST, plain_error};
use crate::list_paging::opt_view;
use crate::numfmt::{decimal, u64_to_decimal, lemma_decimal_injective};
use crate::sorted_text::{views, strictly_ascending, insert_sorted};
use crate::text::{trim, trim_str, owned, str_eq, chars_of, chars_match_at, push_char};
use crate::labels::{LabelsMode, labels_mode_spec, normalize_labels, parse_labels_mode, first_bad_label,
    label_problem, trimmed_all};
use crate::list_paging::opt_str_view;

verus! {

/// The distinct non-blank trimmed ids among the first entries of `values`.
pub open spec fn node_id_set(values: Seq<String>) -> Set<Seq<char>> {
    Set::new(|x: Seq<char>| x.len() > 0 && exists|i: int| 0 <= i < values.len() && trim(#[trigger] values[i]@) == x)
}

/// The given agent ids trimmed, without blanks, sorted and without repeats.
pub fn normalize_node_ids(values: Vec<String>) -> (r: Vec<String>)
    ensures
        strictly_ascending(views(r@)),
        views(r@).to_set() == node_id_set(values@),
{
    let mut out: Vec<String> = Vec::new();
    let mut i: usize = 0;
    assert(views(out@).to_set() =~= node_id_set(values@.take(0)));
    while i < values.len()
        invariant
            i <= values.len(),
            strictly_ascending(views(out@)),
            views(out@).to_set() == node_id_set(values@.take(i as int)),
        decreases values.len() - i,
    {
        let t = trim_str(values[i].as_str());
        let ghost before = node_id_set(values@.take(i as int));
        let ghost next = node_id_set(values@.take(i + 1));
        proof {
            assert forall|x: Seq<char>| #[trigger] next.contains(x) <==> (before.contains(x) || (x == t@ && t@.len() > 0)) by {
                if next.contains(x) {
                    let k = choose|k: int| 0 <= k < i + 1 && trim(#[trigger] values@.take(i + 1)[k]@) == x;
                    if k < i {
                        assert(values@.take(i as int)[k] == values@.take(i + 1)[k]);
                    }
                }
                if before.contains(x) {
                    let k = choose|k: int| 0 <= k < i && trim(#[trigger] values@.take(i as int)[k]@) == x;
                    assert(values@.take(i + 1)[k] == values@.take(i as int)[k]);
                }
                if x == t@ && t@.len() > 0 {
                    assert(values@.take(i + 1)[i as int] == values@[i as int]);
                }
            }
        }
        if t.unicode_len() > 0 {
            insert_sorted(&mut out, owned(t));
            assert(views(out@).to_set() =~= next);
        } else {
            assert(before =~= next);
        }
        i = i + 1;
    }
    assert(values@.take(values.len() as int) =~= values@);
    out
}

pub open spec fn known_kind(kind: Seq<char>) -> bool {
    kind == "agent_labels_add"@ || kind == "agent_labels_remove"@ || kind == "sync_config_now"@
        || kind == "job_deploy"@ || kind == "webdav_secret_distribute"@
}

/// The kind itself when it is one that bulk operations know.
pub fn validate_kind(kind: &str) -> (r: Result<&str, AppError>)
    ensures
        known_kind(kind@) ==> r == Ok::<&str, AppError>(kind),
        !known_kind(kind@) ==> r is Err && plain_error(r->Err_0, STATUS_BAD_REQUEST, "invalid_kind"@, "Invalid kind"@),
{
    if str_eq(kind, "agent_labels_add") || str_eq(kind, "agent_labels_remove") || str_eq(kind, "sync_config_now")
        || str_eq(kind, "job_deploy") || str_eq(kind, "webdav_secret_distribute") {
        Ok(kind)
    } else {
        Err(AppError::bad_request("invalid_kind", "Invalid kind"))
    }
}

/// What distributing a WebDAV credential does to one agent: an existing credential is kept
/// unless overwriting, otherwise it is written.
pub fn webdav_preview_action(has_secret: bool, overwrite: bool) -> (r: (&'static str, Option<String>))
    ensures
        has_secret && !overwrite ==> r.0@ == "skip"@ && opt_view(r.1) == Some("already exists"@),
        !(has_secret && !overwrite) ==> r.0@ == "update"@ && r.1 is None,
{
    if has_secret && !overwrite {
        ("skip", Some(owned("already exists")))
    } else {
        ("update", None)
    }
}

/// Every non-overlapping occurrence of `p` in `s`, left to right, replaced by `w`.
pub open spec fn replace_all(s: Seq<char>, p: Seq<char>, w: Seq<char>) -> Seq<char>
    recommends
        p.len() > 0,
    decreases s.len(),
{
    if s.len() == 0 || p.len() == 0 {
        s
    } else if p.len() <= s.len() && s.take(p.len() as int) == p {
        w + replace_all(s.skip(p.len() as int), p, w)
    } else {
        seq![s[0]] + replace_all(s.drop_first(), p, w)
    }
}

/// `s` with every occurrence of `p` replaced by `w`, as `str::replace` does.
pub fn replace_text(s: &str, p: &str, w: &str) -> (r: String)
    requires
        p@.len() > 0,
    ensures
        r@ == replace_all(s@, p@, w@),
{
    let v = chars_of(s);
    let pv = chars_of(p);
    let wv = chars_of(w);
    let mut out = String::new();
    let mut i: usize = 0;
    assert(v@.skip(0) =~= v@);
    while i < v.len()
        invariant
            v@ == s@,
            pv@ == p@,
            wv@ == w@,
            p@.len() > 0,
            i <= v.len(),
            out@ + replace_all(v@.skip(i as int), p@, w@) == replace_all(s@, p@, w@),
        decreases v.len() - i,
    {
        let ghost rest = v@.skip(i as int);
        if chars_match_at(&v, i, &pv) {
            proof {
                assert(rest.take(p@.len() as int) =~= v@.subrange(i as int, i + pv.len()));
                assert(rest.skip(p@.len() as int) =~= v@.skip(i + pv.len()));
                assert(out@ + w@ + replace_all(v@.skip(i + pv.len()), p@, w@) =~= out@ + replace_all(rest, p@, w@));
            }
            out.append(w);
            i = i + pv.len();
        } else {
            proof {
                if p@.len() <= rest.len() {
                    assert(rest.take(p@.len() as int) =~= v@.subrange(i as int, i + pv.len()));
                }
                assert(rest[0] == v@[i as int]);
                assert(rest.drop_first() =~= v@.skip(i + 1));
                assert(out@.push(v@[i as int]) + replace_all(v@.skip(i + 1), p@, w@) =~= out@ + replace_all(rest, p@, w@));
            }
            push_char(&mut out, v[i]);
            i = i + 1;
        }
    }
    assert(v@.skip(v.len() as int) =~= Seq::<char>::empty());
    assert(out@ + Seq::<char>::empty() =~= out@);
    out
}

/// The template for names of deployed jobs: the given one trimmed, or "{name} ({node})".
pub open spec fn name_template_spec(raw: Option<Seq<char>>) -> Seq<char> {
    let t = match raw {
        Some(s) => trim(s),
        None => Seq::<char>::empty(),
    };
    if t.len() == 0 {
        "{name} ({node})"@
    } else {
        t
    }
}

pub fn effective_name_template(raw: Option<String>) -> (r: String)
    ensures
        r@ == name_template_spec(opt_view(raw)),
{
    let t: String = match &raw {
        Some(s) => owned(trim_str(s.as_str())),
        None => String::new(),
    };
    if t.unicode_len() == 0 {
        owned("{name} ({node})")
    } else {
        t
    }
}

/// The template with the source job's name and the agent id filled in, trimmed.
pub open spec fn planned_base_spec(template: Seq<char>, source_name: Seq<char>, agent_id: Seq<char>) -> Seq<char> {
    trim(replace_all(replace_all(template, "{name}"@, source_name), "{node}"@, agent_id))
}

pub fn planned_base_name(template: &str, source_name: &str, agent_id: &str) -> (r: String)
    ensures
        r@ == planned_base_spec(template@, source_name@, agent_id@),
{
    proof {
        reveal_strlit("{name}");
        reveal_strlit("{node}");
    }
    let named = replace_text(template, "{name}", source_name);
    let placed = replace_text(named.as_str(), "{node}", agent_id);
    owned(trim_str(placed.as_str()))
}

/// The `i`-th alternative to a taken name.
pub open spec fn numbered(base: Seq<char>, i: nat) -> Seq<char> {
    base + " #"@ + decimal(i)
}

/// The base name when it is free, else the first of "base #2", "base #3", ... that is.
pub open spec fn is_free_name(base: Seq<char>, used: Seq<Seq<char>>, r: Seq<char>) -> bool {
    if !used.contains(base) {
        r == base
    } else {
        exists|i: nat|
            i >= 2 && r == #[trigger] numbered(base, i) && !used.contains(r)
                && forall|j: nat| 2 <= j < i ==> used.contains(#[trigger] numbered(base, j))
    }
}

fn name_used(used: &Vec<String>, name: &str) -> (r: bool)
    ensures
        r == views(used@).contains(name@),
{
    let mut i: usize = 0;
    while i < used.len()
        invariant
            i <= used.len(),
            forall|k: int| 0 <= k < i ==> (#[trigger] used@[k])@ != name@,
        decreases used.len() - i,
    {
        if str_eq(used[i].as_str(), name) {
            assert(views(used@)[i as int] == name@);
            return true;
        }
        i = i + 1;
    }
    proof {
        if views(used@).contains(name@) {
            let k = choose|k: int| 0 <= k < views(used@).len() && views(used@)[k] == name@;
            assert(used@[k]@ == name@);
        }
    }
    false
}

proof fn lemma_numbered_injective(base: Seq<char>, i: nat, j: nat)
    requires
        numbered(base, i) == numbered(base, j),
    ensures
        i == j,
{
    reveal_strlit(" #");
    let a = numbered(base, i);
    let b = numbered(base, j);
    let off = base.len() + 2;
    assert(a.skip(off as int) =~= decimal(i));
    assert(b.skip(off as int) =~= decimal(j));
    lemma_decimal_injective(i, j);
}

/// Among `n` distinct names all taken, there are no more than there are taken names.
proof fn lemma_taken_bound(base: Seq<char>, used: Seq<Seq<char>>, n: nat)
    requires
        forall|j: nat| 2 <= j < n + 2 ==> used.contains(#[trigger] numbered(base, j)),
    ensures
        n <= used.len(),
{
    let cands = Seq::new(n, |k: int| numbered(base, (k + 2) as nat));
    assert(cands.no_duplicates()) by {
        assert forall|a: int, b: int| 0 <= a < cands.len() && 0 <= b < cands.len() && a != b implies cands[a] != cands[b] by {
            if cands[a] == cands[b] {
                lemma_numbered_injective(base, (a + 2) as nat, (b + 2) as nat);
            }
        }
    }
    cands.unique_seq_to_set();
    assert(cands.to_set().subset_of(used.to_set())) by {
        assert forall|x: Seq<char>| cands.to_set().contains(x) implies used.to_set().contains(x) by {
            let k = choose|k: int| 0 <= k < cands.len() && cands[k] == x;
            assert(used.contains(numbered(base, (k + 2) as nat)));
        }
    }
    used.lemma_cardinality_of_set();
    vstd::set_lib::lemma_len_subset(cands.to_set(), used.to_set());
}

/// A name for the deployed job that no job of the agent has yet.
pub fn free_job_name(base: &str, used: &Vec<String>) -> (r: String)
    requires
        used.len() + 2 <= u64::MAX,
    ensures
        is_free_name(base@, views(used@), r@),
{
    if !name_used(used, base) {
        return owned(base);
    }
    let ghost u = views(used@);
    let mut i: u64 = 2;
    let mut candidate = owned(base).concat(" #").concat(u64_to_decimal(2).as_str());
    proof {
        reveal_strlit(" #");
    }
    while name_used(used, candidate.as_str())
        invariant
            u == views(used@),
            used.len() + 2 <= u64::MAX,
            2 <= i <= used.len() + 2,
            candidate@ == numbered(base@, i as nat),
            forall|j: nat| 2 <= j < i ==> u.contains(#[trigger] numbered(base@, j)),
        decreases used.len() + 2 - i,
    {
        proof {
            assert forall|j: nat| 2 <= j < i + 1 implies u.contains(#[trigger] numbered(base@, j)) by {
                if j == i {
                    assert(u.contains(candidate@));
                }
            }
            lemma_taken_bound(base@, u, (i - 1) as nat);
            assert(u.len() == used.len());
        }
        i = i + 1;
        candidate = owned(base).concat(" #").concat(u64_to_decimal(i).as_str());
    }
    proof {
        assert(!u.contains(candidate@));
        assert(numbered(base@, i as nat) == candidate@);
    }
    candidate
}


/// The agent ids depend only on which non-blank ids are given: any order and any repeats of
/// the same trimmed ids give the same list.
pub proof fn lemma_node_ids_order_free(v1: Seq<String>, out1: Seq<String>, v2: Seq<String>, out2: Seq<String>)
    requires
        strictly_ascending(views(out1)),
        views(out1).to_set() == node_id_set(v1),
        strictly_ascending(views(out2)),
        views(out2).to_set() == node_id_set(v2),
        node_id_set(v1) == node_id_set(v2),
    ensures
        views(out1) == views(out2),
{
    crate::sorted_text::lemma_ascending_unique(views(out1), views(out2));
}

/// Normalizing agent ids twice gives what normalizing once gave.
pub proof fn lemma_node_ids_idempotent(values: Seq<String>, out: Seq<String>, again: Seq<String>)
    requires
        strictly_ascending(views(out)),
        views(out).to_set() == node_id_set(values),
        strictly_ascending(views(again)),
        views(again).to_set() == node_id_set(out),
    ensures
        views(again) == views(out),
{
    assert(node_id_set(out) =~= views(out).to_set()) by {
        assert forall|x: Seq<char>| node_id_set(out).contains(x) <==> views(out).to_set().contains(x) by {
            if node_id_set(out).contains(x) {
                let i = choose|i: int| 0 <= i < out.len() && trim(#[trigger] out[i]@) == x;
                assert(views(out)[i] == out[i]@);
                assert(views(out).to_set().contains(out[i]@));
                assert(node_id_set(values).contains(out[i]@));
                let j = choose|j: int| 0 <= j < values.len() && trim(#[trigger] values[j]@) == out[i]@;
                crate::text::lemma_trim_idempotent(values[j]@);
                assert(views(out).contains(x));
            }
            if views(out).to_set().contains(x) {
                let i = choose|i: int| 0 <= i < views(out).len() && views(out)[i] == x;
                assert(views(out)[i] == out[i]@);
                assert(node_id_set(values).contains(x));
                let j = choose|j: int| 0 <= j < values.len() && trim(#[trigger] values[j]@) == x;
                crate::text::lemma_trim_idempotent(values[j]@);
                assert(trim(out[i]@) == x);
            }
        }
    }
    crate::sorted_text::lemma_ascending_unique(views(again), views(out));
}

/// The agents a bulk operation is aimed at: named one by one, or by labels.
#[derive(Debug)]
pub enum BulkSelector {
    Nodes(Vec<String>),
    Labels(Vec<String>, LabelsMode),
}

pub open spec fn list_or_empty(v: Option<Vec<String>>) -> Seq<String> {
    match v {
        Some(v) => v@,
        None => Seq::empty(),
    }
}

/// Reads a selector: given agent ids win, then labels (with their mode); one of the two must
/// name something.
pub fn plan_selector(node_ids: Option<Vec<String>>, labels: Option<Vec<String>>, labels_mode: Option<&str>)
    -> (r: Result<BulkSelector, AppError>)
    ensures
        list_or_empty(node_ids).len() > 0 ==> {
            let wanted = node_id_set(list_or_empty(node_ids));
            if wanted.len() == 0 {
                r is Err && plain_error(r->Err_0, STATUS_BAD_REQUEST, "invalid_selector"@, "Selector is required"@)
            } else {
                r matches Ok(BulkSelector::Nodes(ids)) && strictly_ascending(views(ids@))
                    && views(ids@).to_set() == wanted
            }
        },
        list_or_empty(node_ids).len() == 0 && list_or_empty(labels).len() > 0 ==> {
            let given = list_or_empty(labels);
            match r {
                Ok(sel) => {
                    &&& forall|i: int| 0 <= i < given.len() ==> label_problem(#[trigger] given[i]@) is None
                    &&& labels_mode_spec(opt_str_view(labels_mode)) is Some
                    &&& sel matches BulkSelector::Labels(out, m) && strictly_ascending(views(out@))
                        && views(out@).to_set() == trimmed_all(given).to_set()
                        && labels_mode_spec(opt_str_view(labels_mode)) == Some(m)
                },
                Err(e) => (exists|i: int| #[trigger] first_bad_label(given, i, e))
                    || ((forall|i: int| 0 <= i < given.len() ==> label_problem(#[trigger] given[i]@) is None)
                        && labels_mode_spec(opt_str_view(labels_mode)) is None
                        && plain_error(e, STATUS_BAD_REQUEST, "invalid_labels_mode"@, "Invalid labels_mode"@)),
            }
        },
        list_or_empty(node_ids).len() == 0 && list_or_empty(labels).len() == 0 ==> r is Err
            && plain_error(r->Err_0, STATUS_BAD_REQUEST, "invalid_selector"@, "Selector is required"@),
{
    let ghost nodes = list_or_empty(node_ids);
    let ghost given = list_or_empty(labels);
    let ids: Vec<String> = match node_ids {
        Some(v) => v,
        None => Vec::new(),
    };
    if ids.len() > 0 {
        let out = normalize_node_ids(ids);
        if out.len() == 0 {
            proof {
                assert(views(out@).to_set() =~= Set::<Seq<char>>::empty());
            }
            return Err(AppError::bad_request("invalid_selector", "Selector is required"));
        }
        proof {
            assert(views(out@).to_set().contains(views(out@)[0]));
            vstd::seq_lib::seq_to_set_is_finite(views(out@));
        }
        return Ok(BulkSelector::Nodes(out));
    }
    let ls: Vec<String> = match labels {
        Some(v) => v,
        None => Vec::new(),
    };
    if ls.len() > 0 {
        let out = match normalize_labels(ls) {
            Ok(out) => out,
            Err(e) => { return Err(e); },
        };
        let mode = match parse_labels_mode(labels_mode) {
            Ok(m) => m,
            Err(e) => { return Err(e); },
        };
        return Ok(BulkSelector::Labels(out, mode));
    }
    Err(AppError::bad_request("invalid_selector", "Selector is required"))
}

/// Every requested agent must have been found.
pub fn check_agents_found(requested: usize, found: usize) -> (r: Result<(), AppError>)
    ensures
        requested == found ==> r is Ok,
        requested != found ==> r is Err && plain_error(r->Err_0, STATUS_BAD_REQUEST, "invalid_selector"@,
            "One or more agents were not found"@),
{
    if requested != found {
        return Err(AppError::bad_request("invalid_selector", "One or more agents were not found"));
    }
    Ok(())
}

/// Labels must resolve to at least one agent.
pub fn check_labels_resolved(resolved: usize) -> (r: Result<(), AppError>)
    ensures
        resolved > 0 ==> r is Ok,
        resolved == 0 ==> r is Err && plain_error(r->Err_0, STATUS_BAD_REQUEST, "invalid_selector"@,
            "Selector resolved to no agents"@),
{
    if resolved == 0 {
        return Err(AppError::bad_request("invalid_selector", "Selector resolved to no agents"));
    }
    Ok(())
}

/// The labels of an add or remove operation: valid, normalized, and at least one.
pub fn labels_payload(labels: Vec<String>) -> (r: Result<Vec<String>, AppError>)
    ensures
        match r {
            Ok(out) => {
                &&& forall|i: int| 0 <= i < labels.len() ==> label_problem(#[trigger] labels@[i]@) is None
                &&& out.len() > 0
                &&& strictly_ascending(views(out@))
                &&& views(out@).to_set() == trimmed_all(labels@).to_set()
            },
            Err(e) => (exists|i: int| #[trigger] first_bad_label(labels@, i, e))
                || ((forall|i: int| 0 <= i < labels.len() ==> label_problem(#[trigger] labels@[i]@) is None)
                    && trimmed_all(labels@).to_set().len() == 0
                    && plain_error(e, STATUS_BAD_REQUEST, "invalid_payload"@, "Labels is required"@)),
        },
{
    let out = match normalize_labels(labels) {
        Ok(out) => out,
        Err(e) => { return Err(e); },
    };
    if out.len() == 0 {
        proof {
            assert(views(out@).to_set() =~= Set::<Seq<char>>::empty());
        }
        return Err(AppError::bad_request("invalid_payload", "Labels is required"));
    }
    Ok(out)
}

fn required_payload_text(raw: &str, message: &str) -> (r: Result<String, AppError>)
    ensures
        trim(raw@).len() > 0 ==> (r matches Ok(t) && t@ == trim(raw@)),
        trim(raw@).len() == 0 ==> r is Err && plain_error(r->Err_0, STATUS_BAD_REQUEST, "invalid_payload"@, message@),
{
    let t = trim_str(raw);
    if t.unicode_len() == 0 {
        return Err(AppError::bad_request("invalid_payload", message));
    }
    Ok(owned(t))
}

/// The source job of a deploy operation, trimmed; it must be given.
pub fn deploy_source_job_id(raw: &str) -> (r: Result<String, AppError>)
    ensures
        trim(raw@).len() > 0 ==> (r matches Ok(t) && t@ == trim(raw@)),
        trim(raw@).len() == 0 ==> r is Err && plain_error(r->Err_0, STATUS_BAD_REQUEST, "invalid_payload"@,
            "source_job_id is required"@),
{
    required_payload_text(raw, "source_job_id is required")
}

/// The credential name of a distribute operation, trimmed; it must be given.
pub fn distribute_secret_name(raw: &str) -> (r: Result<String, AppError>)
    ensures
        trim(raw@).len() > 0 ==> (r matches Ok(t) && t@ == trim(raw@)),
        trim(raw@).len() == 0 ==> r is Err && plain_error(r->Err_0, STATUS_BAD_REQUEST, "invalid_payload"@,
            "Name is required"@),
{
    required_payload_text(raw, "Name is required")
}

/// The kinds of bulk operation that can be previewed.
#[derive(Debug, Clone, Copy, PartialEq, Eq, Structural)]
pub enum PreviewKind {
    WebdavSecretDistribute,
    JobDeploy,
}

/// Which preview a kind gets; the other kinds have none.
pub fn preview_kind(kind: &str) -> (r: Result<PreviewKind, AppError>)
    ensures
        kind@ == "webdav_secret_distribute"@ ==> r == Ok::<PreviewKind, AppError>(PreviewKind::WebdavSecretDistribute),
        kind@ == "job_deploy"@ ==> r == Ok::<PreviewKind, AppError>(PreviewKind::JobDeploy),
        kind@ != "webdav_secret_distribute"@ && kind@ != "job_deploy"@ ==> r is Err && plain_error(r->Err_0,
            STATUS_BAD_REQUEST, "preview_not_supported"@, "Preview not supported for this kind"@),
{
    proof {
        reveal_strlit("webdav_secret_distribute");
        reveal_strlit("job_deploy");
        assert("webdav_secret_distribute"@.len() != "job_deploy"@.len());
    }
    if str_eq(kind, "webdav_secret_distribute") {
        Ok(PreviewKind::WebdavSecretDistribute)
    } else if str_eq(kind, "job_deploy") {
        Ok(PreviewKind::JobDeploy)
    } else {
        Err(AppError::bad_request("preview_not_supported", "Preview not supported for this kind"))
    }
}

} // verus!
