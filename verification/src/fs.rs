//! Directory listings: option handling, filtering, cursor pagination and error mapping.
//! Reading the directory is the caller's part; it hands every entry over as plain values.
use vstd::prelude::*;
use crate::error::{AppError, IoKind, plain_error, STATUS_BAD_REQUEST, STATUS_NOT_FOUND, STATUS_FORBIDDEN};
use crate::json::{JsonValue, is_str, json_str};
use crate::list_paging::{
    SortBy, SortDir, SortKey, CursorKey, key_order, rank_kind, rank_kind_spec, blank_to_none,
    opt_view, sort_by_spec, sort_dir_spec, parse_sort_by, parse_sort_dir, trimmed_non_blank,
};
use crate::select::{select_first, is_first_selection};
use crate::text::{has_infix, trim, unicode_lowercase, to_lowercase, chars_of, chars_contain, trim_str};

verus! {

pub const DEFAULT_LIMIT: u32 = 200;
pub const MAX_LIMIT: u32 = 2000;

#[derive(Clone, Copy, Debug, PartialEq, Eq, Structural)]
pub enum EntryKind {
    Dir,
    File,
    Symlink,
    Other,
}

/// One directory entry as read from the filesystem: its metadata where it could be read
/// (size 0 and no mtime otherwise).
#[derive(Debug)]
pub struct DirEntryInfo {
    pub name: String,
    pub path: String,
    pub kind: EntryKind,
    pub size: u64,
    pub mtime: Option<i64>,
}

/// The query options of a listing request.
#[derive(Debug)]
pub struct FsListOptions {
    pub cursor: Option<String>,
    pub limit: Option<u32>,
    pub q: Option<String>,
    pub kind: Option<String>,
    pub hide_dotfiles: bool,
    pub type_sort: Option<String>,
    pub sort_by: Option<String>,
    pub sort_dir: Option<String>,
    pub size_min_bytes: Option<u64>,
    pub size_max_bytes: Option<u64>,
}

/// The listing request with its options checked and normalized.
#[derive(Debug)]
pub struct ListPlan {
    /// Cursor text to decode, when one was given.
    pub cursor: Option<String>,
    /// Lowercased search text.
    pub needle: Option<String>,
    pub kind_filter: Option<String>,
    pub hide_dotfiles: bool,
    pub type_sort: Option<String>,
    pub sort_by: SortBy,
    pub sort_dir: SortDir,
    pub limit: usize,
    pub size_min_bytes: Option<u64>,
    pub size_max_bytes: Option<u64>,
}

#[derive(Debug)]
pub struct FsListEntry {
    pub name: String,
    pub path: String,
    pub kind: String,
    pub size: u64,
    pub mtime: Option<i64>,
}

#[derive(Debug)]
pub struct FsListPage {
    pub entries: Vec<FsListEntry>,
    pub next_cursor: Option<CursorKey>,
    pub total: u64,
}

pub open spec fn kind_text(k: EntryKind) -> Seq<char> {
    match k {
        EntryKind::Dir => "dir"@,
        EntryKind::File => "file"@,
        EntryKind::Symlink => "symlink"@,
        EntryKind::Other => "other"@,
    }
}

pub fn kind_name(k: EntryKind) -> (r: &'static str)
    ensures
        r@ == kind_text(k),
{
    match k {
        EntryKind::Dir => "dir",
        EntryKind::File => "file",
        EntryKind::Symlink => "symlink",
        EntryKind::Other => "other",
    }
}

/// The page size: 200 unless given, clamped to `1..=2000`.
pub open spec fn limit_spec(limit: Option<u32>) -> int {
    let l = match limit {
        Some(l) => l as int,
        None => DEFAULT_LIMIT as int,
    };
    if l < 1 {
        1
    } else if l > MAX_LIMIT as int {
        MAX_LIMIT as int
    } else {
        l
    }
}

/// The plan for valid options; which error comes for invalid ones is in `plan_listing`.
pub open spec fn plan_matches(opts: FsListOptions, p: ListPlan) -> bool {
    &&& opt_view(p.cursor) == blank_to_none(opt_view(opts.cursor))
    &&& opt_view(p.needle) == match blank_to_none(opt_view(opts.q)) {
        Some(q) => Some(unicode_lowercase(q)),
        None => None,
    }
    &&& opt_view(p.kind_filter) == blank_to_none(opt_view(opts.kind))
    &&& opt_view(p.type_sort) == blank_to_none(opt_view(opts.type_sort))
    &&& p.hide_dotfiles == opts.hide_dotfiles
    &&& sort_by_spec(opt_view(opts.sort_by)) == Some(p.sort_by)
    &&& sort_dir_spec(opt_view(opts.sort_dir)) == Some(p.sort_dir)
    &&& p.limit as int == limit_spec(opts.limit)
    &&& p.size_min_bytes == opts.size_min_bytes
    &&& p.size_max_bytes == opts.size_max_bytes
}

fn opt_trimmed(raw: &Option<String>) -> (r: Option<String>)
    ensures
        opt_view(r) == blank_to_none(opt_view(*raw)),
{
    match raw {
        Some(s) => trimmed_non_blank(Some(s.as_str())),
        None => None,
    }
}

/// Checks and normalizes the options: an unknown `sort_by` or `sort_dir` is refused,
/// in that order.
pub fn plan_listing(opts: FsListOptions) -> (r: Result<ListPlan, AppError>)
    ensures
        sort_by_spec(opt_view(opts.sort_by)) is None ==> r is Err && plain_error(
            r->Err_0,
            STATUS_BAD_REQUEST,
            "invalid_sort_by"@,
            "invalid sort_by"@,
        ),
        sort_by_spec(opt_view(opts.sort_by)) is Some && sort_dir_spec(opt_view(opts.sort_dir)) is None
            ==> r is Err && plain_error(r->Err_0, STATUS_BAD_REQUEST, "invalid_sort_dir"@, "invalid sort_dir"@),
        sort_by_spec(opt_view(opts.sort_by)) is Some && sort_dir_spec(opt_view(opts.sort_dir)) is Some
            ==> r is Ok && plan_matches(opts, r->Ok_0),
{
    let ghost o = opts;
    let cursor = opt_trimmed(&opts.cursor);
    let q = opt_trimmed(&opts.q);
    let kind_filter = opt_trimmed(&opts.kind);
    let type_sort = opt_trimmed(&opts.type_sort);
    let sort_by = parse_sort_by(opts.sort_by)?;
    let sort_dir = parse_sort_dir(opts.sort_dir)?;
    let needle = match q {
        Some(t) => Some(to_lowercase(t.as_str())),
        None => None,
    };
    let l = match opts.limit {
        Some(l) => l,
        None => DEFAULT_LIMIT,
    };
    let limit = if l < 1 {
        1
    } else if l > MAX_LIMIT {
        MAX_LIMIT
    } else {
        l
    };
    Ok(
        ListPlan {
            cursor,
            needle,
            kind_filter,
            hide_dotfiles: opts.hide_dotfiles,
            type_sort,
            sort_by,
            sort_dir,
            limit: limit as usize,
            size_min_bytes: opts.size_min_bytes,
            size_max_bytes: opts.size_max_bytes,
        },
    )
}

/// The sort key a decoded cursor stands for, given the plan.
pub open spec fn cursor_key_matches(plan: ListPlan, c: CursorKey, k: SortKey) -> bool {
    &&& k.by == plan.sort_by && k.dir == plan.sort_dir
    &&& k.rank == c.rank && k.name == c.name
    &&& k.mtime == match c.mtime {
        Some(m) => m,
        None => 0,
    }
    &&& k.size == match c.size {
        Some(s) => s,
        None => 0,
    }
}

/// Turns a decoded cursor into a sort key. The cursor must carry the plan's sort options
/// (name ascending when it names none), and the mtime or size that the plan sorts on.
pub fn resolve_cursor(plan: &ListPlan, c: CursorKey) -> (r: Result<SortKey, AppError>)
    ensures
        ({
            let by = match c.sort_by { Some(b) => b, None => SortBy::Name };
            let dir = match c.sort_dir { Some(d) => d, None => SortDir::Asc };
            if by != plan.sort_by || dir != plan.sort_dir {
                r is Err && plain_error(r->Err_0, STATUS_BAD_REQUEST, "invalid_cursor"@, "cursor sort options mismatch"@)
            } else if plan.sort_by == SortBy::Mtime && c.mtime is None {
                r is Err && plain_error(r->Err_0, STATUS_BAD_REQUEST, "invalid_cursor"@, "cursor missing mtime key"@)
            } else if plan.sort_by == SortBy::Size && c.size is None {
                r is Err && plain_error(r->Err_0, STATUS_BAD_REQUEST, "invalid_cursor"@, "cursor missing size key"@)
            } else {
                r is Ok && cursor_key_matches(*plan, c, r->Ok_0)
            }
        }),
{
    let by = match c.sort_by {
        Some(b) => b,
        None => SortBy::Name,
    };
    let dir = match c.sort_dir {
        Some(d) => d,
        None => SortDir::Asc,
    };
    if by != plan.sort_by || dir != plan.sort_dir {
        return Err(AppError::bad_request("invalid_cursor", "cursor sort options mismatch"));
    }
    let mtime = match c.mtime {
        Some(m) => m,
        None => {
            if plan.sort_by == SortBy::Mtime {
                return Err(AppError::bad_request("invalid_cursor", "cursor missing mtime key"));
            }
            0
        },
    };
    let size = match c.size {
        Some(s) => s,
        None => {
            if plan.sort_by == SortBy::Size {
                return Err(AppError::bad_request("invalid_cursor", "cursor missing size key"));
            }
            0
        },
    };
    Ok(SortKey { by, dir, rank: c.rank, name: c.name, mtime, size })
}

/// Whether an entry is listed: a non-blank name, not a dotfile when those are hidden, the
/// search text in its lowercased name, the requested kind, and (for non-directories) the
/// size bounds.
pub open spec fn entry_visible(e: DirEntryInfo, plan: ListPlan) -> bool {
    &&& trim(e.name@).len() > 0
    &&& !(plan.hide_dotfiles && e.name@.len() > 0 && e.name@[0] == '.')
    &&& (plan.needle matches Some(n) ==> has_infix(unicode_lowercase(e.name@), n@))
    &&& (plan.kind_filter matches Some(k) ==> kind_text(e.kind) == k@)
    &&& ((plan.size_min_bytes is Some || plan.size_max_bytes is Some) && e.kind != EntryKind::Dir
        ==> (plan.size_min_bytes matches Some(m) ==> e.size >= m) && (plan.size_max_bytes matches Some(m)
        ==> e.size <= m))
}

/// The sort key of an entry under the plan.
pub open spec fn entry_key(e: DirEntryInfo, plan: ListPlan) -> SortKey {
    SortKey {
        by: plan.sort_by,
        dir: plan.sort_dir,
        rank: rank_kind_spec(kind_text(e.kind), opt_view(plan.type_sort)),
        name: e.name,
        mtime: match e.mtime {
            Some(m) => m,
            None => 0,
        },
        size: e.size,
    }
}

/// Listed and, when a cursor is given, strictly after it.
pub open spec fn entry_eligible(e: DirEntryInfo, plan: ListPlan, cursor: Option<SortKey>) -> bool {
    entry_visible(e, plan) && match cursor {
        Some(c) => key_order(entry_key(e, plan), c) > 0,
        None => true,
    }
}

/// The entry as listed.
pub open spec fn listed_as(e: DirEntryInfo, out: FsListEntry) -> bool {
    out.name == e.name && out.path == e.path && out.kind@ == kind_text(e.kind) && out.size == e.size
        && out.mtime == e.mtime
}

/// Number of entries satisfying `f` among the first `n`.
pub open spec fn count_where(entries: Seq<DirEntryInfo>, f: spec_fn(DirEntryInfo) -> bool, n: int) -> nat
    decreases n,
{
    if n <= 0 {
        0
    } else {
        count_where(entries, f, n - 1) + if f(entries[n - 1]) { 1nat } else { 0nat }
    }
}

fn entry_visible_exec(e: &DirEntryInfo, plan: &ListPlan) -> (r: bool)
    ensures
        r == entry_visible(*e, *plan),
{
    let name = e.name.as_str();
    if trim_str(name).unicode_len() == 0 {
        return false;
    }
    if plan.hide_dotfiles {
        let v = chars_of(name);
        if v.len() > 0 && v[0] == '.' {
            return false;
        }
    }
    match &plan.needle {
        Some(n) => {
            let lower = to_lowercase(name);
            let lv = chars_of(lower.as_str());
            let nv = chars_of(n.as_str());
            if !chars_contain(&lv, &nv) {
                return false;
            }
        },
        None => {},
    }
    match &plan.kind_filter {
        Some(k) => {
            if !crate::text::str_eq(kind_name(e.kind), k.as_str()) {
                return false;
            }
        },
        None => {},
    }
    let size_filter_active = plan.size_min_bytes.is_some() || plan.size_max_bytes.is_some();
    if size_filter_active && e.kind != EntryKind::Dir {
        match plan.size_min_bytes {
            Some(m) => {
                if e.size < m {
                    return false;
                }
            },
            None => {},
        }
        match plan.size_max_bytes {
            Some(m) => {
                if e.size > m {
                    return false;
                }
            },
            None => {},
        }
    }
    true
}

fn entry_key_exec(e: &DirEntryInfo, plan: &ListPlan) -> (k: SortKey)
    ensures
        k == entry_key(*e, *plan),
{
    let type_sort = match &plan.type_sort {
        Some(t) => Some(t.as_str()),
        None => None,
    };
    SortKey {
        by: plan.sort_by,
        dir: plan.sort_dir,
        rank: rank_kind(kind_name(e.kind), type_sort),
        name: e.name.clone(),
        mtime: match e.mtime {
            Some(m) => m,
            None => 0,
        },
        size: e.size,
    }
}

/// The cursor that resumes after entry `e`.
pub open spec fn cursor_after(e: DirEntryInfo, plan: ListPlan, c: CursorKey) -> bool {
    &&& c.rank == rank_kind_spec(kind_text(e.kind), opt_view(plan.type_sort))
    &&& c.name == e.name
    &&& c.sort_by == Some(plan.sort_by)
    &&& c.sort_dir == Some(plan.sort_dir)
    &&& c.mtime == if plan.sort_by == SortBy::Mtime {
        Some(
            match e.mtime {
                Some(m) => m,
                None => 0,
            },
        )
    } else {
        None
    }
    &&& c.size == if plan.sort_by == SortBy::Size {
        Some(e.size)
    } else {
        None
    }
}

/// The sort keys of `entries` under the plan, position by position.
pub open spec fn entry_keys(entries: Seq<DirEntryInfo>, plan: ListPlan) -> Seq<SortKey> {
    entries.map_values(|e: DirEntryInfo| entry_key(e, plan))
}

/// Which of `entries` are listed and after the cursor, position by position.
pub open spec fn eligibility(entries: Seq<DirEntryInfo>, plan: ListPlan, cursor: Option<SortKey>) -> Seq<bool> {
    entries.map_values(|e: DirEntryInfo| entry_eligible(e, plan, cursor))
}

/// `sel` is how `page` was chosen from `entries`: the first `limit` positions of listed
/// entries after the cursor, in key order, each listed as it is; a next cursor after the
/// last of them exactly when some listed entry after the cursor was left out.
pub open spec fn page_selects(plan: ListPlan, cursor: Option<SortKey>, entries: Seq<DirEntryInfo>, page: FsListPage, sel: Seq<usize>) -> bool {
    &&& is_first_selection(entry_keys(entries, plan), eligibility(entries, plan, cursor), plan.limit as int, sel)
    &&& sel.len() == page.entries.len()
    &&& forall|k: int| 0 <= k < sel.len() ==> listed_as(entries[#[trigger] sel[k] as int], page.entries@[k])
    &&& match page.next_cursor {
        Some(c) => sel.len() > 0 && cursor_after(entries[sel.last() as int], plan, c)
            && exists|j: int| 0 <= j < entries.len() && entry_eligible(entries[j], plan, cursor) && !sel.contains(j as usize),
        None => forall|j: int| 0 <= j < entries.len() && entry_eligible(entries[j], plan, cursor) ==> sel.contains(j as usize),
    }
}

/// `page` is the page of `entries` under `plan` after `cursor`: `total` counts the listed
/// entries, and the entries are chosen as `page_selects` says.
pub open spec fn is_listing_page(plan: ListPlan, cursor: Option<SortKey>, entries: Seq<DirEntryInfo>, page: FsListPage) -> bool {
    &&& page.total == count_where(entries, |e: DirEntryInfo| entry_visible(e, plan), entries.len() as int)
    &&& exists|sel: Seq<usize>| #[trigger] page_selects(plan, cursor, entries, page, sel)
}

/// One page of a listing. `total` counts the listed entries; the page holds the first
/// `limit` of those after the cursor, in key order (equal keys in reading order); a cursor
/// for the next page comes when more remain.
pub fn list_page(plan: &ListPlan, cursor: Option<SortKey>, entries: Vec<DirEntryInfo>) -> (page: FsListPage)
    requires
        entries.len() <= u64::MAX,
        plan.limit >= 1,
    ensures
        is_listing_page(*plan, cursor, entries@, page),
{
    let n = entries.len();
    let mut keys: Vec<SortKey> = Vec::new();
    let mut eligible: Vec<bool> = Vec::new();
    let mut total: u64 = 0;
    let mut after_total: u64 = 0;
    let ghost vis = |e: DirEntryInfo| entry_visible(e, *plan);
    let ghost elig = |e: DirEntryInfo| entry_eligible(e, *plan, cursor);
    let mut i: usize = 0;
    while i < n
        invariant
            n == entries.len() <= u64::MAX,
            i <= n,
            keys.len() == i && eligible.len() == i,
            forall|k: int| 0 <= k < i ==> keys@[k] == entry_key(entries@[k], *plan),
            forall|k: int| 0 <= k < i ==> eligible@[k] == entry_eligible(entries@[k], *plan, cursor),
            total == count_where(entries@, vis, i as int),
            after_total == count_where(entries@, elig, i as int),
            total <= i && after_total <= i,
            vis == (|e: DirEntryInfo| entry_visible(e, *plan)),
            elig == (|e: DirEntryInfo| entry_eligible(e, *plan, cursor)),
        decreases n - i,
    {
        let e = &entries[i];
        let visible = entry_visible_exec(e, plan);
        let key = entry_key_exec(e, plan);
        let after = visible && match &cursor {
            Some(c) => key.compare(c) > 0,
            None => true,
        };
        assert(visible == vis(entries@[i as int]));
        assert(after == elig(entries@[i as int]));
        assert(count_where(entries@, vis, i + 1) == count_where(entries@, vis, i as int) + if vis(entries@[i as int]) { 1nat } else { 0nat });
        assert(count_where(entries@, elig, i + 1) == count_where(entries@, elig, i as int) + if elig(entries@[i as int]) { 1nat } else { 0nat });
        if visible {
            total = total + 1;
        }
        if after {
            after_total = after_total + 1;
        }
        keys.push(key);
        eligible.push(after);
        i = i + 1;
    }
    let sel = select_first(&keys, &eligible, plan.limit);
    proof {
        assert(keys@ =~= entry_keys(entries@, *plan));
        assert(eligible@ =~= eligibility(entries@, *plan, cursor));
    }
    let mut out: Vec<FsListEntry> = Vec::new();
    let mut k: usize = 0;
    while k < sel.len()
        invariant
            k <= sel.len(),
            n == entries.len(),
            forall|q: int| 0 <= q < sel.len() ==> (#[trigger] sel@[q]) < n,
            out.len() == k,
            forall|q: int| 0 <= q < k ==> listed_as(entries@[#[trigger] sel@[q] as int], out@[q]),
        decreases sel.len() - k,
    {
        let e = &entries[sel[k]];
        out.push(
            FsListEntry {
                name: e.name.clone(),
                path: e.path.clone(),
                kind: crate::text::owned(kind_name(e.kind)),
                size: e.size,
                mtime: e.mtime,
            },
        );
        k = k + 1;
    }
    let more = (after_total as u128) > (plan.limit as u128) && sel.len() > 0;
    let next_cursor = if more {
        let last = &entries[sel[sel.len() - 1]];
        let type_sort = match &plan.type_sort {
            Some(t) => Some(t.as_str()),
            None => None,
        };
        Some(
            CursorKey {
                rank: rank_kind(kind_name(last.kind), type_sort),
                name: last.name.clone(),
                sort_by: Some(plan.sort_by),
                sort_dir: Some(plan.sort_dir),
                mtime: if plan.sort_by == SortBy::Mtime {
                    Some(
                        match last.mtime {
                            Some(m) => m,
                            None => 0,
                        },
                    )
                } else {
                    None
                },
                size: if plan.sort_by == SortBy::Size {
                    Some(last.size)
                } else {
                    None
                },
            },
        )
    } else {
        None
    };
    proof {
        lemma_selection_count(entries@, elig, eligible@, sel@, plan.limit as int);
        assert(forall|q: int| 0 <= q < sel.len() ==> listed_as(entries@[#[trigger] sel@[q] as int], out@[q]));
        assert(sel@.len() == out@.len());
        assert(is_first_selection(entry_keys(entries@, *plan), eligibility(entries@, *plan, cursor), plan.limit as int, sel@));
        if next_cursor is Some {
            let c = next_cursor->0;
            {
                assert(sel@.len() > 0);
                assert(cursor_after(entries@[sel@.last() as int], *plan, c));
                assert(exists|j: int| 0 <= j < entries.len() && entry_eligible(entries@[j], *plan, cursor) && !sel@.contains(j as usize));
            }
        } else {
                assert(!more);
                assert(after_total == count_where(entries@, elig, entries.len() as int));
                assert(!(count_where(entries@, elig, entries.len() as int) > plan.limit));
                assert(!(exists|j: int| 0 <= j < entries.len() && eligible@[j] && !sel@.contains(j as usize)));
                assert forall|j: int| 0 <= j < entries.len() && entry_eligible(entries@[j], *plan, cursor) implies sel@.contains(j as usize) by {
                    assert(eligible@[j] == entry_eligible(entries@[j], *plan, cursor));
                }
        }
    }
    let page = FsListPage { entries: out, next_cursor, total };
    assert(page_selects(*plan, cursor, entries@, page, sel@));
    page
}

} // verus!

verus! {

/// The positions among the first `n` whose entry satisfies `f`.
pub open spec fn positions_where(entries: Seq<DirEntryInfo>, f: spec_fn(DirEntryInfo) -> bool, n: int) -> Set<usize> {
    Set::new(|j: usize| (j as int) < n && f(entries[j as int]))
}

proof fn lemma_count_positions(entries: Seq<DirEntryInfo>, f: spec_fn(DirEntryInfo) -> bool, n: int)
    requires
        0 <= n <= entries.len(),
        entries.len() <= usize::MAX,
    ensures
        positions_where(entries, f, n).finite(),
        positions_where(entries, f, n).len() == count_where(entries, f, n),
    decreases n,
{
    if n == 0 {
        assert(positions_where(entries, f, n) =~= Set::<usize>::empty());
    } else {
        lemma_count_positions(entries, f, n - 1);
        let prev = positions_where(entries, f, n - 1);
        let last = (n - 1) as usize;
        if f(entries[n - 1]) {
            assert(positions_where(entries, f, n) =~= prev.insert(last));
            assert(!prev.contains(last));
        } else {
            assert(positions_where(entries, f, n) =~= prev);
        }
    }
}

/// A first-selection holds every eligible position exactly when the eligible ones number
/// at most the limit; it holds `limit` positions when they number more, else all of them.
pub(crate) proof fn lemma_selection_count(
    entries: Seq<DirEntryInfo>,
    f: spec_fn(DirEntryInfo) -> bool,
    eligible: Seq<bool>,
    sel: Seq<usize>,
    limit: int,
)
    requires
        entries.len() <= usize::MAX,
        eligible.len() == entries.len(),
        forall|j: int| 0 <= j < entries.len() ==> eligible[j] == f(entries[j]),
        limit >= 1,
        exists|keys: Seq<SortKey>| keys.len() == entries.len() && #[trigger] is_first_selection(keys, eligible, limit, sel),
    ensures
        (count_where(entries, f, entries.len() as int) > limit) == (exists|j: int|
            0 <= j < entries.len() && eligible[j] && !sel.contains(j as usize)),
        (count_where(entries, f, entries.len() as int) > limit) ==> sel.len() > 0,
        sel.len() == if count_where(entries, f, entries.len() as int) > limit {
            limit
        } else {
            count_where(entries, f, entries.len() as int) as int
        },
{
    let keys = choose|keys: Seq<SortKey>| keys.len() == entries.len() && #[trigger] is_first_selection(keys, eligible, limit, sel);
    let n = entries.len() as int;
    lemma_count_positions(entries, f, n);
    let e = positions_where(entries, f, n);
    let s = sel.to_set();
    assert(sel.no_duplicates()) by {
        assert forall|a: int, b: int| 0 <= a < sel.len() && 0 <= b < sel.len() && a != b implies sel[a] != sel[b] by {
            if a < b {
                crate::select::lemma_precedes_asym(keys, sel[a] as int, sel[b] as int);
                assert(crate::select::precedes(keys, sel[a] as int, sel[b] as int));
            } else {
                crate::select::lemma_precedes_asym(keys, sel[b] as int, sel[a] as int);
                assert(crate::select::precedes(keys, sel[b] as int, sel[a] as int));
            }
        }
    }
    sel.unique_seq_to_set();
    vstd::seq_lib::seq_to_set_is_finite(sel);
    assert(s.subset_of(e)) by {
        assert forall|x: usize| s.contains(x) implies e.contains(x) by {
            let k = choose|k: int| 0 <= k < sel.len() && sel[k] == x;
            assert(sel[k] < keys.len() && eligible[sel[k] as int]);
        }
    }
    if exists|j: int| 0 <= j < entries.len() && eligible[j] && !sel.contains(j as usize) {
        let j = choose|j: int| 0 <= j < entries.len() && eligible[j] && !sel.contains(j as usize);
        assert(e.contains(j as usize));
        assert(!s.contains(j as usize));
        s.lemma_subset_not_in_lt(e, j as usize);
        assert(sel.len() == limit);
    } else {
        assert(e.subset_of(s)) by {
            assert forall|x: usize| e.contains(x) implies s.contains(x) by {
                assert(eligible[x as int]);
            }
        }
        vstd::set_lib::lemma_len_subset(e, s);
        vstd::set_lib::lemma_len_subset(s, e);
    }
}

} // verus!

verus! {

/// `v` is the object `{"<key>": "<value>"}`.
pub open spec fn is_single_str_object(v: Option<JsonValue>, key: Seq<char>, value: Seq<char>) -> bool {
    v matches Some(JsonValue::Object(e)) && e@.len() == 1 && e@[0].0@ == key && is_str(e@[0].1, value)
}

/// `{"<key>": "<value>"}`.
pub fn single_str_object(key: &str, value: &str) -> (r: JsonValue)
    ensures
        is_single_str_object(Some(r), key@, value@),
{
    let mut v: Vec<(String, JsonValue)> = Vec::new();
    v.push((String::from_str(key), json_str(value)));
    JsonValue::Object(v)
}

/// An error whose details are `{"<key>": "<value>"}`.
pub open spec fn error_with_str_detail(e: AppError, status: u16, code: Seq<char>, message: Seq<char>, key: Seq<char>, value: Seq<char>) -> bool {
    &&& e.status == status && e.code@ == code && e.message@ == message
    &&& is_single_str_object(e.details, key, value)
    &&& e.debug_details is None
}

pub fn str_detail_error(status: u16, code: &str, message: &str, key: &str, value: &str) -> (r: AppError)
    ensures
        error_with_str_detail(r, status, code@, message@, key@, value@),
{
    AppError {
        status,
        code: String::from_str(code),
        message: String::from_str(message),
        details: Some(single_str_object(key, value)),
        debug_details: None,
    }
}

/// The request's path, trimmed; a blank path is refused.
pub fn validate_list_path(path: &str) -> (r: Result<String, AppError>)
    ensures
        trim(path@).len() == 0 ==> r is Err && error_with_str_detail(r->Err_0, STATUS_BAD_REQUEST, "invalid_path"@, "path is required"@, "field"@, "path"@),
        trim(path@).len() > 0 ==> (r matches Ok(p) && p@ == trim(path@)),
{
    let t = trim_str(path);
    if t.unicode_len() == 0 {
        return Err(str_detail_error(STATUS_BAD_REQUEST, "invalid_path", "path is required", "field", "path"));
    }
    Ok(crate::text::owned(t))
}

/// The error for a failed filesystem access: 404 when the path does not exist, 403 when
/// access is denied, 400 otherwise (with the failure's text); each with `{"path": ...}`.
pub fn map_io(path: &str, kind: IoKind, error_text: &str) -> (r: AppError)
    ensures
        kind == IoKind::NotFound ==> error_with_str_detail(r, STATUS_NOT_FOUND, "path_not_found"@, "Path not found"@, "path"@, path@),
        kind == IoKind::PermissionDenied ==> error_with_str_detail(r, STATUS_FORBIDDEN, "permission_denied"@, "Permission denied"@, "path"@, path@),
        kind == IoKind::Other ==> error_with_str_detail(r, STATUS_BAD_REQUEST, "fs_list_failed"@, "Filesystem list failed: "@ + error_text@, "path"@, path@),
{
    match kind {
        IoKind::NotFound => str_detail_error(STATUS_NOT_FOUND, "path_not_found", "Path not found", "path", path),
        IoKind::PermissionDenied => str_detail_error(STATUS_FORBIDDEN, "permission_denied", "Permission denied", "path", path),
        IoKind::Other => {
            let msg = String::from_str("Filesystem list failed: ").concat(error_text);
            str_detail_error(STATUS_BAD_REQUEST, "fs_list_failed", msg.as_str(), "path", path)
        },
    }
}

/// The error for a listing of something that is not a directory.
pub fn not_directory_error(path: &str) -> (r: AppError)
    ensures
        error_with_str_detail(r, STATUS_BAD_REQUEST, "not_directory"@, "path is not a directory"@, "path"@, path@),
{
    str_detail_error(STATUS_BAD_REQUEST, "not_directory", "path is not a directory", "path", path)
}

/// A cursor made after an entry, once resolved, stands for that entry's key.
pub proof fn lemma_cursor_stands_for_entry(plan: ListPlan, e: DirEntryInfo, c: CursorKey, k: SortKey)
    requires
        cursor_after(e, plan, c),
        cursor_key_matches(plan, c, k),
    ensures
        key_order(k, entry_key(e, plan)) == 0,
{
    crate::list_paging::lemma_text_order_antisym(k.name@, e.name@);
}

} // verus!
