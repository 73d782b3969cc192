//! What every page of a directory listing satisfies, whatever the cursor and the limit, and
//! how a page and the page after its cursor fit into the listing taken in one piece.
use vstd::prelude::*;
use crate::fs::{
    DirEntryInfo, EntryKind, FsListOptions, kind_text, plan_matches, FsListEntry, FsListPage, ListPlan, count_where, cursor_after, cursor_key_matches, eligibility,
    entry_eligible, entry_key, entry_keys, entry_visible, is_listing_page, lemma_cursor_stands_for_entry,
    lemma_selection_count, listed_as, page_selects,
};
use crate::list_paging::{CursorKey, SortKey, blank_to_none, key_order, lemma_text_order_antisym, opt_view, rank_kind_spec};
use crate::text::{has_infix, trim, unicode_lowercase};
use crate::select::{after_cursor, distinct_keys, is_first_selection, lemma_pages_continue, lemma_precedes_asym, precedes};

verus! {

/// No two entries share a name, as in one directory.
pub open spec fn distinct_names(entries: Seq<DirEntryInfo>) -> bool {
    forall|i: int, j: int|
        0 <= i < entries.len() && 0 <= j < entries.len() && i != j ==> #[trigger] entries[i].name@
            != #[trigger] entries[j].name@
}

/// The sort key of a listed entry under the plan.
pub open spec fn listed_key(out: FsListEntry, plan: ListPlan) -> SortKey {
    SortKey {
        by: plan.sort_by,
        dir: plan.sort_dir,
        rank: rank_kind_spec(out.kind@, opt_view(plan.type_sort)),
        name: out.name,
        mtime: match out.mtime {
            Some(m) => m,
            None => 0,
        },
        size: out.size,
    }
}

/// Listed and after the cursor, as a predicate on entries.
pub open spec fn eligible_under(plan: ListPlan, cursor: Option<SortKey>) -> spec_fn(DirEntryInfo) -> bool {
    |e: DirEntryInfo| entry_eligible(e, plan, cursor)
}

/// How many listed entries come after the cursor.
pub open spec fn remaining(plan: ListPlan, cursor: Option<SortKey>, entries: Seq<DirEntryInfo>) -> nat {
    count_where(entries, eligible_under(plan, cursor), entries.len() as int)
}

/// `out` lists one of `entries` that is listed and after the cursor.
pub open spec fn drawn_from(out: FsListEntry, plan: ListPlan, cursor: Option<SortKey>, entries: Seq<DirEntryInfo>) -> bool {
    exists|j: int| 0 <= j < entries.len() && entry_eligible(entries[j], plan, cursor) && #[trigger] listed_as(entries[j], out)
}

/// Two plans that filter and order entries alike; they may differ in limit and cursor.
pub open spec fn same_listing_options(p: ListPlan, q: ListPlan) -> bool {
    &&& p.needle == q.needle
    &&& p.kind_filter == q.kind_filter
    &&& p.hide_dotfiles == q.hide_dotfiles
    &&& p.type_sort == q.type_sort
    &&& p.sort_by == q.sort_by
    &&& p.sort_dir == q.sort_dir
    &&& p.size_min_bytes == q.size_min_bytes
    &&& p.size_max_bytes == q.size_max_bytes
}

/// Two listed entries that show the same thing.
pub open spec fn same_listing(a: FsListEntry, b: FsListEntry) -> bool {
    a.name == b.name && a.path == b.path && a.kind@ == b.kind@ && a.size == b.size && a.mtime == b.mtime
}

proof fn lemma_key_order_zero_names(a: SortKey, b: SortKey)
    requires
        key_order(a, b) == 0,
    ensures
        a.name@ == b.name@,
{
    lemma_text_order_antisym(a.name@, b.name@);
}

proof fn lemma_listed_key(e: DirEntryInfo, out: FsListEntry, plan: ListPlan)
    requires
        listed_as(e, out),
    ensures
        listed_key(out, plan) == entry_key(e, plan),
{
}

/// Every page of a listing, for every cursor and limit: at most `limit` entries, and exactly
/// `min(limit, remaining)` of them; each one of the directory's entries that is listed and
/// after the cursor; in strictly ascending key order, no name twice; ahead of every such
/// entry left off the page; and a next cursor exactly when more than `limit` entries remain
/// after the cursor.
pub proof fn law_listing_page(plan: ListPlan, cursor: Option<SortKey>, entries: Seq<DirEntryInfo>, page: FsListPage)
    requires
        entries.len() <= usize::MAX,
        plan.limit >= 1,
        distinct_names(entries),
        is_listing_page(plan, cursor, entries, page),
    ensures
        page.entries.len() <= plan.limit,
        page.entries.len() == if remaining(plan, cursor, entries) > plan.limit {
            plan.limit as int
        } else {
            remaining(plan, cursor, entries) as int
        },
        page.next_cursor is Some <==> remaining(plan, cursor, entries) > plan.limit,
        forall|k: int|
            0 <= k < page.entries.len() ==> drawn_from(#[trigger] page.entries@[k], plan, cursor, entries),
        forall|k: int|
            0 <= k < page.entries.len() ==> (cursor matches Some(c) ==> key_order(
                #[trigger] listed_key(page.entries@[k], plan),
                c,
            ) > 0),
        forall|a: int, b: int|
            0 <= a < b < page.entries.len() ==> key_order(
                listed_key(#[trigger] page.entries@[a], plan),
                listed_key(#[trigger] page.entries@[b], plan),
            ) < 0 && page.entries@[a].name@ != page.entries@[b].name@,
        forall|j: int, k: int|
            0 <= j < entries.len() && entry_eligible(entries[j], plan, cursor) && (forall|i: int|
                0 <= i < page.entries.len() ==> page.entries@[i].name@ != entries[j].name@) && 0 <= k
                < page.entries.len() ==> key_order(
                #[trigger] listed_key(page.entries@[k], plan),
                #[trigger] entry_key(entries[j], plan),
            ) < 0,
{
    let sel = choose|sel: Seq<usize>| page_selects(plan, cursor, entries, page, sel);
    let keys = entry_keys(entries, plan);
    let elig = eligibility(entries, plan, cursor);
    let n = page.entries.len() as int;
    lemma_selection_count(entries, eligible_under(plan, cursor), elig, sel, plan.limit as int);
    assert forall|k: int| 0 <= k < n implies listed_key(page.entries@[k], plan) == keys[sel[k] as int] && elig[sel[k] as int] by {
        lemma_listed_key(entries[sel[k] as int], page.entries@[k], plan);
    }
    assert forall|k: int| 0 <= k < n implies drawn_from(#[trigger] page.entries@[k], plan, cursor, entries) by {
        let j = sel[k] as int;
        assert(0 <= j < entries.len() && elig[j]);
        assert(entry_eligible(entries[j], plan, cursor));
        assert(listed_as(entries[j], page.entries@[k]));
    }
    assert forall|a: int, b: int| 0 <= a < b < n implies key_order(
        listed_key(#[trigger] page.entries@[a], plan),
        listed_key(#[trigger] page.entries@[b], plan),
    ) < 0 && page.entries@[a].name@ != page.entries@[b].name@ by {
        let x = sel[a] as int;
        let y = sel[b] as int;
        assert(precedes(keys, x, y));
        lemma_precedes_asym(keys, x, y);
        lemma_precedes_asym(keys, x, x);
        assert(listed_as(entries[x], page.entries@[a]) && listed_as(entries[y], page.entries@[b]));
        assert(entries[x].name@ != entries[y].name@);
        if key_order(keys[x], keys[y]) == 0 {
            lemma_key_order_zero_names(keys[x], keys[y]);
            assert(entries[x].name@ == entries[y].name@);
        }
    }
    assert forall|j: int, k: int|
        0 <= j < entries.len() && entry_eligible(entries[j], plan, cursor) && (forall|i: int|
            0 <= i < n ==> page.entries@[i].name@ != entries[j].name@) && 0 <= k < n implies key_order(
        #[trigger] listed_key(page.entries@[k], plan),
        #[trigger] entry_key(entries[j], plan),
    ) < 0 by {
        assert(elig[j]);
        assert(!sel.contains(j as usize)) by {
            if sel.contains(j as usize) {
                let i = choose|i: int| 0 <= i < sel.len() && sel[i] == j as usize;
                assert(listed_as(entries[sel[i] as int], page.entries@[i]));
            }
        }
        let x = sel[k] as int;
        assert(precedes(keys, x, j));
        if key_order(keys[x], keys[j]) == 0 {
            lemma_key_order_zero_names(keys[x], keys[j]);
            assert(x != j);
        }
    }
    if page.next_cursor is Some {
        let j = choose|j: int| 0 <= j < entries.len() && entry_eligible(entries[j], plan, cursor) && !sel.contains(j as usize);
        assert(elig[j]);
        assert(remaining(plan, cursor, entries) > plan.limit);
    } else {
        assert(!(exists|j: int| 0 <= j < entries.len() && elig[j] && !sel.contains(j as usize)));
    }
}

/// The total counts every listed entry, whatever the cursor and the limit.
pub proof fn law_total_ignores_cursor_and_limit(
    entries: Seq<DirEntryInfo>,
    plan1: ListPlan,
    cursor1: Option<SortKey>,
    page1: FsListPage,
    plan2: ListPlan,
    cursor2: Option<SortKey>,
    page2: FsListPage,
)
    requires
        same_listing_options(plan1, plan2),
        is_listing_page(plan1, cursor1, entries, page1),
        is_listing_page(plan2, cursor2, entries, page2),
    ensures
        page1.total == page2.total,
{
    assert((|e: DirEntryInfo| entry_visible(e, plan1)) =~= (|e: DirEntryInfo| entry_visible(e, plan2)));
}

/// Two first selections of the same positions agree where the first one, filled to its
/// limit, reaches: the second, with a limit at least as large, starts with it.
proof fn lemma_first_selections_agree(
    keys: Seq<SortKey>,
    eligible: Seq<bool>,
    m: int,
    s: Seq<usize>,
    l: int,
    t: Seq<usize>,
    k: int,
)
    requires
        keys.len() == eligible.len(),
        is_first_selection(keys, eligible, m, s),
        is_first_selection(keys, eligible, l, t),
        s.len() == m,
        m <= l,
        0 <= k <= s.len(),
    ensures
        t.len() >= k,
        forall|i: int| 0 <= i < k ==> t[i] == s[i],
    decreases k,
{
    if k > 0 {
        let p = k - 1;
        lemma_first_selections_agree(keys, eligible, m, s, l, t, p);
        let x = s[p] as int;
        assert(x < keys.len() && eligible[x]);
        // Where t holds s[p]: not before p, where t and s agree and s has no repeats.
        if t.contains(s[p]) {
            let q = choose|q: int| 0 <= q < t.len() && t[q] == s[p];
            if q < p {
                assert(t[q] == s[q]);
                assert(precedes(keys, s[q] as int, s[p] as int));
                lemma_precedes_asym(keys, x, x);
            } else if q > p {
                // t[p] comes before s[p]; wherever t[p] stands in s, that is impossible.
                assert(precedes(keys, t[p] as int, t[q] as int));
                lemma_first_selection_slot(keys, eligible, m, s, l, t, p);
                assert(false);
            }
        } else {
            assert(t.len() == l && forall|i: int| 0 <= i < t.len() ==> precedes(keys, #[trigger] t[i] as int, x));
            assert(precedes(keys, t[p] as int, x));
            lemma_first_selection_slot(keys, eligible, m, s, l, t, p);
            assert(false);
        }
    }
}

/// When two first selections agree before `p`, the second one's entry at `p` does not come
/// before the first one's.
proof fn lemma_first_selection_slot(
    keys: Seq<SortKey>,
    eligible: Seq<bool>,
    m: int,
    s: Seq<usize>,
    l: int,
    t: Seq<usize>,
    p: int,
)
    requires
        keys.len() == eligible.len(),
        is_first_selection(keys, eligible, m, s),
        is_first_selection(keys, eligible, l, t),
        s.len() == m,
        0 <= p < s.len(),
        p < t.len(),
        forall|i: int| 0 <= i < p ==> t[i] == s[i],
    ensures
        !precedes(keys, t[p] as int, s[p] as int),
{
    let y = t[p] as int;
    let x = s[p] as int;
    assert(y < keys.len() && eligible[y]);
    lemma_precedes_asym(keys, y, x);
    if !precedes(keys, y, x) {
    } else if s.contains(t[p]) {
        let r = choose|r: int| 0 <= r < s.len() && s[r] == t[p];
        if r < p {
            assert(t[r] == s[r]);
            assert(precedes(keys, t[r] as int, t[p] as int));
            lemma_precedes_asym(keys, y, y);
        } else if r == p {
            lemma_precedes_asym(keys, y, y);
        } else {
            assert(precedes(keys, s[p] as int, s[r] as int));
        }
    } else {
        assert(forall|i: int| 0 <= i < s.len() ==> precedes(keys, #[trigger] s[i] as int, y));
        assert(precedes(keys, s[p] as int, y));
    }
}

/// Paging with a cursor reproduces the listing taken in one piece: the first page, followed
/// by the page after the cursor that the first page handed out, is the start of the listing
/// taken with a limit that covers both.
pub proof fn law_pages_join(
    entries: Seq<DirEntryInfo>,
    plan1: ListPlan,
    page1: FsListPage,
    c: CursorKey,
    key: SortKey,
    plan2: ListPlan,
    page2: FsListPage,
    full_plan: ListPlan,
    full: FsListPage,
)
    requires
        entries.len() <= usize::MAX,
        distinct_names(entries),
        same_listing_options(plan1, plan2),
        same_listing_options(plan1, full_plan),
        is_listing_page(plan1, None, entries, page1),
        page1.next_cursor == Some(c),
        cursor_key_matches(plan2, c, key),
        is_listing_page(plan2, Some(key), entries, page2),
        is_listing_page(full_plan, None, entries, full),
        page1.entries.len() + page2.entries.len() <= full_plan.limit,
    ensures
        page1.entries.len() + page2.entries.len() <= full.entries.len(),
        forall|k: int| 0 <= k < page1.entries.len() ==> same_listing(#[trigger] page1.entries@[k], full.entries@[k]),
        forall|k: int|
            0 <= k < page2.entries.len() ==> same_listing(
                #[trigger] page2.entries@[k],
                full.entries@[page1.entries.len() + k],
            ),
{
    let sel1 = choose|sel: Seq<usize>| page_selects(plan1, None, entries, page1, sel);
    let sel2 = choose|sel: Seq<usize>| page_selects(plan2, Some(key), entries, page2, sel);
    let self_ = choose|sel: Seq<usize>| page_selects(full_plan, None, entries, full, sel);
    let keys = entry_keys(entries, plan1);
    let listed = eligibility(entries, plan1, None);
    assert(entry_keys(entries, plan2) =~= keys);
    assert(entry_keys(entries, full_plan) =~= keys);
    assert(eligibility(entries, full_plan, None) =~= listed);
    assert(eligibility(entries, plan2, Some(key)) =~= after_cursor(keys, listed, key));
    assert(distinct_keys(keys, listed)) by {
        assert forall|i: int, j: int|
            0 <= i < keys.len() && 0 <= j < keys.len() && i != j && listed[i] && listed[j] implies key_order(
            keys[i],
            keys[j],
        ) != 0 by {
            if key_order(keys[i], keys[j]) == 0 {
                lemma_key_order_zero_names(keys[i], keys[j]);
                assert(entries[i].name@ == entries[j].name@);
            }
        }
    }
    let last = sel1.last() as int;
    assert(sel1.len() > 0 && cursor_after(entries[last], plan1, c));
    assert(cursor_after(entries[last], plan2, c));
    lemma_cursor_stands_for_entry(plan2, entries[last], c, key);
    assert(key_order(key, keys[last]) == 0);
    lemma_pages_continue(keys, listed, plan1.limit as int, sel1, key, plan2.limit as int, sel2);
    let joined = sel1 + sel2;
    lemma_first_selections_agree(keys, listed, joined.len() as int, joined, full_plan.limit as int, self_, joined.len() as int);
    assert forall|k: int| 0 <= k < page1.entries.len() implies same_listing(#[trigger] page1.entries@[k], full.entries@[k]) by {
        assert(self_[k] == joined[k]);
        assert(joined[k] == sel1[k]);
        assert(listed_as(entries[sel1[k] as int], page1.entries@[k]));
        assert(listed_as(entries[self_[k] as int], full.entries@[k]));
    }
    assert forall|k: int|
        0 <= k < page2.entries.len() implies same_listing(
        #[trigger] page2.entries@[k],
        full.entries@[page1.entries.len() + k],
    ) by {
        let f = page1.entries.len() + k;
        assert(self_[f] == joined[f]);
        assert(joined[f] == sel2[k]);
        assert(listed_as(entries[sel2[k] as int], page2.entries@[k]));
        assert(listed_as(entries[self_[f] as int], full.entries@[f]));
    }
}

/// The filters other than the search text: a non-blank name, no dotfile when those are
/// hidden, the requested kind, and (for non-directories) the size bounds.
pub open spec fn passes_other_filters(e: DirEntryInfo, plan: ListPlan) -> bool {
    &&& trim(e.name@).len() > 0
    &&& !(plan.hide_dotfiles && e.name@.len() > 0 && e.name@[0] == '.')
    &&& (plan.kind_filter matches Some(k) ==> kind_text(e.kind) == k@)
    &&& ((plan.size_min_bytes is Some || plan.size_max_bytes is Some) && e.kind != EntryKind::Dir
        ==> (plan.size_min_bytes matches Some(m) ==> e.size >= m) && (plan.size_max_bytes matches Some(m)
        ==> e.size <= m))
}

/// The search ignores letter case: the query (trimmed) is lowercased into the plan's needle,
/// and an entry that passes the other filters is listed (counted in the total, and eligible
/// for a page) exactly when its lowercased name contains the lowercased query. In particular
/// a name that differs from the query only in letter case (the two lowercase alike) is
/// listed; without a query the search lets every entry through.
pub proof fn law_search_ignores_case(opts: FsListOptions, plan: ListPlan, e: DirEntryInfo)
    requires
        plan_matches(opts, plan),
    ensures
        blank_to_none(opt_view(opts.q)) matches Some(q) ==> {
            &&& plan.needle matches Some(n) && n@ == unicode_lowercase(q)
            &&& entry_visible(e, plan) <==> (passes_other_filters(e, plan) && has_infix(
                unicode_lowercase(e.name@),
                unicode_lowercase(q),
            ))
            &&& (unicode_lowercase(e.name@) == unicode_lowercase(q) && passes_other_filters(e, plan))
                ==> entry_visible(e, plan)
        },
        blank_to_none(opt_view(opts.q)) is None ==> (entry_visible(e, plan) <==> passes_other_filters(e, plan)),
{
    if let Some(q) = blank_to_none(opt_view(opts.q)) {
        let l = unicode_lowercase(q);
        assert(has_infix(l, l)) by {
            assert(l.subrange(0, 0 + l.len() as int) =~= l);
        }
        assert(plan.needle is Some);
        let n = plan.needle->0;
        assert(n@ == l);
        assert(entry_visible(e, plan) <==> (passes_other_filters(e, plan) && has_infix(unicode_lowercase(e.name@), l)));
    } else {
        assert(plan.needle is None);
    }
}

} // verus!
