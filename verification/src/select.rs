//! Selection of the first entries of a listing in sort-key order.
use vstd::prelude::*;
use crate::list_paging::{SortKey, SortBy, SortDir, key_order, text_order, lemma_key_order_antisym, lemma_key_order_trans, lemma_key_order_eq_subst};

verus! {

/// Entry `i` comes before entry `j`: a smaller key, or an equal key and an earlier position.
pub open spec fn precedes(keys: Seq<SortKey>, i: int, j: int) -> bool {
    key_order(keys[i], keys[j]) < 0 || (key_order(keys[i], keys[j]) == 0 && i < j)
}

pub proof fn lemma_precedes_asym(keys: Seq<SortKey>, i: int, j: int)
    ensures
        precedes(keys, i, j) ==> !precedes(keys, j, i),
        !precedes(keys, i, i),
{
    lemma_key_order_antisym(keys[i], keys[j]);
    lemma_key_order_antisym(keys[i], keys[i]);
}

pub proof fn lemma_precedes_total(keys: Seq<SortKey>, i: int, j: int)
    requires
        i != j,
    ensures
        precedes(keys, i, j) || precedes(keys, j, i),
{
    lemma_key_order_antisym(keys[i], keys[j]);
}

pub proof fn lemma_precedes_trans(keys: Seq<SortKey>, i: int, j: int, k: int)
    requires
        precedes(keys, i, j),
        precedes(keys, j, k),
    ensures
        precedes(keys, i, k),
{
    lemma_key_order_antisym(keys[i], keys[j]);
    lemma_key_order_antisym(keys[j], keys[k]);
    lemma_key_order_antisym(keys[i], keys[k]);
    if key_order(keys[i], keys[j]) < 0 && key_order(keys[j], keys[k]) < 0 {
        lemma_key_order_trans(keys[i], keys[j], keys[k]);
    } else if key_order(keys[i], keys[j]) == 0 {
        lemma_key_order_eq_subst(keys[i], keys[j], keys[k]);
    } else {
        lemma_key_order_eq_subst(keys[j], keys[k], keys[i]);
        lemma_key_order_antisym(keys[k], keys[i]);
        lemma_key_order_antisym(keys[j], keys[i]);
    }
}

fn precedes_exec(keys: &Vec<SortKey>, i: usize, j: usize) -> (r: bool)
    requires
        i < keys.len(),
        j < keys.len(),
    ensures
        r == precedes(keys@, i as int, j as int),
{
    let o = keys[i].compare(&keys[j]);
    o < 0 || (o == 0 && i < j)
}

/// The result is the first `limit` eligible positions in `precedes` order (all of them if
/// fewer), in that order.
pub open spec fn is_first_selection(keys: Seq<SortKey>, eligible: Seq<bool>, limit: int, r: Seq<usize>) -> bool {
    &&& r.len() <= limit
    &&& forall|k: int| 0 <= k < r.len() ==> (#[trigger] r[k]) < keys.len() && eligible[r[k] as int]
    &&& forall|a: int, b: int| 0 <= a < b < r.len() ==> precedes(keys, #[trigger] r[a] as int, #[trigger] r[b] as int)
    &&& forall|j: int|
        0 <= j < keys.len() && eligible[j] && !r.contains(j as usize) ==> r.len() == limit
            && forall|k: int| 0 <= k < r.len() ==> precedes(keys, #[trigger] r[k] as int, j)
}

/// Finds the `precedes`-least eligible position after `last` (or overall when there is none).
fn next_after(keys: &Vec<SortKey>, eligible: &Vec<bool>, last: Option<usize>) -> (best: Option<usize>)
    requires
        keys.len() == eligible.len(),
        last matches Some(l) ==> l < keys.len(),
    ensures
        match best {
            Some(b) => b < keys.len() && eligible@[b as int] && (last matches Some(l) ==> precedes(keys@, l as int, b as int))
                && forall|j: int| 0 <= j < keys.len() && eligible@[j] && (last matches Some(l) ==> precedes(keys@, l as int, j))
                    ==> j == b || precedes(keys@, b as int, j),
            None => forall|j: int| 0 <= j < keys.len() && eligible@[j] ==> (last matches Some(l) && !precedes(keys@, l as int, j)),
        },
{
    let n = keys.len();
    let mut best: Option<usize> = None;
    let mut j: usize = 0;
    while j < n
        invariant
            n == keys.len() == eligible.len(),
            j <= n,
            last matches Some(l) ==> l < n,
            match best {
                Some(b) => b < j && eligible@[b as int] && (last matches Some(l) ==> precedes(keys@, l as int, b as int))
                    && forall|i: int| 0 <= i < j && eligible@[i] && (last matches Some(l) ==> precedes(keys@, l as int, i))
                        ==> i == b || precedes(keys@, b as int, i),
                None => forall|i: int| 0 <= i < j && eligible@[i] ==> (last matches Some(l) && !precedes(keys@, l as int, i)),
            },
        decreases n - j,
    {
        let candidate = eligible[j] && match last {
            Some(l) => precedes_exec(keys, l, j),
            None => true,
        };
        if candidate {
            match best {
                None => {
                    best = Some(j);
                },
                Some(b) => {
                    if precedes_exec(keys, j, b) {
                        proof {
                            assert forall|i: int| 0 <= i < j + 1 && eligible@[i] && (last matches Some(l) ==> precedes(keys@, l as int, i))
                                implies i == j || precedes(keys@, j as int, i) by {
                                if i != j && i != b {
                                    lemma_precedes_trans(keys@, j as int, b as int, i);
                                }
                            }
                        }
                        best = Some(j);
                    } else {
                        proof {
                            lemma_precedes_total(keys@, j as int, b as int);
                        }
                    }
                },
            }
        }
        j = j + 1;
    }
    best
}

/// The first `limit` eligible positions of `keys` in key order (ties by position).
pub fn select_first(keys: &Vec<SortKey>, eligible: &Vec<bool>, limit: usize) -> (r: Vec<usize>)
    requires
        keys.len() == eligible.len(),
    ensures
        is_first_selection(keys@, eligible@, limit as int, r@),
{
    let mut r: Vec<usize> = Vec::new();
    let mut done = false;
    while r.len() < limit && !done
        invariant
            keys.len() == eligible.len(),
            r.len() <= limit,
            forall|k: int| 0 <= k < r.len() ==> (#[trigger] r@[k]) < keys.len() && eligible@[r@[k] as int],
            forall|a: int, b: int| 0 <= a < b < r.len() ==> precedes(keys@, #[trigger] r@[a] as int, #[trigger] r@[b] as int),
            forall|j: int| 0 <= j < keys.len() && eligible@[j] && !r@.contains(j as usize) ==>
                forall|k: int| 0 <= k < r.len() ==> precedes(keys@, #[trigger] r@[k] as int, j),
            done ==> forall|j: int| 0 <= j < keys.len() && eligible@[j] ==> r@.contains(j as usize),
        decreases limit - r.len(), if done { 0int } else { 1int },
    {
        let last = if r.len() == 0 { None } else { Some(r[r.len() - 1]) };
        let best = next_after(keys, eligible, last);
        match best {
            None => {
                proof {
                    assert forall|j: int| 0 <= j < keys.len() && eligible@[j] implies r@.contains(j as usize) by {
                        if !r@.contains(j as usize) {
                            let l = r@.len() - 1;
                            assert(precedes(keys@, r@[l] as int, j));
                        }
                    }
                }
                done = true;
            },
            Some(b) => {
                let ghost old_r = r@;
                proof {
                    if old_r.contains(b) {
                        let k = choose|k: int| 0 <= k < old_r.len() && old_r[k] == b;
                        let l = old_r.len() - 1;
                        if k < l {
                            assert(precedes(keys@, old_r[k] as int, old_r[l] as int));
                            lemma_precedes_asym(keys@, old_r[k] as int, old_r[l] as int);
                        } else {
                            lemma_precedes_asym(keys@, b as int, b as int);
                        }
                    }
                }
                r.push(b);
                proof {
                    assert forall|a: int, c: int| 0 <= a < c < r.len() implies precedes(keys@, #[trigger] r@[a] as int, #[trigger] r@[c] as int) by {
                        if c == r.len() - 1 {
                            assert(r@[a] == old_r[a]);
                            assert(!old_r.contains(b));
                        } else {
                            assert(r@[a] == old_r[a] && r@[c] == old_r[c]);
                        }
                    }
                    assert forall|j: int| 0 <= j < keys.len() && eligible@[j] && !r@.contains(j as usize) implies
                        forall|k: int| 0 <= k < r.len() ==> precedes(keys@, #[trigger] r@[k] as int, j) by {
                        assert(!old_r.contains(j as usize)) by {
                            if old_r.contains(j as usize) {
                                let k = choose|k: int| 0 <= k < old_r.len() && old_r[k] == j as usize;
                                assert(r@[k] == old_r[k]);
                            }
                        }
                        assert(j != b) by {
                            assert(r@[r.len() - 1] == b);
                        }
                        if old_r.len() > 0 {
                            assert(precedes(keys@, old_r[old_r.len() - 1] as int, j));
                        }
                        assert forall|k: int| 0 <= k < r.len() implies precedes(keys@, #[trigger] r@[k] as int, j) by {
                            if k < old_r.len() {
                                assert(r@[k] == old_r[k]);
                            }
                        }
                    }
                }
            },
        }
    }
    r
}

} // verus!

verus! {

/// Eligible and strictly after the cursor key.
pub open spec fn after_cursor(keys: Seq<SortKey>, eligible: Seq<bool>, cursor: SortKey) -> Seq<bool> {
    Seq::new(eligible.len(), |j: int| eligible[j] && key_order(keys[j], cursor) > 0)
}

/// Among eligible positions no two keys compare equal (as names in one directory do not).
pub open spec fn distinct_keys(keys: Seq<SortKey>, eligible: Seq<bool>) -> bool {
    forall|i: int, j: int|
        0 <= i < keys.len() && 0 <= j < keys.len() && i != j && eligible[i] && eligible[j]
            ==> key_order(keys[i], keys[j]) != 0
}

/// Pages continue one another: the first page, followed by the page that starts after a
/// cursor standing for the first page's last entry, is the first selection of their joint size.
pub proof fn lemma_pages_continue(
    keys: Seq<SortKey>,
    eligible: Seq<bool>,
    l1: int,
    sel1: Seq<usize>,
    cursor: SortKey,
    l2: int,
    sel2: Seq<usize>,
)
    requires
        keys.len() == eligible.len(),
        distinct_keys(keys, eligible),
        is_first_selection(keys, eligible, l1, sel1),
        sel1.len() > 0,
        key_order(cursor, keys[sel1.last() as int]) == 0,
        is_first_selection(keys, after_cursor(keys, eligible, cursor), l2, sel2),
    ensures
        is_first_selection(keys, eligible, (sel1.len() + sel2.len()) as int, sel1 + sel2),
{
    let t = sel1 + sel2;
    let last = sel1.last() as int;
    let n1 = sel1.len() as int;
    let after = after_cursor(keys, eligible, cursor);
    // Entries of the first page are at or before the last one.
    assert forall|a: int| 0 <= a < n1 implies key_order(keys[sel1[a] as int], keys[last]) <= 0 by {
        if a < n1 - 1 {
            assert(precedes(keys, sel1[a] as int, sel1[n1 - 1] as int));
        }
        lemma_key_order_antisym(keys[last], keys[last]);
    }
    // Entries of the second page are after the last one.
    assert forall|b: int| 0 <= b < sel2.len() implies key_order(keys[sel2[b] as int], keys[last]) > 0 by {
        assert(after[sel2[b] as int]);
        lemma_key_order_eq_subst(cursor, keys[last], keys[sel2[b] as int]);
        lemma_key_order_antisym(cursor, keys[sel2[b] as int]);
        lemma_key_order_antisym(keys[last], keys[sel2[b] as int]);
    }
    assert forall|k: int| 0 <= k < t.len() implies (#[trigger] t[k]) < keys.len() && eligible[t[k] as int] by {
        if k >= n1 {
            assert(t[k] == sel2[k - n1]);
            assert(after[sel2[k - n1] as int]);
        }
    }
    assert forall|a: int, b: int| 0 <= a < b < t.len() implies precedes(keys, #[trigger] t[a] as int, #[trigger] t[b] as int) by {
        if b < n1 {
            assert(t[a] == sel1[a] && t[b] == sel1[b]);
        } else if a >= n1 {
            assert(t[a] == sel2[a - n1] && t[b] == sel2[b - n1]);
        } else {
            let x = sel1[a] as int;
            let y = sel2[b - n1] as int;
            assert(t[a] == sel1[a] && t[b] == sel2[b - n1]);
            assert(key_order(keys[x], keys[last]) <= 0);
            assert(key_order(keys[y], keys[last]) > 0);
            lemma_key_order_antisym(keys[y], keys[last]);
            if key_order(keys[x], keys[last]) == 0 {
                lemma_key_order_eq_subst(keys[x], keys[last], keys[y]);
            } else {
                lemma_key_order_trans(keys[x], keys[last], keys[y]);
            }
        }
    }
    assert forall|j: int| 0 <= j < keys.len() && eligible[j] && !t.contains(j as usize) implies
        t.len() == sel1.len() + sel2.len() && forall|k: int| 0 <= k < t.len() ==> precedes(keys, #[trigger] t[k] as int, j) by {
        assert(!sel1.contains(j as usize)) by {
            if sel1.contains(j as usize) {
                let k = choose|k: int| 0 <= k < sel1.len() && sel1[k] == j as usize;
                assert(t[k] == sel1[k]);
            }
        }
        assert(!sel2.contains(j as usize)) by {
            if sel2.contains(j as usize) {
                let k = choose|k: int| 0 <= k < sel2.len() && sel2[k] == j as usize;
                assert(t[k + n1] == sel2[k]);
            }
        }
        // j comes after the whole first page, so after its last entry and the cursor.
        assert(precedes(keys, last, j));
        assert(j != last);
        assert(key_order(keys[last], keys[j]) < 0) by {
            assert(eligible[last]);
            assert(key_order(keys[last], keys[j]) != 0);
        }
        assert(after[j]) by {
            lemma_key_order_eq_subst(cursor, keys[last], keys[j]);
            lemma_key_order_antisym(keys[j], cursor);
        }
        assert forall|k: int| 0 <= k < t.len() implies precedes(keys, #[trigger] t[k] as int, j) by {
            if k < n1 {
                assert(t[k] == sel1[k]);
            } else {
                assert(t[k] == sel2[k - n1]);
            }
        }
    }
}

} // verus!

verus! {

/// Position `i` comes before `j`: a smaller rank, or the same rank and a later time, or the
/// same rank and time and an earlier position.
pub open spec fn ranked_before(ranks: Seq<u8>, times: Seq<i64>, i: int, j: int) -> bool {
    ranks[i] < ranks[j] || (ranks[i] == ranks[j] && (times[i] > times[j] || (times[i] == times[j] && i < j)))
}

/// The result is the first `limit` eligible positions in `ranked_before` order (all of them
/// if fewer), in that order.
pub open spec fn is_top_selection(ranks: Seq<u8>, times: Seq<i64>, eligible: Seq<bool>, limit: int, r: Seq<usize>) -> bool {
    &&& r.len() <= limit
    &&& forall|k: int| 0 <= k < r.len() ==> (#[trigger] r[k]) < eligible.len() && eligible[r[k] as int]
    &&& forall|a: int, b: int| 0 <= a < b < r.len() ==> ranked_before(ranks, times, #[trigger] r[a] as int, #[trigger] r[b] as int)
    &&& forall|j: int|
        0 <= j < eligible.len() && eligible[j] && !r.contains(j as usize) ==> r.len() == limit
            && forall|k: int| 0 <= k < r.len() ==> ranked_before(ranks, times, #[trigger] r[k] as int, j)
}

fn rank_time_key(rank: u8, time: i64) -> (k: SortKey)
    ensures
        k.by == SortBy::Mtime,
        k.dir == SortDir::Desc,
        k.rank == rank,
        k.mtime == time,
        k.name@ == Seq::<char>::empty(),
{
    SortKey { by: SortBy::Mtime, dir: SortDir::Desc, rank, name: String::new(), mtime: time, size: 0 }
}

/// The first `limit` eligible positions, by rank, then newest time, then position.
pub fn select_ranked(ranks: &Vec<u8>, times: &Vec<i64>, eligible: &Vec<bool>, limit: usize) -> (r: Vec<usize>)
    requires
        ranks.len() == eligible.len(),
        times.len() == eligible.len(),
    ensures
        is_top_selection(ranks@, times@, eligible@, limit as int, r@),
{
    let n = eligible.len();
    let mut keys: Vec<SortKey> = Vec::new();
    let mut i: usize = 0;
    while i < n
        invariant
            n == eligible.len() == ranks.len() == times.len(),
            i <= n,
            keys.len() == i,
            forall|k: int| 0 <= k < i ==> (#[trigger] keys@[k]).by == SortBy::Mtime && keys@[k].dir == SortDir::Desc
                && keys@[k].rank == ranks@[k] && keys@[k].mtime == times@[k] && keys@[k].name@ == Seq::<char>::empty(),
        decreases n - i,
    {
        keys.push(rank_time_key(ranks[i], times[i]));
        i = i + 1;
    }
    let r = select_first(&keys, eligible, limit);
    proof {
        assert forall|a: int, b: int| 0 <= a < n && 0 <= b < n implies
            #[trigger] precedes(keys@, a, b) == ranked_before(ranks@, times@, a, b) by {
            let ka = keys@[a];
            let kb = keys@[b];
            assert(text_order(ka.name@, kb.name@) == 0);
        }
        assert forall|a: int, b: int| 0 <= a < b < r.len() implies
            ranked_before(ranks@, times@, #[trigger] r@[a] as int, #[trigger] r@[b] as int) by {
            assert(precedes(keys@, r@[a] as int, r@[b] as int));
        }
        assert forall|j: int| 0 <= j < n && eligible@[j] && !r@.contains(j as usize) implies r.len() == limit
            && forall|k: int| 0 <= k < r.len() ==> ranked_before(ranks@, times@, #[trigger] r@[k] as int, j) by {
            assert forall|k: int| 0 <= k < r.len() implies ranked_before(ranks@, times@, #[trigger] r@[k] as int, j) by {
                assert(precedes(keys@, r@[k] as int, j));
            }
        }
    }
    r
}

} // verus!
