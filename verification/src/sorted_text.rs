//! Texts kept in ascending order without repeats (what sorting and deduplicating gives).
use vstd::prelude::*;
use crate::list_paging::{text_order, compare_text, lemma_text_order_antisym, lemma_text_order_trans};

verus! {

pub open spec fn views(v: Seq<String>) -> Seq<Seq<char>> {
    v.map_values(|s: String| s@)
}

/// Each text comes strictly before the next, by code point.
pub open spec fn strictly_ascending(v: Seq<Seq<char>>) -> bool {
    forall|i: int, j: int| 0 <= i < j < v.len() ==> text_order(#[trigger] v[i], #[trigger] v[j]) < 0
}

/// Inserts `s` at its place unless an equal text is already there.
pub fn insert_sorted(out: &mut Vec<String>, s: String)
    requires
        strictly_ascending(views(old(out)@)),
    ensures
        strictly_ascending(views(final(out)@)),
        views(final(out)@).to_set() == views(old(out)@).to_set().insert(s@),
{
    let ghost before = views(out@);
    let n = out.len();
    let mut p: usize = 0;
    while p < n && compare_text(out[p].as_str(), s.as_str()) < 0
        invariant
            n == out.len(),
            p <= n,
            views(out@) == before,
            forall|k: int| 0 <= k < p ==> text_order(#[trigger] before[k], s@) < 0,
        decreases n - p,
    {
        p = p + 1;
    }
    proof {
        if p < n {
            assert(out@[p as int]@ == before[p as int]);
        }
    }
    if p < n && compare_text(out[p].as_str(), s.as_str()) == 0 {
        proof {
            lemma_text_order_antisym(before[p as int], s@);
            assert(views(out@).to_set() =~= before.to_set().insert(s@)) by {
                assert(before.contains(s@)) by {
                    assert(before[p as int] == s@);
                }
            }
        }
        return;
    }
    proof {
        if p < n {
            lemma_text_order_antisym(before[p as int], s@);
        }
    }
    out.insert(p, s);
    proof {
        let after = views(out@);
        assert(after =~= before.insert(p as int, s@));
        assert forall|i: int, j: int| 0 <= i < j < after.len() implies text_order(#[trigger] after[i], #[trigger] after[j]) < 0 by {
            if j < p {
                assert(after[i] == before[i] && after[j] == before[j]);
            } else if j == p {
                assert(after[i] == before[i]);
            } else if i == p {
                assert(after[j] == before[j - 1]);
                if j - 1 > p {
                    assert(text_order(before[p as int], before[j - 1]) < 0);
                    lemma_text_order_antisym(before[p as int], s@);
                    lemma_text_order_trans(s@, before[p as int], before[j - 1]);
                } else {
                    lemma_text_order_antisym(before[p as int], s@);
                    lemma_text_order_antisym(s@, before[p as int]);
                }
            } else if i < p {
                assert(after[i] == before[i] && after[j] == before[j - 1]);
                if i < j - 1 {
                    assert(text_order(before[i], before[j - 1]) < 0);
                } else {
                    assert(i == j - 1);
                    assert(false);
                }
            } else {
                assert(after[i] == before[i - 1] && after[j] == before[j - 1]);
            }
        }
        assert(after.to_set() =~= before.to_set().insert(s@)) by {
            assert forall|x: Seq<char>| after.to_set().contains(x) <==> before.to_set().insert(s@).contains(x) by {
                if after.contains(x) {
                    let k = choose|k: int| 0 <= k < after.len() && after[k] == x;
                    if k < p {
                        assert(before[k] == x);
                    } else if k > p {
                        assert(before[k - 1] == x);
                    }
                }
                if before.contains(x) {
                    let k = choose|k: int| 0 <= k < before.len() && before[k] == x;
                    if k < p {
                        assert(after[k] == x);
                    } else {
                        assert(after[k + 1] == x);
                    }
                }
                if x == s@ {
                    assert(after[p as int] == x);
                }
            }
        }
    }
}

/// Two ascending sequences without repeats that hold the same texts are the same.
pub proof fn lemma_ascending_unique(a: Seq<Seq<char>>, b: Seq<Seq<char>>)
    requires
        strictly_ascending(a),
        strictly_ascending(b),
        a.to_set() == b.to_set(),
    ensures
        a == b,
    decreases a.len(),
{
    if a.len() == 0 {
        if b.len() > 0 {
            assert(b.to_set().contains(b[0]));
            assert(!a.contains(b[0]));
        }
        assert(a =~= b);
    } else if b.len() == 0 {
        assert(a.to_set().contains(a[0]));
        assert(!b.contains(a[0]));
    } else {
        // The first entries are the least of the same set, hence equal.
        assert(a.to_set().contains(a[0]));
        assert(b.contains(a[0]));
        assert(b.to_set().contains(b[0]));
        assert(a.contains(b[0]));
        let ia = choose|k: int| 0 <= k < a.len() && a[k] == b[0];
        let ib = choose|k: int| 0 <= k < b.len() && b[k] == a[0];
        if ia > 0 {
            assert(text_order(a[0], a[ia]) < 0);
            if ib > 0 {
                assert(text_order(b[0], b[ib]) < 0);
                lemma_text_order_antisym(a[0], b[0]);
            } else {
                lemma_text_order_antisym(a[0], a[0]);
            }
        }
        if ib > 0 {
            assert(text_order(b[0], b[ib]) < 0);
            if ia == 0 {
                lemma_text_order_antisym(b[0], b[0]);
            }
        }
        assert(a[0] == b[0]);
        let ra = a.drop_first();
        let rb = b.drop_first();
        assert forall|x: Seq<char>| ra.to_set().contains(x) <==> rb.to_set().contains(x) by {
            if ra.contains(x) {
                let k = choose|k: int| 0 <= k < ra.len() && ra[k] == x;
                assert(a[k + 1] == x);
                assert(a.to_set().contains(x));
                assert(b.contains(x));
                let m = choose|m: int| 0 <= m < b.len() && b[m] == x;
                if m == 0 {
                    assert(text_order(a[0], a[k + 1]) < 0);
                    lemma_text_order_antisym(a[0], a[0]);
                }
                assert(rb[m - 1] == x);
            }
            if rb.contains(x) {
                let k = choose|k: int| 0 <= k < rb.len() && rb[k] == x;
                assert(b[k + 1] == x);
                assert(b.to_set().contains(x));
                assert(a.contains(x));
                let m = choose|m: int| 0 <= m < a.len() && a[m] == x;
                if m == 0 {
                    assert(text_order(b[0], b[k + 1]) < 0);
                    lemma_text_order_antisym(b[0], b[0]);
                }
                assert(ra[m - 1] == x);
            }
        }
        assert(ra.to_set() =~= rb.to_set());
        lemma_ascending_unique(ra, rb);
        assert(a =~= seq![a[0]] + ra);
        assert(b =~= seq![b[0]] + rb);
    }
}

} // verus!
