//! Archiving a job with cascade: its present, unpinned snapshots are queued for deletion,
//! page by page from the newest, up to a limit.
use vstd::prelude::*;
use crate::list_paging::opt_view;

verus! {

/// Snapshots are read this many at a time.
pub const CASCADE_PAGE_LIMIT: u64 = 200;
/// At most this many deletions are queued by one archive.
pub const CASCADE_MAX_ENQUEUE: usize = 1000;

/// Where the walk stands: the keyset cursor (the oldest snapshot seen), how many deletions
/// were queued and pinned snapshots skipped, and whether the walk is over.
#[derive(Debug)]
pub struct CascadeState {
    pub before_ended_at: Option<i64>,
    pub before_run_id: Option<String>,
    pub enqueued: usize,
    pub skipped_pinned: usize,
    pub done: bool,
}

/// One snapshot of a page, newest first.
#[derive(Debug)]
pub struct CascadeItem {
    pub run_id: String,
    pub ended_at: i64,
    pub pinned: bool,
}

pub fn cascade_start() -> (s: CascadeState)
    ensures
        s.before_ended_at is None,
        s.before_run_id is None,
        s.enqueued == 0,
        s.skipped_pinned == 0,
        !s.done,
{
    CascadeState { before_ended_at: None, before_run_id: None, enqueued: 0, skipped_pinned: 0, done: false }
}

pub open spec fn sat_inc(n: usize) -> usize {
    if n == usize::MAX { n } else { (n + 1) as usize }
}

/// The items from `start` on, until the limit is reached: the positions to delete, and the
/// counts after them. Pinned snapshots are skipped and counted.
pub open spec fn cascade_scan(items: Seq<CascadeItem>, start: int, enq: usize, skip: usize) -> (Seq<int>, usize, usize)
    decreases items.len() - start,
{
    if start < 0 || start >= items.len() || enq >= CASCADE_MAX_ENQUEUE {
        (seq![], enq, skip)
    } else if items[start].pinned {
        cascade_scan(items, start + 1, enq, sat_inc(skip))
    } else {
        let rest = cascade_scan(items, start + 1, (enq + 1) as usize, skip);
        (seq![start] + rest.0, rest.1, rest.2)
    }
}

/// One page read: an empty page ends the walk; otherwise the cursor moves to the page's last
/// snapshot, its unpinned snapshots are queued until the limit, and the walk ends at the limit.
pub fn cascade_page(state: CascadeState, page: &Vec<CascadeItem>) -> (r: (CascadeState, Vec<usize>))
    requires
        !state.done,
        state.enqueued < CASCADE_MAX_ENQUEUE,
    ensures
        page.len() == 0 ==> r.0.done && r.1@.len() == 0 && r.0.enqueued == state.enqueued
            && r.0.skipped_pinned == state.skipped_pinned && r.0.before_ended_at == state.before_ended_at
            && opt_view(r.0.before_run_id) == opt_view(state.before_run_id),
        page.len() > 0 ==> {
            let scan = cascade_scan(page@, 0, state.enqueued, state.skipped_pinned);
            &&& r.0.before_ended_at == Some(page@.last().ended_at)
            &&& opt_view(r.0.before_run_id) == Some(page@.last().run_id@)
            &&& r.1@.map_values(|i: usize| i as int) == scan.0
            &&& r.0.enqueued == scan.1
            &&& r.0.skipped_pinned == scan.2
            &&& r.0.done == (scan.1 >= CASCADE_MAX_ENQUEUE)
        },
{
    if page.len() == 0 {
        return (CascadeState { done: true, ..state }, Vec::new());
    }
    let last = &page[page.len() - 1];
    let mut enq = state.enqueued;
    let mut skip = state.skipped_pinned;
    let mut picked: Vec<usize> = Vec::new();
    let mut k: usize = 0;
    let ghost total = cascade_scan(page@, 0, state.enqueued, state.skipped_pinned);
    while k < page.len() && enq < CASCADE_MAX_ENQUEUE
        invariant
            k <= page.len(),
            enq <= CASCADE_MAX_ENQUEUE,
            total == cascade_scan(page@, 0, state.enqueued, state.skipped_pinned),
            ({
                let rest = cascade_scan(page@, k as int, enq, skip);
                &&& picked@.map_values(|i: usize| i as int) + rest.0 == total.0
                &&& rest.1 == total.1
                &&& rest.2 == total.2
            }),
        decreases page.len() - k,
    {
        let ghost before = picked@.map_values(|i: usize| i as int);
        if page[k].pinned {
            skip = if skip == usize::MAX { skip } else { skip + 1 };
        } else {
            picked.push(k);
            enq = enq + 1;
            proof {
                assert(picked@.map_values(|i: usize| i as int) =~= before.push(k as int));
                let rest = cascade_scan(page@, k as int + 1, enq, skip);
                assert(before.push(k as int) + rest.0 =~= before + (seq![k as int] + rest.0));
            }
        }
        k = k + 1;
    }
    proof {
        let rest = cascade_scan(page@, k as int, enq, skip);
        assert(rest.0 =~= Seq::<int>::empty());
        assert(picked@.map_values(|i: usize| i as int) + rest.0 =~= picked@.map_values(|i: usize| i as int));
    }
    let done = enq >= CASCADE_MAX_ENQUEUE;
    (
        CascadeState {
            before_ended_at: Some(last.ended_at),
            before_run_id: Some(last.run_id.clone()),
            enqueued: enq,
            skipped_pinned: skip,
            done,
        },
        picked,
    )
}


/// A cascade never queues a pinned snapshot, queues each snapshot at most once and in page
/// order, and never goes past the limit: what it queues is exactly what its count grew by.
pub proof fn lemma_cascade_scan_safe(items: Seq<CascadeItem>, start: int, enq: usize, skip: usize)
    requires
        0 <= start,
        enq <= CASCADE_MAX_ENQUEUE,
    ensures
        ({
            let r = cascade_scan(items, start, enq, skip);
            &&& forall|j: int| 0 <= j < r.0.len() ==> start <= #[trigger] r.0[j] < items.len() && !items[r.0[j]].pinned
            &&& forall|a: int, b: int| 0 <= a < b < r.0.len() ==> #[trigger] r.0[a] < #[trigger] r.0[b]
            &&& r.1 == enq + r.0.len()
            &&& r.1 <= CASCADE_MAX_ENQUEUE
        }),
    decreases items.len() - start,
{
    if start >= items.len() || enq >= CASCADE_MAX_ENQUEUE {
    } else if items[start].pinned {
        lemma_cascade_scan_safe(items, start + 1, enq, sat_inc(skip));
    } else {
        lemma_cascade_scan_safe(items, start + 1, (enq + 1) as usize, skip);
        let rest = cascade_scan(items, start + 1, (enq + 1) as usize, skip);
        let r = cascade_scan(items, start, enq, skip);
        assert(r.0 == seq![start] + rest.0);
        assert forall|j: int| 0 <= j < r.0.len() implies start <= #[trigger] r.0[j] < items.len() && !items[r.0[j]].pinned by {
            if j > 0 {
                assert(r.0[j] == rest.0[j - 1]);
            }
        }
        assert forall|a: int, b: int| 0 <= a < b < r.0.len() implies #[trigger] r.0[a] < #[trigger] r.0[b] by {
            if a > 0 {
                assert(r.0[a] == rest.0[a - 1]);
            }
            assert(r.0[b] == rest.0[b - 1]);
        }
    }
}

} // verus!
