//! Streaming a run's events to a browser: stored events first, then live ones, each sent once
//! and in order of sequence, until the run has been over for a while.
use vstd::prelude::*;

verus! {

/// Status checks in a row that find the run over before the stream closes.
pub const IDLE_CHECKS_AFTER_END: u32 = 10;

/// Where a run's event stream stands: the last sequence sent, and how many status checks in a
/// row found the run over.
#[derive(Debug, Clone, Copy, PartialEq, Eq, Structural)]
pub struct RunStream {
    pub last_seq: i64,
    pub idle_after_end: u32,
}

/// A stream that starts after the given sequence (none, or below zero, is zero).
pub fn run_stream_start(after: Option<i64>) -> (s: RunStream)
    ensures
        s.last_seq == (match after {
            Some(a) => if a < 0 { 0 } else { a },
            None => 0,
        }),
        s.idle_after_end == 0,
{
    let a: i64 = match after {
        Some(a) => a,
        None => 0,
    };
    RunStream { last_seq: if a < 0 { 0 } else { a }, idle_after_end: 0 }
}

/// A batch of stored events was read: a non-empty batch means the run is still talking.
pub fn on_stored_batch(s: RunStream, nonempty: bool) -> (r: RunStream)
    ensures
        r.last_seq == s.last_seq,
        r.idle_after_end == (if nonempty { 0 } else { s.idle_after_end }),
{
    if nonempty {
        RunStream { last_seq: s.last_seq, idle_after_end: 0 }
    } else {
        s
    }
}

/// A stored event (read after the last sequence) is sent; the last sequence becomes the
/// larger of the two.
pub fn on_stored_event(s: RunStream, seq: i64) -> (r: RunStream)
    ensures
        r.last_seq == (if seq > s.last_seq { seq } else { s.last_seq }),
        r.idle_after_end == s.idle_after_end,
{
    RunStream { last_seq: if seq > s.last_seq { seq } else { s.last_seq }, idle_after_end: s.idle_after_end }
}

/// A live event: sent only when it comes after everything sent so far, and then it is the
/// last sequence.
pub fn on_live_event(s: RunStream, seq: i64) -> (r: (RunStream, bool))
    ensures
        r.1 == (seq > s.last_seq),
        r.1 ==> r.0.last_seq == seq && r.0.idle_after_end == 0,
        sent_live(s.last_seq, seq![seq]) == (if r.1 { seq![seq] } else { Seq::<i64>::empty() }),
        !r.1 ==> r.0 == s,
{
    proof {
        assert(seq![seq].drop_first() =~= Seq::<i64>::empty());
        assert(sent_live(seq, Seq::<i64>::empty()) == Seq::<i64>::empty());
        assert(sent_live(s.last_seq, Seq::<i64>::empty()) == Seq::<i64>::empty());
        assert(sent_live(s.last_seq, seq![seq]) =~= (if seq > s.last_seq { seq![seq] } else { Seq::<i64>::empty() }));
    }
    if seq <= s.last_seq {
        (s, false)
    } else {
        (RunStream { last_seq: seq, idle_after_end: 0 }, true)
    }
}

/// A status check: a run that is over counts towards closing the stream, which closes at the
/// limit; a run still queued or running resets the count.
pub fn on_status_check(s: RunStream, ended: bool) -> (r: (RunStream, bool))
    requires
        s.idle_after_end < IDLE_CHECKS_AFTER_END,
    ensures
        r.0.last_seq == s.last_seq,
        ended ==> r.0.idle_after_end == s.idle_after_end + 1 && r.1 == (s.idle_after_end + 1 >= IDLE_CHECKS_AFTER_END),
        !ended ==> r.0.idle_after_end == 0 && !r.1,
        !r.1 ==> r.0.idle_after_end < IDLE_CHECKS_AFTER_END,
{
    if ended {
        let idle = s.idle_after_end + 1;
        (RunStream { last_seq: s.last_seq, idle_after_end: idle }, idle >= IDLE_CHECKS_AFTER_END)
    } else {
        (RunStream { last_seq: s.last_seq, idle_after_end: 0 }, false)
    }
}

/// The sequences a stream sends of a series of live events, given where it starts: each
/// event above every one sent before.
pub open spec fn sent_live(last: i64, seqs: Seq<i64>) -> Seq<i64>
    decreases seqs.len(),
{
    if seqs.len() == 0 {
        seq![]
    } else {
        let first = seqs[0];
        if first > last {
            seq![first] + sent_live(first, seqs.drop_first())
        } else {
            sent_live(last, seqs.drop_first())
        }
    }
}

/// Live events reach the browser in strictly increasing order of sequence, each above where
/// the stream stood, so none is sent twice.
pub proof fn lemma_live_events_increase(last: i64, seqs: Seq<i64>)
    ensures
        forall|i: int, j: int| 0 <= i < j < sent_live(last, seqs).len()
            ==> #[trigger] sent_live(last, seqs)[i] < #[trigger] sent_live(last, seqs)[j],
        forall|i: int| 0 <= i < sent_live(last, seqs).len() ==> last < #[trigger] sent_live(last, seqs)[i],
    decreases seqs.len(),
{
    if seqs.len() > 0 {
        let first = seqs[0];
        if first > last {
            lemma_live_events_increase(first, seqs.drop_first());
            let rest = sent_live(first, seqs.drop_first());
            let all = sent_live(last, seqs);
            assert(all == seq![first] + rest);
            assert forall|i: int, j: int| 0 <= i < j < all.len() implies #[trigger] all[i] < #[trigger] all[j] by {
                if i == 0 {
                    assert(all[j] == rest[j - 1]);
                } else {
                    assert(all[i] == rest[i - 1]);
                    assert(all[j] == rest[j - 1]);
                }
            }
            assert forall|i: int| 0 <= i < all.len() implies last < #[trigger] all[i] by {
                if i > 0 {
                    assert(all[i] == rest[i - 1]);
                }
            }
        } else {
            lemma_live_events_increase(last, seqs.drop_first());
            assert(sent_live(last, seqs) == sent_live(last, seqs.drop_first()));
        }
    } else {
        assert(sent_live(last, seqs).len() == 0);
    }
}

} // verus!
