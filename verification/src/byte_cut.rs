//! Cutting text at a byte limit, between characters, with a mark that it was cut.
use vstd::prelude::*;
use vstd::utf8::{encode_utf8, encode_scalar};
use crate::labels::utf8_width;
use crate::text::{chars_of, string_of, push_char};

verus! {

/// UTF-8 encodes a concatenation piece by piece.
pub proof fn lemma_encode_utf8_concat(a: Seq<char>, b: Seq<char>)
    ensures
        encode_utf8(a + b) == encode_utf8(a) + encode_utf8(b),
    decreases a.len(),
{
    if a.len() == 0 {
        assert(a + b =~= b);
        assert(encode_utf8(a) + encode_utf8(b) =~= encode_utf8(b));
    } else {
        assert((a + b).drop_first() =~= a.drop_first() + b);
        lemma_encode_utf8_concat(a.drop_first(), b);
        assert((a + b)[0] == a[0]);
        assert(encode_utf8(a + b) =~= encode_scalar(a[0] as u32) + encode_utf8(a.drop_first() + b));
    }
}

pub proof fn lemma_encode_prefix_step(t: Seq<char>, k: int)
    requires
        0 <= k < t.len(),
    ensures
        encode_utf8(t.take(k + 1)).len() == encode_utf8(t.take(k)).len() + encode_scalar(t[k] as u32).len(),
{
    assert(t.take(k + 1) =~= t.take(k) + seq![t[k]]);
    lemma_encode_utf8_concat(t.take(k), seq![t[k]]);
    assert(seq![t[k]].drop_first() =~= Seq::<char>::empty());
    assert(encode_utf8(seq![t[k]]) =~= encode_scalar(t[k] as u32) + encode_utf8(Seq::<char>::empty()));
}

pub proof fn lemma_encode_prefix_grows(t: Seq<char>, i: int, j: int)
    requires
        0 <= i < j <= t.len(),
    ensures
        encode_utf8(t.take(i)).len() < encode_utf8(t.take(j)).len(),
    decreases j - i,
{
    lemma_encode_prefix_step(t, j - 1);
    assert(encode_scalar(t[j - 1] as u32).len() >= 1);
    if i < j - 1 {
        lemma_encode_prefix_grows(t, i, j - 1);
    }
}

/// The first `k` characters encode to exactly `n` bytes: byte `n` is a character boundary.
pub open spec fn cut_at(t: Seq<char>, k: int, n: int) -> bool {
    0 <= k <= t.len() && encode_utf8(t.take(k)).len() == n
}

/// The text as it is when it fits in `limit` bytes; else its first `limit` bytes, which end
/// between characters, followed by `…`.
pub open spec fn is_marked_cut(t: Seq<char>, limit: int, r: Seq<char>) -> bool {
    if encode_utf8(t).len() <= limit {
        r == t
    } else {
        exists|k: int| #[trigger] cut_at(t, k, limit) && r == t.take(k) + seq!['…']
    }
}

/// `t` cut at `limit` bytes and marked, as slicing `&t[..limit]` and appending `…` does.
pub fn cut_marked(t: &str, limit: usize) -> (r: String)
    requires
        limit <= 1_000_000,
        encode_utf8(t@).len() > limit ==> exists|k: int| #[trigger] cut_at(t@, k, limit as int),
    ensures
        is_marked_cut(t@, limit as int, r@),
{
    let tv = chars_of(t);
    let ghost tt = tv@;
    let mut acc: usize = 0;
    let mut k: usize = 0;
    while k < tv.len() && acc < limit
        invariant
            tv@ == tt,
            tt == t@,
            limit <= 1_000_000,
            k <= tv.len(),
            acc == encode_utf8(tt.take(k as int)).len(),
            acc <= limit + 4,
            k > 0 ==> encode_utf8(tt.take(k - 1)).len() < limit,
        decreases tv.len() - k,
    {
        proof {
            lemma_encode_prefix_step(tt, k as int);
        }
        acc = acc + utf8_width(tv[k]) as usize;
        k = k + 1;
    }
    if k == tv.len() && acc <= limit {
        assert(tt.take(k as int) =~= tt);
        return string_of(&tv, 0, tv.len());
    }
    proof {
        if k == tv.len() {
            assert(tt.take(k as int) =~= tt);
        } else {
            assert(tt.take(tt.len() as int) =~= tt);
            lemma_encode_prefix_grows(tt, k as int, tt.len() as int);
        }
        let k0 = choose|k0: int| #[trigger] cut_at(tt, k0, limit as int);
        if k0 < k {
            if k0 < k - 1 {
                lemma_encode_prefix_grows(tt, k0, k - 1);
            }
        } else if k0 > k {
            lemma_encode_prefix_grows(tt, k as int, k0);
        }
    }
    let mut out = string_of(&tv, 0, k);
    push_char(&mut out, '…');
    assert(tv@.subrange(0, k as int) =~= tt.take(k as int));
    assert(out@ =~= tt.take(k as int) + seq!['…']);
    assert(cut_at(tt, k as int, limit as int));
    out
}

/// Whether `cut_marked` can cut `t` at `limit` bytes: it fits, or byte `limit` falls between
/// characters.
pub open spec fn cuttable(t: Seq<char>, limit: int) -> bool {
    encode_utf8(t).len() > limit ==> exists|k: int| #[trigger] cut_at(t, k, limit)
}

pub fn cut_possible(t: &str, limit: usize) -> (r: bool)
    requires
        limit <= 1_000_000,
    ensures
        r == cuttable(t@, limit as int),
{
    let tv = chars_of(t);
    let ghost tt = tv@;
    let mut acc: usize = 0;
    let mut k: usize = 0;
    while k < tv.len() && acc < limit
        invariant
            tv@ == tt,
            tt == t@,
            limit <= 1_000_000,
            k <= tv.len(),
            acc == encode_utf8(tt.take(k as int)).len(),
            acc <= limit + 4,
            k > 0 ==> encode_utf8(tt.take(k - 1)).len() < limit,
        decreases tv.len() - k,
    {
        proof {
            lemma_encode_prefix_step(tt, k as int);
        }
        acc = acc + utf8_width(tv[k]) as usize;
        k = k + 1;
    }
    if acc == limit {
        assert(cut_at(tt, k as int, limit as int));
        return true;
    }
    if acc < limit {
        assert(tt.take(k as int) =~= tt);
        return true;
    }
    proof {
        assert forall|k0: int| !#[trigger] cut_at(tt, k0, limit as int) by {
            if 0 <= k0 <= tt.len() {
                if k0 < k {
                    if k0 < k - 1 {
                        lemma_encode_prefix_grows(tt, k0, k - 1);
                    }
                } else if k0 > k {
                    lemma_encode_prefix_grows(tt, k as int, k0);
                }
            }
        }
        if k == tv.len() {
            assert(tt.take(k as int) =~= tt);
        } else {
            assert(tt.take(tt.len() as int) =~= tt);
            lemma_encode_prefix_grows(tt, k as int, tt.len() as int);
        }
    }
    false
}

/// What is cut and marked takes at most three bytes more than the limit (the mark itself).
pub proof fn lemma_marked_cut_fits(t: Seq<char>, limit: int, r: Seq<char>)
    requires
        is_marked_cut(t, limit, r),
    ensures
        encode_utf8(r).len() <= limit + 3,
{
    if encode_utf8(t).len() > limit {
        let k = choose|k: int| #[trigger] cut_at(t, k, limit) && r == t.take(k) + seq!['…'];
        lemma_encode_utf8_concat(t.take(k), seq!['…']);
        assert(seq!['…'].drop_first() =~= Seq::<char>::empty());
        assert(encode_utf8(seq!['…']) =~= encode_scalar('…' as u32) + encode_utf8(Seq::<char>::empty()));
        assert(('…' as u32) == 0x2026);
    }
}

} // verus!
