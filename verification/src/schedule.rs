//! The mathematical model of one scheduler tick: which items are pending,
//! how they are grouped into batches, and which request id each group gets.

use vstd::prelude::*;
use vstd::arithmetic::div_mod::{
    lemma_div_is_ordered, lemma_fundamental_div_mod, lemma_fundamental_div_mod_converse,
    lemma_mod_bound,
};

use crate::item::{FileDetails, ItemView, OutcomeView};

verus! {

/// One outbound unit of work: the items of one analysis exchange, tagged
/// with the request id the scheduler assigned to them. A batch is ephemeral:
/// it exists only between the tick that creates it and the completion of its
/// exchange.
pub struct Batch {
    pub request_id: usize,
    pub members: Vec<FileDetails>,
}

/// How many of the first `upto` items wait to be sent. For a pending item at
/// position `i`, `pending_count(s, i)` is its rank among the pending items.
pub open spec fn pending_count(s: Seq<ItemView>, upto: int) -> int
    decreases upto,
{
    if upto <= 0 {
        0
    } else {
        pending_count(s, upto - 1) + (if s[upto - 1].outcome == OutcomeView::WaitingToSend {
            1int
        } else {
            0int
        })
    }
}

/// How many pending items a store holds in all.
pub open spec fn pending_total(s: Seq<ItemView>) -> int {
    pending_count(s, s.len() as int)
}

/// How many batches one tick creates from `p` pending items grouped `b` at a
/// time: just enough groups of at most `b` to cover all `p`.
pub open spec fn batch_count(p: int, b: int) -> int {
    (p + b - 1) / b
}

/// How many members the `k`-th of the batches over `p` pending items has:
/// `b`, except that the last batch holds whatever remains.
pub open spec fn batch_size_at(p: int, b: int, k: int) -> int {
    if p - k * b < b {
        p - k * b
    } else {
        b
    }
}

/// All items after one scheduler tick on a store whose next unused request
/// id is `first`: every pending item of rank `r` (in store order) moves to
/// `WaitingForResponse(first + r / bsize)` — consecutive groups of `bsize`
/// pending items share one strictly increasing request id — and every other
/// item stays exactly as it was.
pub open spec fn tick_items(s: Seq<ItemView>, first: int, bsize: int) -> Seq<ItemView> {
    Seq::new(
        s.len(),
        |i: int|
            if s[i].outcome == OutcomeView::WaitingToSend {
                ItemView {
                    file: s[i].file,
                    outcome: OutcomeView::WaitingForResponse(first + pending_count(s, i) / bsize),
                }
            } else {
                s[i]
            },
    )
}

/// Pending ranks are bounded by the positions that produce them.
pub proof fn lemma_pending_count_bounds(s: Seq<ItemView>, upto: int)
    requires
        0 <= upto <= s.len(),
    ensures
        0 <= pending_count(s, upto) <= upto,
    decreases upto,
{
    if upto > 0 {
        lemma_pending_count_bounds(s, upto - 1);
    }
}

/// Ranks grow along the store: the rank at a later position is at least the
/// rank at an earlier one, and it strictly grows past a pending item.
pub proof fn lemma_pending_count_monotone(s: Seq<ItemView>, a: int, b: int)
    requires
        0 <= a <= b <= s.len(),
    ensures
        pending_count(s, a) <= pending_count(s, b),
    decreases b - a,
{
    if a < b {
        lemma_pending_count_monotone(s, a, b - 1);
    }
}

/// Grouping arithmetic for one scheduler step. With `r` pending items
/// already grouped — `k` filled groups and `m` members in the youngest one,
/// so `r == k*b + m` — this relates the batch counts and sizes before and
/// after the next pending item joins group `k` as its member `m`.
pub proof fn lemma_group_step(r: int, b: int, k: int, m: int)
    requires
        b >= 1,
        0 <= m < b,
        0 <= k,
        r == k * b + m,
    ensures
        r / b == k,
        r % b == m,
        batch_count(r + 1, b) == k + 1,
        m == 0 ==> batch_count(r, b) == k,
        m > 0 ==> batch_count(r, b) == k + 1,
        batch_size_at(r, b, k) == m,
        batch_size_at(r + 1, b, k) == m + 1,
        m == 0 && r >= 1 ==> (r - 1) / b == k - 1,
        m > 0 ==> (r - 1) / b == k,
        forall|k2: int| 0 <= k2 < k ==> #[trigger] batch_size_at(r, b, k2) == b,
        forall|k2: int| 0 <= k2 < k ==> #[trigger] batch_size_at(r + 1, b, k2) == b,
{
    lemma_fundamental_div_mod_converse(r, b, k, m);
    assert(r + b == (k + 1) * b + m) by (nonlinear_arith)
        requires
            r == k * b + m,
    ;
    lemma_fundamental_div_mod_converse(r + b, b, k + 1, m);
    if m == 0 {
        assert(r + b - 1 == k * b + (b - 1)) by (nonlinear_arith)
            requires
                r == k * b + m,
                m == 0,
        ;
        lemma_fundamental_div_mod_converse(r + b - 1, b, k, b - 1);
        if r >= 1 {
            assert(r - 1 == (k - 1) * b + (b - 1)) by (nonlinear_arith)
                requires
                    r == k * b + m,
                    m == 0,
            ;
            lemma_fundamental_div_mod_converse(r - 1, b, k - 1, b - 1);
        }
    } else {
        assert(r + b - 1 == (k + 1) * b + (m - 1)) by (nonlinear_arith)
            requires
                r == k * b + m,
        ;
        lemma_fundamental_div_mod_converse(r + b - 1, b, k + 1, m - 1);
        lemma_fundamental_div_mod_converse(r - 1, b, k, m - 1);
    }
    assert forall|k2: int| 0 <= k2 < k implies #[trigger] batch_size_at(r, b, k2) == b by {
        assert(r - k2 * b >= b) by (nonlinear_arith)
            requires
                r == k * b + m,
                m >= 0,
                b >= 1,
                0 <= k2 < k,
        ;
    }
    assert forall|k2: int| 0 <= k2 < k implies #[trigger] batch_size_at(r + 1, b, k2) == b by {
        assert(r - k2 * b >= b) by (nonlinear_arith)
            requires
                r == k * b + m,
                m >= 0,
                b >= 1,
                0 <= k2 < k,
        ;
    }
}

/// The request id a pending item of rank `r` receives points into the
/// batches of this tick: its offset `r / b` stays below the batch count.
pub proof fn lemma_rank_id_bound(r: int, b: int, p: int)
    requires
        b >= 1,
        0 <= r < p,
    ensures
        0 <= r / b < batch_count(p, b),
{
    lemma_fundamental_div_mod(r, b);
    lemma_mod_bound(r, b);
    let q = r / b;
    let m = r % b;
    assert(q >= 0) by (nonlinear_arith)
        requires
            r == b * q + m,
            0 <= m < b,
            r >= 0,
            b >= 1,
    ;
    lemma_div_is_ordered(r, p - 1, b);
    let q1 = (p - 1) / b;
    let m1 = (p - 1) % b;
    lemma_fundamental_div_mod(p - 1, b);
    lemma_mod_bound(p - 1, b);
    assert(p + b - 1 == (q1 + 1) * b + m1) by (nonlinear_arith)
        requires
            p - 1 == b * q1 + m1,
    ;
    lemma_fundamental_div_mod_converse(p + b - 1, b, q1 + 1, m1);
}

/// A tick with nothing pending creates no batch.
pub proof fn lemma_batch_count_zero(b: int)
    requires
        b >= 1,
    ensures
        batch_count(0, b) == 0,
{
    lemma_fundamental_div_mod_converse(b - 1, b, 0, b - 1);
}

} // verus!
