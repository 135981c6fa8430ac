//! The order in which one tick visits the pairs of bodies.
//!
//! With the bodies numbered from 0, a tick visits the pairs `(i, j)` with
//! `i < j` row by row: first every pair of body 0, then every remaining pair
//! of body 1, and so on, each row by rising `j`.
use vstd::prelude::*;

verus! {

/// The pairs of row `i` among `n` bodies: `(i, i + 1)`, ..., `(i, n - 1)`.
pub open spec fn row(n: int, i: int) -> Seq<(int, int)> {
    Seq::new(
        if i + 1 < n {
            (n - 1 - i) as nat
        } else {
            0
        },
        |t: int| (i, i + 1 + t),
    )
}

/// The first `count` rows, one after the other.
pub open spec fn rows(n: int, count: int) -> Seq<(int, int)>
    decreases count,
{
    if count <= 0 {
        Seq::empty()
    } else {
        rows(n, count - 1) + row(n, count - 1)
    }
}

/// The pairs that a tick over `n` bodies visits, in the order of the visits.
pub open spec fn schedule(n: int) -> Seq<(int, int)> {
    rows(n, n)
}

/// The number of unordered pairs among `n` bodies.
pub open spec fn pair_count(n: int) -> int {
    n * (n - 1) / 2
}

/// The place of the pair `(i, j)` in the schedule of `n` bodies: the pairs
/// of the rows before row `i`, then the pairs of row `i` before `j`.
pub open spec fn index_of(n: int, i: int, j: int) -> int {
    i * (2 * n - i - 1) / 2 + (j - i - 1)
}

/// Whether the pair `p` comes before the pair `q`, by row and then by
/// partner.
pub open spec fn precedes(p: (int, int), q: (int, int)) -> bool {
    p.0 < q.0 || (p.0 == q.0 && p.1 < q.1)
}

/// The first `count` rows hold `count * (2n - count - 1) / 2` pairs.
pub proof fn lemma_rows_len(n: int, count: int)
    requires
        0 <= count <= n,
    ensures
        2 * rows(n, count).len() == count * (2 * n - count - 1),
        rows(n, count).len() == index_of(n, count, count + 1),
    decreases count,
{
    if count > 0 {
        lemma_rows_len(n, count - 1);
        assert(count * (2 * n - count - 1) == (count - 1) * (2 * n - (count - 1) - 1) + 2 * (n
            - count)) by (nonlinear_arith);
    } else {
        assert(count * (2 * n - count - 1) == 0) by (nonlinear_arith)
            requires
                count == 0,
        ;
    }
}

/// Every pair among the first `count` rows has its first body in one of
/// those rows and a later body as its partner, and stands at its place.
pub proof fn lemma_rows_at(n: int, count: int, k: int)
    requires
        0 <= count <= n,
        0 <= k < rows(n, count).len(),
    ensures
        0 <= rows(n, count)[k].0 < count,
        rows(n, count)[k].0 < rows(n, count)[k].1 < n,
        k == index_of(n, rows(n, count)[k].0, rows(n, count)[k].1),
        rows(n, count)[k] == schedule(n)[k],
        k < schedule(n).len(),
    decreases count,
{
    lemma_rows_prefix(n, count, n);
    if k < rows(n, count - 1).len() {
        lemma_rows_at(n, count - 1, k);
    } else {
        // The pair stands in the last of the rows, number `count - 1`.
        lemma_rows_len(n, count - 1);
    }
}

/// The first `few` rows open the first `many` rows.
pub proof fn lemma_rows_prefix(n: int, few: int, many: int)
    requires
        0 <= few <= many,
    ensures
        rows(n, few).len() <= rows(n, many).len(),
        forall|k: int| 0 <= k < rows(n, few).len() ==> rows(n, few)[k] == rows(n, many)[k],
    decreases many - few,
{
    if few < many {
        lemma_rows_prefix(n, few, many - 1);
    }
}

/// A tick over `n` bodies visits `n * (n - 1) / 2` pairs.
pub proof fn lemma_schedule_len(n: int)
    requires
        0 <= n,
    ensures
        schedule(n).len() == pair_count(n),
{
    lemma_rows_len(n, n);
    assert(n * (2 * n - n - 1) == n * (n - 1)) by (nonlinear_arith);
}

/// Every visit is to two different bodies, the lower-numbered first: no
/// body is ever paired with itself.
pub proof fn lemma_schedule_members(n: int, k: int)
    requires
        0 <= n,
        0 <= k < schedule(n).len(),
    ensures
        0 <= schedule(n)[k].0 < schedule(n)[k].1 < n,
        k == index_of(n, schedule(n)[k].0, schedule(n)[k].1),
{
    lemma_rows_at(n, n, k);
}

/// Every unordered pair of bodies is visited, at its place.
pub proof fn lemma_schedule_complete(n: int, i: int, j: int)
    requires
        0 <= i < j < n,
    ensures
        0 <= index_of(n, i, j) < schedule(n).len(),
        schedule(n)[index_of(n, i, j)] == (i, j),
{
    lemma_rows_len(n, i);
    lemma_rows_len(n, i + 1);
    let k = rows(n, i).len() + (j - i - 1);
    assert(rows(n, i + 1)[k] == row(n, i)[j - i - 1]);
    lemma_rows_at(n, i + 1, k);
}

/// The visits are in strictly rising order, so no pair is visited twice.
pub proof fn lemma_schedule_ordered(n: int, k1: int, k2: int)
    requires
        0 <= n,
        0 <= k1 < k2 < schedule(n).len(),
    ensures
        precedes(schedule(n)[k1], schedule(n)[k2]),
        schedule(n)[k1] != schedule(n)[k2],
{
    let p = schedule(n)[k1];
    let q = schedule(n)[k2];
    lemma_schedule_members(n, k1);
    lemma_schedule_members(n, k2);
    if q.0 < p.0 {
        // The row of `q` would end before the row of `p` begins, and `k2`
        // would be below `k1`.
        lemma_rows_len(n, q.0);
        lemma_rows_len(n, q.0 + 1);
        lemma_rows_len(n, p.0);
        lemma_rows_prefix(n, q.0 + 1, p.0);
    }
}

/// The schedule of `n` bodies, as pairs of indices.
pub fn pairs(n: usize) -> (r: Vec<(usize, usize)>)
    ensures
        r@.len() == pair_count(n as int),
        r@.len() == schedule(n as int).len(),
        forall|k: int|
            0 <= k < r@.len() ==> (#[trigger] r@[k]).0 == schedule(n as int)[k].0 && r@[k].1
                == schedule(n as int)[k].1,
{
    let mut out: Vec<(usize, usize)> = Vec::new();
    let mut i: usize = 0;
    proof {
        lemma_schedule_len(n as int);
    }
    while i < n
        invariant
            0 <= i <= n,
            out@.len() == rows(n as int, i as int).len(),
            forall|k: int|
                0 <= k < out@.len() ==> (#[trigger] out@[k]).0 == rows(n as int, i as int)[k].0
                    && out@[k].1 == rows(n as int, i as int)[k].1,
        decreases n - i,
    {
        let mut j: usize = i + 1;
        let ghost base = out@;
        while j < n
            invariant
                0 <= i < j <= n,
                base.len() == rows(n as int, i as int).len(),
                out@.len() == base.len() + (j - i - 1),
                forall|k: int| 0 <= k < base.len() ==> out@[k] == base[k],
                forall|k: int|
                    0 <= k < base.len() ==> (#[trigger] base[k]).0 == rows(n as int, i as int)[k].0
                        && base[k].1 == rows(n as int, i as int)[k].1,
                forall|k: int|
                    base.len() <= k < out@.len() ==> (#[trigger] out@[k]).0 == i && out@[k].1 == i
                        + 1 + (k - base.len()),
            decreases n - j,
        {
            out.push((i, j));
            j = j + 1;
        }
        proof {
            assert(rows(n as int, i + 1) == rows(n as int, i as int) + row(n as int, i as int));
            assert forall|k: int| 0 <= k < out@.len() implies (#[trigger] out@[k]).0 == rows(
                n as int,
                i + 1,
            )[k].0 && out@[k].1 == rows(n as int, i + 1)[k].1 by {
                if k < base.len() {
                    assert(out@[k] == base[k]);
                } else {
                    assert(rows(n as int, i + 1)[k] == row(n as int, i as int)[k - base.len()]);
                }
            }
        }
        i = i + 1;
    }
    out
}

} // verus!
