//! The work partitioner: splits the term-index range `[0, n)` into one
//! contiguous block per worker, the first `t - 1` workers receiving exactly
//! `n / t` indices each and the last worker absorbing the remainder.

use vstd::prelude::*;

use vstd::arithmetic::div_mod::lemma_fundamental_div_mod;

verus! {

/// A half-open range of series term indices: `start <= k < end`.
#[derive(Clone, Copy, Debug, PartialEq, Eq, Structural)]
pub struct IndexRange {
    pub start: u64,
    pub end: u64,
}

/// The number of indices a range holds.
pub open spec fn block_len(r: IndexRange) -> int {
    r.end - r.start
}

/// The block of `[0, n)` assigned to worker `i` of `t`: the first `t - 1`
/// workers get `n / t` indices each, the last gets the rest.
pub open spec fn worker_block(n: u64, t: u64, i: int) -> IndexRange {
    let base = n as int / t as int;
    if i < t - 1 {
        IndexRange { start: (i * base) as u64, end: ((i + 1) * base) as u64 }
    } else {
        IndexRange { start: ((t - 1) * base) as u64, end: n }
    }
}

/// Splits `[0, n)` into `t` task lists, one per worker, each holding that
/// worker's single contiguous block.
pub fn split_range_for_threading(n: u64, t: u64) -> (r: Vec<Vec<IndexRange>>)
    requires
        1 <= t <= n,
    ensures
        r@.len() == t as int,
        forall|i: int| 0 <= i < t as int ==> (#[trigger] r@[i])@.len() == 1,
        forall|i: int| 0 <= i < t as int ==> (#[trigger] r@[i])@[0] == worker_block(n, t, i),
{
    let base: u64 = n / t;
    proof {
        lemma_fundamental_div_mod(n as int, t as int);
    }
    let mut r: Vec<Vec<IndexRange>> = Vec::new();
    let mut i: u64 = 0;
    while i < t - 1
        invariant
            1 <= t <= n,
            base == n as int / t as int,
            i <= t - 1,
            n as int == t as int * (n as int / t as int) + n as int % t as int,
            0 <= n as int % t as int,
            r@.len() == i as int,
            forall|j: int| 0 <= j < i as int ==> (#[trigger] r@[j])@.len() == 1,
            forall|j: int| 0 <= j < i as int ==> (#[trigger] r@[j])@[0] == worker_block(n, t, j),
        decreases t - 1 - i,
    {
        assert((i + 1) as int * base as int <= t as int * base as int) by (nonlinear_arith)
            requires
                i + 1 <= t,
                base >= 0,
        ;
        assert(i as int * base as int <= (i + 1) as int * base as int) by (nonlinear_arith)
            requires
                base >= 0,
        ;
        let mut task: Vec<IndexRange> = Vec::new();
        task.push(IndexRange { start: i * base, end: (i + 1) * base });
        r.push(task);
        i = i + 1;
    }
    assert((t - 1) as int * base as int <= t as int * base as int) by (nonlinear_arith)
        requires
            t >= 1,
            base >= 0,
    ;
    let mut task: Vec<IndexRange> = Vec::new();
    task.push(IndexRange { start: (t - 1) * base, end: n });
    r.push(task);
    r
}

/// Whether index `k` falls inside at least one of the `t` worker blocks.
pub open spec fn covered_by_some_block(n: u64, t: u64, k: int) -> bool {
    exists|i: int|
        0 <= i < t as int && (#[trigger] worker_block(n, t, i)).start <= k < worker_block(
            n,
            t,
            i,
        ).end
}

/// The partitioner's law: the worker blocks are adjacent and nonempty (hence
/// pairwise disjoint), together they cover `[0, n)` exactly, the first
/// `t - 1` blocks hold `n / t` indices each, the last holds the remainder as
/// well, so no two blocks differ by more than `n % t` indices.
pub proof fn lemma_partition_properties(n: u64, t: u64)
    requires
        1 <= t <= n,
    ensures
        worker_block(n, t, 0).start == 0,
        worker_block(n, t, t as int - 1).end == n,
        forall|i: int| #![auto]
            0 <= i < t as int - 1 ==> worker_block(n, t, i).end == worker_block(n, t, i + 1).start,
        forall|i: int| #![auto]
            0 <= i < t as int ==> worker_block(n, t, i).start < worker_block(n, t, i).end,
        forall|i: int| #![auto] 0 <= i < t as int ==> worker_block(n, t, i).end <= n,
        forall|i: int, j: int| #![auto]
            0 <= i < j < t as int ==> worker_block(n, t, i).end <= worker_block(n, t, j).start,
        forall|k: int| 0 <= k < n as int ==> #[trigger] covered_by_some_block(n, t, k),
        forall|i: int| #![auto]
            0 <= i < t as int - 1 ==> block_len(worker_block(n, t, i)) == n as int / t as int,
        block_len(worker_block(n, t, t as int - 1)) == n as int / t as int + n as int % t as int,
        forall|i: int, j: int| #![auto]
            0 <= i < t as int && 0 <= j < t as int ==> block_len(worker_block(n, t, i))
                <= block_len(worker_block(n, t, j)) + n as int % t as int,
{
    let b = n as int / t as int;
    let rm = n as int % t as int;
    lemma_fundamental_div_mod(n as int, t as int);
    assert(n as int == t as int * b + rm);
    assert(b >= 1) by (nonlinear_arith)
        requires
            n as int == t as int * b + rm,
            1 <= t as int <= n as int,
            0 <= rm < t as int,
    ;
    assert forall|i: int| #![auto] 0 <= i < t as int implies worker_block(n, t, i).start
        < worker_block(n, t, i).end && worker_block(n, t, i).end <= n by {
        lemma_block_bounds(n, t, i);
    }
    assert forall|i: int| #![auto] 0 <= i < t as int - 1 implies worker_block(n, t, i).end
        == worker_block(n, t, i + 1).start by {
        lemma_block_bounds(n, t, i);
        lemma_block_bounds(n, t, i + 1);
    }
    assert forall|i: int, j: int| #![auto] 0 <= i < j < t as int implies worker_block(n, t, i).end
        <= worker_block(n, t, j).start by {
        lemma_block_bounds(n, t, i);
        lemma_block_bounds(n, t, j);
        assert((i + 1) * b <= j * b) by (nonlinear_arith)
            requires
                i + 1 <= j,
                b >= 0,
        ;
    }
    assert forall|i: int| #![auto] 0 <= i < t as int - 1 implies block_len(worker_block(n, t, i))
        == b by {
        lemma_block_bounds(n, t, i);
        assert((i + 1) * b - i * b == b) by (nonlinear_arith);
    }
    lemma_block_bounds(n, t, t as int - 1);
    assert(block_len(worker_block(n, t, t as int - 1)) == b + rm) by (nonlinear_arith)
        requires
            worker_block(n, t, t as int - 1).start == (t as int - 1) * b,
            worker_block(n, t, t as int - 1).end == n as int,
            n as int == t as int * b + rm,
    ;
    assert forall|k: int| 0 <= k < n as int implies #[trigger] covered_by_some_block(n, t, k) by {
        if k < (t as int - 1) * b {
            let i = k / b;
            lemma_fundamental_div_mod(k, b);
            assert(i * b <= k < (i + 1) * b) by (nonlinear_arith)
                requires
                    k == b * i + k % b,
                    0 <= k % b < b,
            ;
            assert(i < t as int - 1) by (nonlinear_arith)
                requires
                    i * b <= k,
                    k < (t as int - 1) * b,
                    b >= 1,
                    i >= 0,
            ;
            lemma_block_bounds(n, t, i);
            assert(0 <= i < t as int && worker_block(n, t, i).start <= k < worker_block(
                n,
                t,
                i,
            ).end);
        } else {
            let i = t as int - 1;
            assert(0 <= i < t as int && worker_block(n, t, i).start <= k < worker_block(
                n,
                t,
                i,
            ).end);
        }
    }
}

/// The ends of worker `i`'s block, written without the clipping casts: both
/// bounds lie inside `[0, n]`, so the `u64` fields hold the exact products.
proof fn lemma_block_bounds(n: u64, t: u64, i: int)
    requires
        1 <= t <= n,
        0 <= i < t as int,
    ensures
        worker_block(n, t, i).start == if i < t as int - 1 {
            i * (n as int / t as int)
        } else {
            (t as int - 1) * (n as int / t as int)
        },
        worker_block(n, t, i).end == if i < t as int - 1 {
            (i + 1) * (n as int / t as int)
        } else {
            n as int
        },
        worker_block(n, t, i).start < worker_block(n, t, i).end,
        worker_block(n, t, i).end <= n,
{
    let b = n as int / t as int;
    let rm = n as int % t as int;
    lemma_fundamental_div_mod(n as int, t as int);
    assert(b >= 1) by (nonlinear_arith)
        requires
            n as int == t as int * b + rm,
            1 <= t as int <= n as int,
            0 <= rm < t as int,
    ;
    assert(0 <= i * b && (i + 1) * b <= t as int * b) by (nonlinear_arith)
        requires
            0 <= i < t as int,
            b >= 0,
    ;
    assert(t as int * b <= n as int) by (nonlinear_arith)
        requires
            n as int == t as int * b + rm,
            rm >= 0,
    ;
    assert(i * b < (i + 1) * b) by (nonlinear_arith)
        requires
            b >= 1,
    ;
    if i < t as int - 1 {
        assert(worker_block(n, t, i).start == i * b);
        assert(worker_block(n, t, i).end == (i + 1) * b);
    } else {
        assert((t as int - 1) * b < t as int * b) by (nonlinear_arith)
            requires
                b >= 1,
        ;
        assert(worker_block(n, t, i).start == (t as int - 1) * b);
    }
}

} // verus!
