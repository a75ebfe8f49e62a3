use vstd::prelude::*;
use vstd::arithmetic::div_mod::{lemma_add_mod_noop, lemma_small_mod};
use crate::pool::{ServerPool, rr_next};

verus! {

/// Sum of the loads of the first `n` backends of `pool`.
pub open spec fn load_sum(pool: ServerPool, n: nat) -> nat
    decreases n,
{
    if n == 0 {
        0
    } else {
        load_sum(pool, (n - 1) as nat) + pool.load(n - 1)
    }
}

/// Total number of requests that `pool` counts as in flight.
pub open spec fn total_load(pool: ServerPool) -> nat {
    load_sum(pool, pool.size())
}

/// Round-robin selections that start from a fresh pool of `n` backends visit
/// them in address order and start over after the last one: selection `i`
/// (counting from zero) returns backend `i % n`. So the first `n` selections
/// return every backend once, and selection `n` returns the first again.
pub proof fn lemma_round_robin_order(pools: Seq<ServerPool>, picks: Seq<usize>)
    requires
        pools.len() == picks.len() + 1,
        pools[0].wf(),
        pools[0].is_fresh(),
        forall|i: int|
            0 <= i < picks.len() ==> {
                &&& picks[i] == pools[i].cursor()
                &&& pools[i + 1].cursor() == rr_next(pools[i].cursor(), pools[i].size())
                &&& pools[i + 1].size() == pools[i].size()
            },
    ensures
        forall|i: int| 0 <= i < picks.len() ==> picks[i] == i % (pools[0].size() as int),
        forall|i: int| 0 <= i < picks.len() && i < pools[0].size() ==> picks[i] == i,
        picks.len() > pools[0].size() ==> picks[pools[0].size() as int] == picks[0],
{
    let n = pools[0].size() as int;
    pools[0].lemma_wf_size();
    assert forall|i: int| 0 <= i <= picks.len() implies pools[i].cursor() == i % n
        && pools[i].size() == n by {
        lemma_cursor_at(pools, picks, i, n);
    }
    assert forall|i: int| 0 <= i < picks.len() && i < n implies picks[i] == i by {
        lemma_small_mod(i as nat, n as nat);
    }
    if picks.len() > n {
        assert(n % n == 0) by (nonlinear_arith)
            requires
                n > 0,
        ;
        lemma_small_mod(0, n as nat);
    }
}

proof fn lemma_cursor_at(pools: Seq<ServerPool>, picks: Seq<usize>, i: int, n: int)
    requires
        pools.len() == picks.len() + 1,
        n == pools[0].size(),
        n > 0,
        pools[0].cursor() == 0,
        forall|k: int|
            0 <= k < picks.len() ==> {
                &&& picks[k] == pools[k].cursor()
                &&& pools[k + 1].cursor() == rr_next(pools[k].cursor(), pools[k].size())
                &&& pools[k + 1].size() == pools[k].size()
            },
        0 <= i <= picks.len(),
    ensures
        pools[i].cursor() == i % n,
        pools[i].size() == n,
    decreases i,
{
    if i == 0 {
        lemma_small_mod(0, n as nat);
    } else {
        lemma_cursor_at(pools, picks, i - 1, n);
        let k = i - 1;
        assert(picks[k] == pools[k].cursor());
        assert(pools[k + 1].cursor() == rr_next(pools[k].cursor(), pools[k].size()));
        assert(pools[i].cursor() == (k % n + 1) % n);
        lemma_add_mod_noop(k, 1, n);
        if n > 1 {
            lemma_small_mod(1, n as nat);
        } else {
            assert(i % n == 0 && (i - 1) % n == 0) by (nonlinear_arith)
                requires
                    n == 1,
            ;
        }
    }
}

/// When every backend carries the same load, least-connections selection
/// picks the first backend.
pub proof fn lemma_tie_goes_to_first(pool: ServerPool, r: int)
    requires
        forall|i: int, j: int|
            0 <= i < pool.size() && 0 <= j < pool.size() ==> pool.load(i) == pool.load(j),
        pool.is_first_min(r),
    ensures
        r == 0,
{
    if r > 0 {
        assert(pool.load(r) < pool.load(0));
    }
}

/// Once one more request is counted on backend `b` of a pool whose backends
/// all carried the same load, least-connections selection never picks `b`:
/// it picks the first of the other backends.
pub proof fn lemma_busy_backend_skipped(before: ServerPool, after: ServerPool, b: int, r: int)
    requires
        before.size() >= 2,
        0 <= b < before.size(),
        forall|i: int, j: int|
            0 <= i < before.size() && 0 <= j < before.size() ==> before.load(i) == before.load(j),
        ServerPool::with_load(before, after, b, before.load(b) + 1),
        after.is_first_min(r),
    ensures
        r != b,
        r == (if b == 0 { 1int } else { 0int }),
{
    let other: int = if b == 0 { 1 } else { 0 };
    assert(after.load(other) == before.load(b));
    assert(after.load(r) <= after.load(other));
    assert(r != b);
    if r > other {
        assert(after.load(r) < after.load(other));
        assert(after.load(r) == before.load(b));
    }
    if r < other {
        assert(r == 0 && b == 0);
    }
}

proof fn lemma_load_sum_bump(before: ServerPool, after: ServerPool, b: int, v: nat, n: nat)
    requires
        ServerPool::with_load(before, after, b, v),
        0 <= b < before.size(),
        n <= before.size(),
    ensures
        b < n ==> load_sum(after, n) + before.load(b) == load_sum(before, n) + v,
        b >= n ==> load_sum(after, n) == load_sum(before, n),
    decreases n,
{
    if n > 0 {
        lemma_load_sum_bump(before, after, b, v, (n - 1) as nat);
    }
}

/// Counting a request as started on a backend raises the pool's total load by
/// exactly one, so `k` starts on a fresh pool give a total of `k`.
pub proof fn lemma_start_adds_one(before: ServerPool, after: ServerPool, b: int)
    requires
        0 <= b < before.size(),
        ServerPool::with_load(before, after, b, before.load(b) + 1),
    ensures
        total_load(after) == total_load(before) + 1,
{
    lemma_load_sum_bump(before, after, b, before.load(b) + 1, before.size());
}

/// Counting a request as finished on a backend that has one in flight lowers
/// the pool's total load by exactly one.
pub proof fn lemma_end_removes_one(before: ServerPool, after: ServerPool, b: int)
    requires
        0 <= b < before.size(),
        before.load(b) > 0,
        ServerPool::with_load(before, after, b, (before.load(b) - 1) as nat),
    ensures
        total_load(after) + 1 == total_load(before),
{
    lemma_load_sum_bump(before, after, b, (before.load(b) - 1) as nat, before.size());
}

/// A fresh pool has no request in flight.
pub proof fn lemma_fresh_total_zero(pool: ServerPool)
    requires
        pool.is_fresh(),
    ensures
        total_load(pool) == 0,
{
    lemma_fresh_sum_zero(pool, pool.size());
}

proof fn lemma_fresh_sum_zero(pool: ServerPool, n: nat)
    requires
        pool.is_fresh(),
        n <= pool.size(),
    ensures
        load_sum(pool, n) == 0,
    decreases n,
{
    if n > 0 {
        lemma_fresh_sum_zero(pool, (n - 1) as nat);
    }
}

/// Each request counted as started on a fresh pool shows in its total load:
/// after `k` starts, on whichever backends, the pool counts `k` requests in flight.
pub proof fn lemma_starts_counted(pools: Seq<ServerPool>, picks: Seq<usize>)
    requires
        pools.len() == picks.len() + 1,
        pools[0].is_fresh(),
        forall|i: int|
            0 <= i < picks.len() ==> {
                &&& picks[i] < pools[i].size()
                &&& ServerPool::with_load(
                    pools[i],
                    pools[i + 1],
                    picks[i] as int,
                    pools[i].load(picks[i] as int) + 1,
                )
            },
    ensures
        forall|i: int| 0 <= i < pools.len() ==> total_load(pools[i]) == i,
{
    assert forall|i: int| 0 <= i < pools.len() implies total_load(pools[i]) == i by {
        lemma_starts_counted_upto(pools, picks, i);
    }
}

proof fn lemma_starts_counted_upto(pools: Seq<ServerPool>, picks: Seq<usize>, i: int)
    requires
        pools.len() == picks.len() + 1,
        pools[0].is_fresh(),
        forall|k: int|
            0 <= k < picks.len() ==> {
                &&& picks[k] < pools[k].size()
                &&& ServerPool::with_load(
                    pools[k],
                    pools[k + 1],
                    picks[k] as int,
                    pools[k].load(picks[k] as int) + 1,
                )
            },
        0 <= i < pools.len(),
    ensures
        total_load(pools[i]) == i,
    decreases i,
{
    if i == 0 {
        lemma_fresh_total_zero(pools[0]);
    } else {
        let k = i - 1;
        lemma_starts_counted_upto(pools, picks, k);
        assert(picks[k] < pools[k].size());
        lemma_start_adds_one(pools[k], pools[k + 1], picks[k] as int);
    }
}

/// Starting a request on backend `b` and then finishing it leaves the pool
/// with the loads, addresses and cursor it had before.
pub proof fn lemma_start_end_balance(before: ServerPool, during: ServerPool, after: ServerPool, b: int)
    requires
        0 <= b < before.size(),
        ServerPool::with_load(before, during, b, before.load(b) + 1),
        ServerPool::with_load(
            during,
            after,
            b,
            if during.load(b) == 0 { 0 } else { (during.load(b) - 1) as nat },
        ),
    ensures
        after.size() == before.size(),
        after.addrs() == before.addrs(),
        after.cursor() == before.cursor(),
        after.mode() == before.mode(),
        forall|j: int| 0 <= j < before.size() ==> after.load(j) == before.load(j),
        total_load(after) == total_load(before),
{
    lemma_start_adds_one(before, during, b);
    lemma_end_removes_one(during, after, b);
}

} // verus!
