//! Which worker reads which partitions of a topic.

use vstd::prelude::*;

verus! {

/// `a` divided by `b`, rounded up.
pub open spec fn ceil_div(a: nat, b: nat) -> nat
    recommends
        b > 0,
{
    a / b + if a % b == 0 {
        0nat
    } else {
        1nat
    }
}

/// The ids of the partitions of a topic that has `num_partitions` of them,
/// counted in the type of the ids.
pub open spec fn partition_list(num_partitions: usize) -> Seq<i32> {
    Seq::new(
        if num_partitions as i32 > 0 {
            (num_partitions as i32) as nat
        } else {
            0
        },
        |i: int| i as i32,
    )
}

/// The ids of the partitions of a topic that has `num_partitions` of them.
pub fn partition_ids(num_partitions: usize) -> (ids: Vec<i32>)
    ensures
        ids@ == partition_list(num_partitions),
{
    let count = num_partitions as i32;
    let mut ids: Vec<i32> = Vec::new();
    let mut id: i32 = 0;
    while id < count
        invariant
            0 <= id,
            id <= count || (id == 0 && count < 0),
            ids@.len() == id,
            forall|i: int| 0 <= i < ids@.len() ==> #[trigger] ids@[i] == i,
        decreases count - id,
    {
        ids.push(id);
        id = id + 1;
    }
    assert(ids@ =~= partition_list(num_partitions));
    ids
}

/// How many partitions each worker reads, but for the last.
pub open spec fn share_size(total: nat, num_threads: nat) -> nat {
    ceil_div(total, num_threads)
}

/// The partitions of worker `worker` where each reads `share` of them.
pub open spec fn share_of(partitions: Seq<i32>, share: int, worker: int) -> Seq<i32> {
    partitions.subrange(
        worker * share,
        if (worker + 1) * share < partitions.len() {
            (worker + 1) * share
        } else {
            partitions.len() as int
        },
    )
}

proof fn lemma_shares(total: nat, num_threads: nat)
    requires
        num_threads > 0,
        total > 0,
    ensures
        0 < share_size(total, num_threads) <= total,
        num_threads * share_size(total, num_threads) >= total,
        0 < ceil_div(total, share_size(total, num_threads)) <= num_threads,
{
    let q = total / num_threads;
    let r = total % num_threads;
    let share = share_size(total, num_threads);
    assert(total == num_threads * q + r && r < num_threads) by (nonlinear_arith)
        requires
            num_threads > 0,
            q == total / num_threads,
            r == total % num_threads,
    ;
    assert(share > 0) by (nonlinear_arith)
        requires
            total == num_threads * q + r,
            total > 0,
            share == q + (if r == 0 {
                0nat
            } else {
                1nat
            }),
    ;
    assert(share <= total) by (nonlinear_arith)
        requires
            total == num_threads * q + r,
            num_threads > 0,
            share == q + (if r == 0 {
                0nat
            } else {
                1nat
            }),
    ;
    assert(num_threads * share >= total) by (nonlinear_arith)
        requires
            total == num_threads * q + r,
            r < num_threads,
            share == q + (if r == 0 {
                0nat
            } else {
                1nat
            }),
    ;
    let p = total / share;
    let s = total % share;
    assert(total == share * p + s && s < share) by (nonlinear_arith)
        requires
            share > 0,
            p == total / share,
            s == total % share,
    ;
    let count = ceil_div(total, share);
    assert(count > 0) by (nonlinear_arith)
        requires
            total == share * p + s,
            total > 0,
            count == p + (if s == 0 {
                0nat
            } else {
                1nat
            }),
    ;
    assert(count <= num_threads) by (nonlinear_arith)
        requires
            total == share * p + s,
            total <= num_threads * share,
            share > 0,
            count == p + (if s == 0 {
                0nat
            } else {
                1nat
            }),
    ;
}

/// Deals `partitions` out in order, an equal share to each of `num_threads`
/// workers but for what is left to the last. Workers for whom nothing is left
/// get no share.
pub fn assign_partitions(partitions: &Vec<i32>, num_threads: usize) -> (shares: Vec<Vec<i32>>)
    requires
        num_threads > 0,
    ensures
        partitions@.len() == 0 ==> shares@.len() == 0,
        partitions@.len() > 0 ==> shares@.len() == ceil_div(
            partitions@.len(),
            share_size(partitions@.len(), num_threads as nat),
        ),
        shares@.len() <= num_threads,
        forall|worker: int|
            0 <= worker < shares@.len() ==> (#[trigger] shares@[worker])@ == share_of(
                partitions@,
                share_size(partitions@.len(), num_threads as nat) as int,
                worker,
            ),
{
    let total = partitions.len();
    let mut shares: Vec<Vec<i32>> = Vec::new();
    if total == 0 {
        return shares;
    }
    proof {
        lemma_shares(total as nat, num_threads as nat);
    }
    let per_thread: usize = if total % num_threads == 0 {
        total / num_threads
    } else {
        total / num_threads + 1
    };
    let ghost share = share_size(total as nat, num_threads as nat);
    assert(0 * share == 0) by (nonlinear_arith);
    let mut start: usize = 0;
    while start < total
        invariant
            total == partitions@.len(),
            total > 0,
            per_thread == share,
            0 < share <= total,
            share == share_size(total as nat, num_threads as nat),
            start <= total,
            start == shares@.len() * share || start == total,
            start < total ==> start == shares@.len() * share,
            start == total ==> shares@.len() > 0 && (shares@.len() - 1) * share < total
                && shares@.len() * share >= total,
            forall|worker: int|
                0 <= worker < shares@.len() ==> (#[trigger] shares@[worker])@ == share_of(
                    partitions@,
                    share as int,
                    worker,
                ),
        decreases total - start,
    {
        let ghost worker = shares@.len() as int;
        let end: usize = if total - start > per_thread {
            start + per_thread
        } else {
            total
        };
        let mut part: Vec<i32> = Vec::new();
        let mut i: usize = start;
        while i < end
            invariant
                total == partitions@.len(),
                start <= i <= end <= total,
                part@ == partitions@.subrange(start as int, i as int),
            decreases end - i,
        {
            part.push(partitions[i]);
            i = i + 1;
            assert(part@ =~= partitions@.subrange(start as int, i as int));
        }
        proof {
            assert((worker + 1) * share == worker * share + share) by (nonlinear_arith);
            assert(part@ == share_of(partitions@, share as int, worker));
        }
        shares.push(part);
        start = end;
    }
    proof {
        let n = shares@.len();
        let p = total as nat / share;
        let s = total as nat % share;
        assert(total == share * p + s && s < share) by (nonlinear_arith)
            requires
                share > 0,
                p == total as nat / share,
                s == total as nat % share,
        ;
        assert(n == p + (if s == 0 {
            0nat
        } else {
            1nat
        })) by (nonlinear_arith)
            requires
                total == share * p + s,
                s < share,
                (n - 1) * share < total,
                n * share >= total,
                share > 0,
        ;
    }
    shares
}

/// The shares of the first `workers` workers, one after the other.
pub open spec fn shares_joined(partitions: Seq<i32>, share: int, workers: nat) -> Seq<i32>
    decreases workers,
{
    if workers == 0 {
        Seq::empty()
    } else {
        shares_joined(partitions, share, (workers - 1) as nat) + share_of(
            partitions,
            share,
            workers - 1,
        )
    }
}

proof fn lemma_shares_joined(partitions: Seq<i32>, share: int, workers: nat)
    requires
        share > 0,
        workers > 0 ==> (workers - 1) * share < partitions.len(),
    ensures
        shares_joined(partitions, share, workers) == partitions.take(
            if workers * share < partitions.len() {
                workers * share
            } else {
                partitions.len() as int
            },
        ),
    decreases workers,
{
    if workers == 0 {
        assert(0 * share == 0) by (nonlinear_arith);
        assert(shares_joined(partitions, share, workers) =~= partitions.take(0));
    } else {
        let before = (workers - 1) as nat;
        assert(before > 0 ==> (before - 1) * share < before * share) by (nonlinear_arith)
            requires
                share > 0,
        ;
        lemma_shares_joined(partitions, share, before);
        let from = before * share;
        let to = if workers * share < partitions.len() {
            workers * share
        } else {
            partitions.len() as int
        };
        assert(0 <= from <= workers * share) by (nonlinear_arith)
            requires
                share > 0,
                from == before * share,
                workers == before + 1,
        ;
        assert(partitions.take(from) + partitions.subrange(from, to) =~= partitions.take(to));
    }
}

/// Every partition goes to exactly one worker: the shares, one after the other,
/// are the partitions.
pub proof fn law_every_partition_is_assigned_once(partitions: Seq<i32>, num_threads: nat)
    requires
        num_threads > 0,
        partitions.len() > 0,
    ensures
        shares_joined(
            partitions,
            share_size(partitions.len(), num_threads) as int,
            ceil_div(partitions.len(), share_size(partitions.len(), num_threads)),
        ) == partitions,
{
    let total = partitions.len();
    lemma_shares(total, num_threads);
    let share = share_size(total, num_threads);
    let count = ceil_div(total, share);
    let p = total / share;
    let s = total % share;
    assert(total == share * p + s && s < share) by (nonlinear_arith)
        requires
            share > 0,
            p == total / share,
            s == total % share,
    ;
    assert((count - 1) * share < total && count * share >= total) by (nonlinear_arith)
        requires
            total == share * p + s,
            s < share,
            share > 0,
            total > 0,
            count == p + (if s == 0 {
                0nat
            } else {
                1nat
            }),
    ;
    lemma_shares_joined(partitions, share as int, count);
    assert(partitions.take(total as int) =~= partitions);
}

} // verus!
