//! The assignment of the positive integers to workers, batch by batch.
//!
//! With `W` workers and batches of `B` candidates, worker `i` takes in its
//! round `r` the `B` integers that start at `B * (r * W + i) + 1`. Nothing is
//! shared between the workers: each computes its own batches.
use vstd::prelude::*;
use vstd::arithmetic::div_mod::{
    lemma_fundamental_div_mod, lemma_fundamental_div_mod_converse, lemma_mod_bound,
};

verus! {

/// The first candidate of the batch that `worker` takes in `round`.
pub open spec fn batch_start(worker: int, workers: int, batch: int, round: int) -> int {
    batch * (round * workers + worker) + 1
}

/// Whether candidate `n` lies in the batch that `worker` takes in `round`.
pub open spec fn in_batch(n: int, worker: int, workers: int, batch: int, round: int) -> bool {
    batch_start(worker, workers, batch, round) <= n < batch_start(worker, workers, batch, round)
        + batch
}

/// The worker to which candidate `n` falls.
pub open spec fn owner_worker(n: int, workers: int, batch: int) -> int {
    ((n - 1) / batch) % workers
}

/// The round in which its worker takes candidate `n`.
pub open spec fn owner_round(n: int, workers: int, batch: int) -> int {
    ((n - 1) / batch) / workers
}

/// The pairs of a worker and one of its first `rounds` rounds whose batch
/// holds candidate `n`.
pub open spec fn takers(n: int, workers: int, batch: int, rounds: int) -> Set<(int, int)> {
    Set::new(
        |p: (int, int)|
            0 <= p.0 < workers && 0 <= p.1 < rounds && in_batch(n, p.0, workers, batch, p.1),
    )
}

proof fn lemma_product_order(a: int, b: int, c: int)
    by (nonlinear_arith)
    requires
        0 <= a,
        b <= c,
    ensures
        a * b <= a * c,
{
}

proof fn lemma_batch_index(n: int, batch: int, q: int)
    by (nonlinear_arith)
    requires
        batch >= 1,
        batch * q + 1 <= n < batch * q + 1 + batch,
    ensures
        n - 1 == q * batch + (n - 1 - batch * q),
        0 <= n - 1 - batch * q < batch,
{
}

/// Every positive candidate lies in the batch of its owner, in the owner's
/// round.
pub proof fn lemma_owner_takes(n: int, workers: int, batch: int)
    requires
        n >= 1,
        workers >= 1,
        batch >= 1,
    ensures
        0 <= owner_worker(n, workers, batch) < workers,
        0 <= owner_round(n, workers, batch),
        in_batch(
            n,
            owner_worker(n, workers, batch),
            workers,
            batch,
            owner_round(n, workers, batch),
        ),
{
    let q = (n - 1) / batch;
    lemma_fundamental_div_mod(n - 1, batch);
    lemma_mod_bound(n - 1, batch);
    assert(q >= 0) by (nonlinear_arith)
        requires
            n - 1 == batch * q + (n - 1) % batch,
            0 <= (n - 1) % batch < batch,
            n >= 1,
            batch >= 1,
    ;
    lemma_fundamental_div_mod(q, workers);
    lemma_mod_bound(q, workers);
    let r = q / workers;
    assert(r >= 0) by (nonlinear_arith)
        requires
            q == workers * r + q % workers,
            0 <= q % workers < workers,
            q >= 0,
            workers >= 1,
    ;
    assert(r * workers == workers * r) by (nonlinear_arith);
}

/// A batch holds only the candidates that it owns: whoever takes `n` is the
/// owner of `n`, in the owner's round.
pub proof fn lemma_taker_is_owner(n: int, worker: int, workers: int, batch: int, round: int)
    requires
        0 <= worker < workers,
        0 <= round,
        in_batch(n, worker, workers, batch, round),
    ensures
        n >= 1,
        batch >= 1,
        worker == owner_worker(n, workers, batch),
        round == owner_round(n, workers, batch),
{
    let q = round * workers + worker;
    assert(q >= 0) by (nonlinear_arith)
        requires
            q == round * workers + worker,
            round >= 0,
            workers >= 1,
            worker >= 0,
    ;
    lemma_product_order(batch, 0, q);
    lemma_batch_index(n, batch, q);
    lemma_fundamental_div_mod_converse(n - 1, batch, q, n - 1 - batch * q);
    lemma_fundamental_div_mod_converse(q, workers, round, worker);
}

/// A candidate that some worker takes in `round` is at most
/// `batch * workers * rounds` exactly when `round` is among the first
/// `rounds` rounds.
pub proof fn lemma_rounds_cover(
    n: int,
    worker: int,
    workers: int,
    batch: int,
    round: int,
    rounds: int,
)
    requires
        0 <= worker < workers,
        0 <= round,
        in_batch(n, worker, workers, batch, round),
    ensures
        round < rounds <==> n <= batch * workers * rounds,
{
    if round < rounds {
        assert(n <= batch * workers * rounds) by (nonlinear_arith)
            requires
                n < batch * (round * workers + worker) + 1 + batch,
                worker < workers,
                round + 1 <= rounds,
                batch >= 1,
                workers >= 1,
        ;
    } else {
        assert(n > batch * workers * rounds) by (nonlinear_arith)
            requires
                n >= batch * (round * workers + worker) + 1,
                worker >= 0,
                round >= rounds,
                batch >= 1,
                workers >= 1,
        ;
    }
}

/// Over the first `rounds` rounds of all workers, every candidate from 1 to
/// `batch * workers * rounds` is taken exactly once, by its owner, and no
/// other integer is taken at all: no gaps and nothing twice.
pub proof fn lemma_partition_exact(n: int, workers: int, batch: int, rounds: int)
    requires
        workers >= 1,
        batch >= 0,
        rounds >= 0,
    ensures
        takers(n, workers, batch, rounds).finite(),
        1 <= n <= batch * workers * rounds ==> takers(n, workers, batch, rounds) == set![
            (owner_worker(n, workers, batch), owner_round(n, workers, batch)),
        ],
        !(1 <= n <= batch * workers * rounds) ==> takers(n, workers, batch, rounds)
            == Set::<(int, int)>::empty(),
        takers(n, workers, batch, rounds).len() == (if 1 <= n <= batch * workers * rounds {
            1nat
        } else {
            0nat
        }),
{
    let taken = takers(n, workers, batch, rounds);
    assert forall|p: (int, int)| taken.contains(p) implies 1 <= n <= batch * workers * rounds
        && p == (owner_worker(n, workers, batch), owner_round(n, workers, batch)) by {
        lemma_taker_is_owner(n, p.0, workers, batch, p.1);
        lemma_rounds_cover(n, p.0, workers, batch, p.1, rounds);
    }
    if 1 <= n <= batch * workers * rounds {
        assert(batch >= 1) by (nonlinear_arith)
            requires
                1 <= batch * workers * rounds,
                batch >= 0,
        ;
        let owner = (owner_worker(n, workers, batch), owner_round(n, workers, batch));
        lemma_owner_takes(n, workers, batch);
        lemma_rounds_cover(n, owner.0, workers, batch, owner.1, rounds);
        assert(taken.contains(owner));
        assert(taken =~= set![owner]);
    } else {
        assert(taken =~= Set::<(int, int)>::empty());
    }
}

/// A worker's batches follow one another: a later round starts after the
/// end of every earlier one.
pub proof fn lemma_rounds_ascend(worker: int, workers: int, batch: int, earlier: int, later: int)
    requires
        workers >= 1,
        batch >= 0,
        earlier < later,
    ensures
        batch_start(worker, workers, batch, earlier) + batch <= batch_start(
            worker,
            workers,
            batch,
            later,
        ),
{
    assert(batch * (earlier * workers + worker) + batch <= batch * (later * workers + worker))
        by (nonlinear_arith)
        requires
            workers >= 1,
            batch >= 0,
            earlier + 1 <= later,
    ;
}

/// The batch that worker `worker_index` of `worker_count` takes in round
/// `batch_number`, as the pair of its first candidate and the one after its
/// last. There is none where the batch would reach past the largest `u64`.
pub fn partition(worker_index: usize, worker_count: usize, batch_size: usize, batch_number: u64) -> (range:
    Option<(u64, u64)>)
    ensures
        match range {
            Some((first, end)) => {
                &&& first == batch_start(
                    worker_index as int,
                    worker_count as int,
                    batch_size as int,
                    batch_number as int,
                )
                &&& end == first + batch_size
            },
            None => batch_start(
                worker_index as int,
                worker_count as int,
                batch_size as int,
                batch_number as int,
            ) + batch_size > u64::MAX,
        },
{
    let batch: u64 = batch_size as u64;
    if batch == 0 {
        assert(batch_size * (batch_number * worker_count + worker_index) == 0)
            by (nonlinear_arith)
            requires
                batch_size == 0,
        ;
        return Some((1, 1));
    }
    let ghost index = batch_number * worker_count + worker_index;
    let ghost start = batch_start(
        worker_index as int,
        worker_count as int,
        batch_size as int,
        batch_number as int,
    );
    assert(start == batch * index + 1);
    assert(index >= 0) by (nonlinear_arith)
        requires
            index == batch_number * worker_count + worker_index,
    ;
    proof {
        lemma_product_order(index, 1, batch as int);
        assert(batch * index == index * batch) by (nonlinear_arith);
    }
    let scaled: u64 = match batch_number.checked_mul(worker_count as u64) {
        Some(v) => v,
        None => {
            return None;
        },
    };
    let slot: u64 = match scaled.checked_add(worker_index as u64) {
        Some(v) => v,
        None => {
            return None;
        },
    };
    let before: u64 = match batch.checked_mul(slot) {
        Some(v) => v,
        None => {
            return None;
        },
    };
    let first: u64 = match before.checked_add(1) {
        Some(v) => v,
        None => {
            return None;
        },
    };
    match first.checked_add(batch) {
        Some(end) => Some((first, end)),
        None => None,
    }
}

} // verus!
