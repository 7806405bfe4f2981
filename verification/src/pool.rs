//! The size of the worker pool.

use vstd::prelude::*;

verus! {

/// The number of workers for a machine on which `detected` processors were
/// found: one for each, and one where none was found.
pub open spec fn workers_for(detected: nat) -> nat {
    if detected == 0 {
        1
    } else {
        detected
    }
}

/// How many candidates fall to `worker`, where `taker[i]` is the worker that
/// takes candidate `i` off the queue.
pub open spec fn share(taker: Seq<nat>, worker: nat) -> nat
    decreases taker.len(),
{
    if taker.len() == 0 {
        0
    } else if taker.last() == worker {
        share(taker.drop_last(), worker) + 1
    } else {
        share(taker.drop_last(), worker)
    }
}

/// How many candidates fall to the first `workers` workers together.
pub open spec fn shares(taker: Seq<nat>, workers: nat) -> nat
    decreases workers,
{
    if workers == 0 {
        0
    } else {
        shares(taker, (workers - 1) as nat) + share(taker, (workers - 1) as nat)
    }
}

/// However the queue deals the candidates out to the workers of a pool, the
/// workers' shares add up to the number of candidates: none is left out and
/// none is taken twice.
pub proof fn lemma_shares_cover_candidates(taker: Seq<nat>, workers: nat)
    requires
        forall|i: int| 0 <= i < taker.len() ==> taker[i] < workers,
    ensures
        shares(taker, workers) == taker.len(),
    decreases taker.len(),
{
    if taker.len() == 0 {
        lemma_shares_of_one_more(taker, 0, workers);
    } else {
        let earlier = taker.drop_last();
        assert forall|i: int| 0 <= i < earlier.len() implies earlier[i] < workers by {
            assert(earlier[i] == taker[i]);
        }
        lemma_shares_cover_candidates(earlier, workers);
        lemma_shares_of_one_more(earlier, taker.last(), workers);
        assert(earlier.push(taker.last()) == taker);
    }
}

/// One more candidate adds one to the shares of the workers among whom its
/// taker is, and nothing to the shares of the others. No candidates, no
/// shares.
proof fn lemma_shares_of_one_more(taker: Seq<nat>, next: nat, workers: nat)
    ensures
        shares(taker.push(next), workers) == shares(taker, workers) + if next < workers {
            1nat
        } else {
            0nat
        },
        taker.len() == 0 ==> shares(taker, workers) == 0,
    decreases workers,
{
    if workers > 0 {
        lemma_shares_of_one_more(taker, next, (workers - 1) as nat);
        assert(taker.push(next).drop_last() == taker);
    }
}

/// Asks `num_cpus::get` how many logical processors this process may use.
/// The answer depends on the machine, on the processor affinity of the
/// process and on its cgroup quota, so nothing is claimed of it: `pool_size`
/// sets the floor.
#[verifier::external_body]
fn detected_processors() -> usize {
    num_cpus::get()
}

/// The number of workers to start where `detected` processors were found.
pub fn pool_size(detected: usize) -> (workers: usize)
    ensures
        workers == workers_for(detected as nat),
        workers >= 1,
{
    if detected == 0 {
        1
    } else {
        detected
    }
}

/// The number of workers to start on this machine: one for each processor
/// that the process may use, and never fewer than one.
pub fn worker_count() -> (workers: usize)
    ensures
        workers >= 1,
{
    pool_size(detected_processors())
}

} // verus!
