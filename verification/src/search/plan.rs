//! The work plan: how many shards a search is split into, and which
//! candidates each shard holds.
use vstd::prelude::*;
use vstd::arithmetic::div_mod::{lemma_fundamental_div_mod, lemma_fundamental_div_mod_converse};

verus! {

/// Number of workers for a machine that offers `available_parallelism`
/// hardware threads: one thread is kept back, and one worker is the least.
pub open spec fn reserved_parallelism(available_parallelism: nat) -> nat {
    if available_parallelism > 1 {
        (available_parallelism - 1) as nat
    } else {
        1
    }
}

/// Number of shards for `space_size` candidates and `workers` workers at
/// hand: one shard for each worker, or a single shard where that would be
/// more shards than candidates.
pub open spec fn clamped_to_space(space_size: nat, workers: nat) -> nat {
    if workers > space_size {
        1
    } else {
        workers
    }
}

/// Number of shards for `space_size` candidates on a machine that offers
/// `available_parallelism` hardware threads.
pub open spec fn planned_shards(space_size: nat, available_parallelism: nat) -> nat {
    clamped_to_space(space_size, reserved_parallelism(available_parallelism))
}

/// The `round`-th candidate of shard `shard` among `shards`, by its place
/// among all candidates.
pub open spec fn shard_visit(shard: nat, shards: nat, round: nat) -> nat {
    shard + round * shards
}

/// `num_cpus::get` reports how many logical processors this process may
/// run on. The number depends on the machine, so nothing is claimed of it.
#[verifier::external_body]
fn available_cpus() -> (cpus: usize) {
    num_cpus::get()
}

/// Number of workers for `cpus` hardware threads.
pub fn thread_count_for(cpus: usize) -> (count: usize)
    ensures
        count == reserved_parallelism(cpus as nat),
        count >= 1,
{
    if cpus > 1 {
        cpus - 1
    } else {
        1
    }
}

/// Number of workers for the machine that the search runs on.
pub fn get_thread_count() -> (count: usize)
    ensures
        count >= 1,
        exists|cpus: nat| count == #[trigger] reserved_parallelism(cpus),
{
    let cpus = available_cpus();
    thread_count_for(cpus)
}

/// Number of shards for `space_size` candidates and `workers` workers.
pub fn shards_for(space_size: usize, workers: usize) -> (shard_count: usize)
    ensures
        shard_count == clamped_to_space(space_size as nat, workers as nat),
{
    if workers > space_size {
        1
    } else {
        workers
    }
}

/// Decides into how many shards a search over `space_size` candidates is
/// split on a machine that offers `available_parallelism` hardware threads.
pub fn plan(space_size: usize, available_parallelism: usize) -> (shard_count: usize)
    ensures
        shard_count == planned_shards(space_size as nat, available_parallelism as nat),
        shard_count >= 1,
        space_size >= 1 ==> shard_count <= space_size,
{
    shards_for(space_size, thread_count_for(available_parallelism))
}

/// The shards partition the candidates: every place below `total` is
/// visited by the shard of its residue, in the round of its quotient, and by
/// no other shard and in no other round.
pub proof fn lemma_shards_partition(total: nat, shards: nat)
    requires
        shards >= 1,
    ensures
        forall|x: nat|
            x < total ==> {
                &&& x % shards < shards
                &&& #[trigger] shard_visit(x % shards, shards, x / shards) == x
            },
        forall|shard: nat, round: nat|
            shard < shards && #[trigger] shard_visit(shard, shards, round) < total ==> {
                &&& shard == shard_visit(shard, shards, round) % shards
                &&& round == shard_visit(shard, shards, round) / shards
            },
{
    assert forall|x: nat| x < total implies {
        &&& x % shards < shards
        &&& #[trigger] shard_visit(x % shards, shards, x / shards) == x
    } by {
        lemma_fundamental_div_mod(x as int, shards as int);
        assert((x / shards) * shards == shards * (x / shards)) by (nonlinear_arith);
    }
    assert forall|shard: nat, round: nat|
        shard < shards && #[trigger] shard_visit(shard, shards, round) < total implies {
        &&& shard == shard_visit(shard, shards, round) % shards
        &&& round == shard_visit(shard, shards, round) / shards
    } by {
        let x = shard_visit(shard, shards, round);
        assert(round * shards == shards * round) by (nonlinear_arith);
        lemma_fundamental_div_mod_converse(x as int, shards as int, round as int, shard as int);
    }
}

} // verus!
