//! The parameters of a search together with its work plan.
use vstd::prelude::*;
use crate::search::param_interface::CrackParam;
use crate::search::plan::{
    clamped_to_space,
    get_thread_count,
    planned_shards,
    reserved_parallelism,
    shards_for,
    thread_count_for,
};
use crate::search::worker::{Phase, Worker, STOP_CHECK_INTERVAL};
use crate::shortlex::{first_of_length, nth_successor};
use crate::symbols::lemma_space_size_lower_bound;

verus! {

/// A search as it is run: the parameters, the number of workers, and each
/// worker's share of the candidates.
#[derive(Debug)]
pub struct InternalCrackData {
    crack_param: CrackParam,
    thread_count: usize,
    total_combos: usize,
    combos_per_thread: usize,
}

impl InternalCrackData {
    /// The parameters that the plan was made for.
    pub closed spec fn param(&self) -> CrackParam {
        self.crack_param
    }

    /// Number of workers, as a number.
    pub closed spec fn threads(&self) -> nat {
        self.thread_count as nat
    }

    /// Each worker's whole share of the candidates, as a number.
    pub closed spec fn share(&self) -> nat {
        self.combos_per_thread as nat
    }

    /// The representation invariant: the plan holds at least one worker and
    /// no more workers than candidates, and the numbers it stores are the
    /// number of candidates and each worker's whole share of them.
    pub closed spec fn wf(&self) -> bool {
        &&& self.crack_param.wf()
        &&& 1 <= self.thread_count
        &&& self.thread_count <= self.total_combos
        &&& self.total_combos == self.crack_param.total()
        &&& self.combos_per_thread == self.total_combos / self.thread_count
    }

    /// Plans the search for `workers` workers at hand.
    fn planned(cp: CrackParam, workers: usize) -> (res: Self)
        requires
            cp.wf(),
            workers >= 1,
        ensures
            res.wf(),
            res.param() == cp,
            res.threads() == clamped_to_space(cp.total(), workers as nat),
    {
        let total_combos = cp.total_combos();
        proof {
            lemma_space_size_lower_bound(cp@.charset.len(), cp@.min_length, cp@.max_length);
        }
        let thread_count = shards_for(total_combos, workers);
        let combos_per_thread = total_combos / thread_count;
        Self { crack_param: cp, thread_count, total_combos, combos_per_thread }
    }

    /// Plans the search for a machine that offers `available_parallelism`
    /// hardware threads.
    pub fn with_parallelism(cp: CrackParam, available_parallelism: usize) -> (res: Self)
        requires
            cp.wf(),
        ensures
            res.wf(),
            res.param() == cp,
            res.threads() == planned_shards(cp.total(), available_parallelism as nat),
    {
        Self::planned(cp, thread_count_for(available_parallelism))
    }

    /// Plans the search for the machine that it runs on, whatever number of
    /// hardware threads that machine offers.
    pub fn from_crack_param(cp: CrackParam) -> (res: Self)
        requires
            cp.wf(),
        ensures
            res.wf(),
            res.param() == cp,
            exists|cpus: nat| res.threads() == #[trigger] planned_shards(cp.total(), cpus),
    {
        let workers = get_thread_count();
        let ghost cpus = choose|cpus: nat| workers == #[trigger] reserved_parallelism(cpus);
        let res = Self::planned(cp, workers);
        assert(res.threads() == planned_shards(cp.total(), cpus));
        res
    }

    /// Planning is a function of its inputs: two plans made for the same
    /// alphabet and lengths and for the same parallelism hold the same number
    /// of workers and give each worker the same share.
    pub proof fn lemma_same_inputs_same_plan(a: Self, b: Self, available_parallelism: nat)
        requires
            a.wf(),
            b.wf(),
            a.param()@.charset == b.param()@.charset,
            a.param()@.min_length == b.param()@.min_length,
            a.param()@.max_length == b.param()@.max_length,
            a.threads() == planned_shards(a.param().total(), available_parallelism),
            b.threads() == planned_shards(b.param().total(), available_parallelism),
        ensures
            a.threads() == b.threads(),
            a.share() == b.share(),
    {
    }

    /// A plan holds at least one worker, and no more workers than
    /// candidates; each worker's share is the whole part of the candidates
    /// divided by the workers.
    pub proof fn lemma_threads_in_range(&self)
        requires
            self.wf(),
        ensures
            1 <= self.threads() <= self.param().total(),
            self.share() == self.param().total() / self.threads(),
    {
    }

    /// The parameters of the search.
    pub fn crack_param(&self) -> (r: &CrackParam)
        ensures
            *r == self.param(),
    {
        &self.crack_param
    }

    /// Number of workers.
    pub fn thread_count(&self) -> (r: usize)
        ensures
            r == self.threads(),
    {
        self.thread_count
    }

    /// Number of candidates of the search.
    pub fn total_combos(&self) -> (r: usize)
        requires
            self.wf(),
        ensures
            r == self.param().total(),
    {
        self.total_combos
    }

    /// Each worker's whole share of the candidates.
    pub fn combos_per_thread(&self) -> (r: usize)
        ensures
            r == self.share(),
    {
        self.combos_per_thread
    }

    /// Makes the worker of shard `shard_id`, standing on its first candidate.
    pub fn worker<'a>(&'a self, shard_id: usize) -> (res: Worker<'a>)
        requires
            self.wf(),
            shard_id < self.threads(),
        ensures
            res.wf(),
            res.alphabet() == self.param()@.charset,
            res.lengths() == (self.param()@.min_length, self.param()@.max_length),
            res.shard() == shard_id,
            res.shards() == self.threads(),
            res@.phase == Phase::Ready,
            res@.countdown == STOP_CHECK_INTERVAL,
            res@.visited == 0,
            res@.candidate == nth_successor(
                first_of_length(self.param()@.min_length),
                self.param()@.charset.len(),
                shard_id as nat,
            ),
    {
        let made = Worker::new(
            self.crack_param.charset(),
            self.crack_param.min_length(),
            self.crack_param.max_length(),
            shard_id,
            self.thread_count,
        );
        made.unwrap()
    }
}

} // verus!
