//! What a search comes to once every worker has ended.
use vstd::prelude::*;
use crate::search::internal::InternalCrackData;
use crate::search::worker::LocalOutcome;

verus! {

/// What one worker hands back when it is joined.
pub struct WorkerReport {
    /// How the worker ended.
    pub outcome: LocalOutcome,
    /// What the worker's buffer held at the end: after a match, the
    /// candidate that matched.
    pub candidate: String,
}

/// The verifier of one shard failed, so the search has no result.
#[derive(Clone, Copy, Debug, PartialEq, Eq, Structural)]
pub struct SearchError {
    /// The first shard, in the order of the reports, whose verifier failed.
    pub shard: usize,
}

/// The outcome at `i` is a match.
pub open spec fn is_match(outcomes: Seq<LocalOutcome>, i: int) -> bool {
    outcomes[i] is Matched
}

/// The outcome at `i` is the match of the worker that raised the stop signal.
pub open spec fn is_first_match(outcomes: Seq<LocalOutcome>, i: int) -> bool {
    outcomes[i] == (LocalOutcome::Matched { first: true })
}

/// The outcome at `i` is a failure of the verifier.
pub open spec fn is_failure(outcomes: Seq<LocalOutcome>, i: int) -> bool {
    outcomes[i] == LocalOutcome::Failed
}

/// `i` is the shard whose match the search reports: the one that raised the
/// stop signal, or, where no match did, the last match in the order of the
/// reports.
pub open spec fn is_winner(outcomes: Seq<LocalOutcome>, i: int) -> bool {
    &&& 0 <= i < outcomes.len()
    &&& is_match(outcomes, i)
    &&& if is_first_match(outcomes, i) {
        forall|j: int| 0 <= j < i ==> !is_first_match(outcomes, j)
    } else {
        &&& forall|j: int| 0 <= j < outcomes.len() ==> !is_first_match(outcomes, j)
        &&& forall|j: int| i < j < outcomes.len() ==> !is_match(outcomes, j)
    }
}

/// What the outcomes of all workers come to: the first failure if there is
/// one, else the winning match if there is a match, else nothing.
pub open spec fn resolution(outcomes: Seq<LocalOutcome>, res: Result<Option<usize>, SearchError>)
    -> bool {
    match res {
        Err(e) => {
            &&& 0 <= e.shard < outcomes.len()
            &&& is_failure(outcomes, e.shard as int)
            &&& forall|j: int| 0 <= j < e.shard ==> !is_failure(outcomes, j)
        },
        Ok(Some(i)) => {
            &&& forall|j: int| 0 <= j < outcomes.len() ==> !is_failure(outcomes, j)
            &&& is_winner(outcomes, i as int)
        },
        Ok(None) => {
            &&& forall|j: int| 0 <= j < outcomes.len() ==> !is_failure(outcomes, j)
            &&& forall|j: int| 0 <= j < outcomes.len() ==> !is_match(outcomes, j)
        },
    }
}

/// The outcomes of a sequence of reports.
pub open spec fn outcomes_of(reports: Seq<WorkerReport>) -> Seq<LocalOutcome> {
    Seq::new(reports.len(), |i: int| reports[i].outcome)
}

/// The outcomes of all workers have one resolution only.
pub proof fn lemma_resolution_is_unique(
    outcomes: Seq<LocalOutcome>,
    a: Result<Option<usize>, SearchError>,
    b: Result<Option<usize>, SearchError>,
)
    requires
        resolution(outcomes, a),
        resolution(outcomes, b),
    ensures
        a == b,
{
    match (a, b) {
        (Err(x), Err(y)) => {
            assert(x.shard == y.shard);
        },
        (Ok(Some(i)), Ok(Some(j))) => {
            assert(i == j);
        },
        _ => {},
    }
}

/// Where exactly one worker raised the stop signal with a match, and no
/// verifier failed, that worker's match is the one reported, whatever the
/// other workers found and in whatever order they were joined.
pub proof fn lemma_first_match_wins(
    outcomes: Seq<LocalOutcome>,
    res: Result<Option<usize>, SearchError>,
    first: int,
)
    requires
        resolution(outcomes, res),
        0 <= first < outcomes.len(),
        is_first_match(outcomes, first),
        forall|j: int| 0 <= j < outcomes.len() && j != first ==> !is_first_match(outcomes, j),
        forall|j: int| 0 <= j < outcomes.len() ==> !is_failure(outcomes, j),
    ensures
        res == Ok::<Option<usize>, SearchError>(Some(first as usize)),
{
    match res {
        Ok(Some(i)) => {
            assert(i == first);
        },
        Ok(None) => {
            assert(is_match(outcomes, first));
        },
        Err(_) => {},
    }
}

/// Folds the workers' reports, given in the order of their shards, into the
/// shard whose match is reported.
pub fn resolve(reports: &Vec<WorkerReport>) -> (res: Result<Option<usize>, SearchError>)
    ensures
        resolution(outcomes_of(reports@), res),
{
    let ghost outcomes = outcomes_of(reports@);
    let mut first: Option<usize> = None;
    let mut last: Option<usize> = None;
    let mut i: usize = 0;
    while i < reports.len()
        invariant
            i <= reports.len(),
            outcomes == outcomes_of(reports@),
            forall|j: int| 0 <= j < i ==> !is_failure(outcomes, j),
            match first {
                Some(f) => f < i && is_first_match(outcomes, f as int) && forall|j: int|
                    0 <= j < f ==> !is_first_match(outcomes, j),
                None => forall|j: int| 0 <= j < i ==> !is_first_match(outcomes, j),
            },
            match last {
                Some(l) => l < i && is_match(outcomes, l as int) && forall|j: int|
                    l < j < i ==> !is_match(outcomes, j),
                None => forall|j: int| 0 <= j < i ==> !is_match(outcomes, j),
            },
        decreases reports.len() - i,
    {
        assert(outcomes[i as int] == reports@[i as int].outcome);
        match reports[i].outcome {
            LocalOutcome::Failed => {
                return Err(SearchError { shard: i });
            },
            LocalOutcome::Matched { first: claimed } => {
                if claimed && first.is_none() {
                    first = Some(i);
                }
                last = Some(i);
            },
            _ => {},
        }
        i = i + 1;
    }
    match first {
        Some(f) => Ok(Some(f)),
        None => Ok(last),
    }
}

/// What a search has come to.
#[derive(Debug)]
pub struct CrackResult {
    solution: Option<String>,
    shard: Option<usize>,
    thread_count: usize,
    combinations_total: usize,
    combinations_per_thread: usize,
    duration_in_micros: u64,
}

/// What a result holds.
pub struct CrackResultModel {
    pub solution: Option<Seq<char>>,
    pub shard: Option<usize>,
    pub thread_count: nat,
    pub combinations_total: nat,
    pub combinations_per_thread: nat,
    pub duration_in_micros: nat,
}

impl View for CrackResult {
    type V = CrackResultModel;

    closed spec fn view(&self) -> CrackResultModel {
        CrackResultModel {
            solution: match self.solution {
                Some(s) => Some(s@),
                None => None,
            },
            shard: self.shard,
            thread_count: self.thread_count as nat,
            combinations_total: self.combinations_total as nat,
            combinations_per_thread: self.combinations_per_thread as nat,
            duration_in_micros: self.duration_in_micros as nat,
        }
    }
}

/// The result of a search with plan `cp` that took `duration_in_micros`
/// and found `found`, if anything.
pub open spec fn result_of(
    cp: InternalCrackData,
    duration_in_micros: u64,
    found: Option<(Seq<char>, usize)>,
) -> CrackResultModel {
    CrackResultModel {
        solution: match found {
            Some(f) => Some(f.0),
            None => None,
        },
        shard: match found {
            Some(f) => Some(f.1),
            None => None,
        },
        thread_count: cp.threads(),
        combinations_total: cp.param().total(),
        combinations_per_thread: cp.param().total() / cp.threads(),
        duration_in_micros: duration_in_micros as nat,
    }
}

impl CrackResult {
    fn new(cp: InternalCrackData, duration_in_micros: u64, found: Option<(String, usize)>) -> (res:
        Self)
        requires
            cp.wf(),
        ensures
            res@ == result_of(
                cp,
                duration_in_micros,
                match found {
                    Some(f) => Some((f.0@, f.1)),
                    None => None,
                },
            ),
    {
        proof {
            cp.lemma_threads_in_range();
        }
        let (solution, shard) = match found {
            Some(f) => (Some(f.0), Some(f.1)),
            None => (None, None),
        };
        Self {
            solution,
            shard,
            thread_count: cp.thread_count(),
            combinations_total: cp.total_combos(),
            combinations_per_thread: cp.combos_per_thread(),
            duration_in_micros,
        }
    }

    /// The result of a search that went through every candidate in vain.
    pub fn new_failure(cp: InternalCrackData, duration_in_micros: u64) -> (res: Self)
        requires
            cp.wf(),
        ensures
            res@ == result_of(cp, duration_in_micros, None),
    {
        Self::new(cp, duration_in_micros, None)
    }

    /// The result of a search in which shard `shard` found `solution`.
    pub fn new_success(
        cp: InternalCrackData,
        duration_in_micros: u64,
        solution: String,
        shard: usize,
    ) -> (res: Self)
        requires
            cp.wf(),
        ensures
            res@ == result_of(cp, duration_in_micros, Some((solution@, shard))),
    {
        Self::new(cp, duration_in_micros, Some((solution, shard)))
    }

    /// Makes the result of a search out of the reports of its workers, or
    /// says which shard's verifier failed. Every worker of the plan has ended
    /// and reported; the reports come in the order of the shards.
    pub fn assemble(cp: InternalCrackData, duration_in_micros: u64, reports: &Vec<WorkerReport>)
        -> (res: Result<Self, SearchError>)
        requires
            cp.wf(),
            reports@.len() == cp.threads(),
        ensures
            resolution(
                outcomes_of(reports@),
                match res {
                    Ok(r) => Ok(r@.shard),
                    Err(e) => Err(e),
                },
            ),
            res is Ok ==> res->Ok_0@ == result_of(
                cp,
                duration_in_micros,
                match res->Ok_0@.shard {
                    Some(i) => Some((reports@[i as int].candidate@, i)),
                    None => None,
                },
            ),
    {
        match resolve(reports) {
            Err(e) => Err(e),
            Ok(None) => Ok(Self::new_failure(cp, duration_in_micros)),
            Ok(Some(i)) => {
                let solution = reports[i].candidate.clone();
                Ok(Self::new_success(cp, duration_in_micros, solution, i))
            },
        }
    }

    /// Whether the search found nothing.
    pub fn is_failure(&self) -> (r: bool)
        ensures
            r == (self@.solution is None),
    {
        self.solution.is_none()
    }

    /// Whether the search found a candidate.
    pub fn is_success(&self) -> (r: bool)
        ensures
            r == (self@.solution is Some),
    {
        self.solution.is_some()
    }

    /// The candidate that the search found.
    pub fn solution(&self) -> (r: &Option<String>)
        ensures
            r is Some <==> self@.solution is Some,
            r is Some ==> r->Some_0@ == self@.solution->Some_0,
    {
        &self.solution
    }

    /// The shard that found the candidate.
    pub fn shard(&self) -> (r: Option<usize>)
        ensures
            r == self@.shard,
    {
        self.shard
    }

    /// Number of workers of the search.
    pub fn thread_count(&self) -> (r: usize)
        ensures
            r == self@.thread_count,
    {
        self.thread_count
    }

    /// Number of candidates of the search.
    pub fn combinations_total(&self) -> (r: usize)
        ensures
            r == self@.combinations_total,
    {
        self.combinations_total
    }

    /// Each worker's whole share of the candidates.
    pub fn combinations_per_thread(&self) -> (r: usize)
        ensures
            r == self@.combinations_per_thread,
    {
        self.combinations_per_thread
    }

    /// The whole seconds that the search took.
    pub fn duration_in_seconds(&self) -> (r: u64)
        ensures
            r == self@.duration_in_micros / 1_000_000,
    {
        self.duration_in_micros / 1_000_000
    }

    /// The time that the search took, in microseconds.
    pub fn duration_in_micros(&self) -> (r: u64)
        ensures
            r == self@.duration_in_micros,
    {
        self.duration_in_micros
    }
}

} // verus!
