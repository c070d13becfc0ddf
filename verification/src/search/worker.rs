//! One worker of a search, as a state machine.
//!
//! The worker owns a candidate counter and decides what happens next; the
//! caller performs each action (reading or raising the shared stop signal,
//! asking the verifier) and reports back what came of it.
use vstd::prelude::*;
use crate::indices::CandidateCounter;
use crate::symbols::{ConfigurationError, space_size, combination_count, refusal};
use crate::shortlex::{
    first_of_length,
    lemma_first_of_length_to_end,
    lemma_nth_successor_index,
    nth_successor,
    shortlex_index,
    spelled,
};

verus! {

/// Number of candidates that a worker verifies between two looks at the stop
/// signal.
pub const STOP_CHECK_INTERVAL: usize = 100;

/// How a worker's part of the search ended.
#[derive(Clone, Copy, Debug, PartialEq, Eq, Structural)]
pub enum LocalOutcome {
    /// The verifier accepted the worker's current candidate; `first` tells
    /// whether this worker was the one that raised the stop signal.
    Matched { first: bool },
    /// Another worker had raised the stop signal.
    Stopped,
    /// The worker has been through all of its candidates.
    Exhausted,
    /// The verifier failed.
    Failed,
}

/// Where a worker stands between two events.
#[derive(Clone, Copy, Debug, PartialEq, Eq, Structural)]
pub enum Phase {
    /// Standing on a candidate, nothing asked yet.
    Ready,
    /// The stop signal is being read.
    AwaitingFlag,
    /// The verifier is looking at the current candidate.
    AwaitingVerdict,
    /// The stop signal is being raised after a match.
    ClaimingMatch,
    /// The stop signal is being raised after a failure of the verifier.
    ClaimingFailure,
    /// The worker is done.
    Finished(LocalOutcome),
}

/// What the caller reports to a worker.
#[derive(Clone, Copy, Debug, PartialEq, Eq, Structural)]
pub enum Event {
    /// The worker may begin.
    Start,
    /// The stop signal was read, with this value.
    StopFlag(bool),
    /// The verifier answered: `true` for a match.
    Verdict(bool),
    /// The verifier could not answer.
    VerifierFailed,
    /// The stop signal was raised; `true` if it had not been raised before.
    Claimed(bool),
}

/// What a worker asks of the caller.
#[derive(Clone, Copy, Debug, PartialEq, Eq, Structural)]
pub enum Action {
    /// Read the stop signal and report `Event::StopFlag`.
    CheckStop,
    /// Hand the candidate in the buffer to the verifier and report
    /// `Event::Verdict` or `Event::VerifierFailed`.
    Verify,
    /// Raise the stop signal and report `Event::Claimed`.
    RaiseStop,
    /// Stop: the worker has ended with this outcome.
    Finish(LocalOutcome),
}

/// What a worker is, as far as its behaviour goes.
pub struct WorkerModel {
    pub phase: Phase,
    /// Symbol indices of the current candidate; empty once exhausted.
    pub candidate: Seq<nat>,
    /// Candidates left to verify before the next look at the stop signal.
    pub countdown: nat,
    /// Strides taken so far.
    pub visited: nat,
}

/// The worker turns to the verifier with its current candidate.
pub open spec fn verifying(m: WorkerModel) -> (WorkerModel, Action) {
    (
        WorkerModel {
            phase: Phase::AwaitingVerdict,
            candidate: m.candidate,
            countdown: (m.countdown - 1) as nat,
            visited: m.visited,
        },
        Action::Verify,
    )
}

/// The worker takes up the candidate it stands on: a look at the stop signal
/// when the countdown has run out, the verifier otherwise.
pub open spec fn beginning(m: WorkerModel) -> (WorkerModel, Action) {
    if m.countdown == 0 {
        (
            WorkerModel {
                phase: Phase::AwaitingFlag,
                candidate: m.candidate,
                countdown: STOP_CHECK_INTERVAL as nat,
                visited: m.visited,
            },
            Action::CheckStop,
        )
    } else {
        verifying(m)
    }
}

/// The worker ends.
pub open spec fn finishing(m: WorkerModel, outcome: LocalOutcome) -> (WorkerModel, Action) {
    (
        WorkerModel {
            phase: Phase::Finished(outcome),
            candidate: if outcome == LocalOutcome::Exhausted {
                Seq::<nat>::empty()
            } else {
                m.candidate
            },
            countdown: m.countdown,
            visited: m.visited,
        },
        Action::Finish(outcome),
    )
}

/// The worker waits for the stop signal to be raised.
pub open spec fn claiming(m: WorkerModel, phase: Phase) -> (WorkerModel, Action) {
    (
        WorkerModel {
            phase,
            candidate: m.candidate,
            countdown: m.countdown,
            visited: m.visited,
        },
        Action::RaiseStop,
    )
}

/// The worker asks again for what it is waiting on; one that has not begun
/// yet begins.
pub open spec fn repeating(m: WorkerModel) -> (WorkerModel, Action) {
    match m.phase {
        Phase::Ready => beginning(m),
        Phase::AwaitingFlag => (m, Action::CheckStop),
        Phase::AwaitingVerdict => (m, Action::Verify),
        Phase::ClaimingMatch => (m, Action::RaiseStop),
        Phase::ClaimingFailure => (m, Action::RaiseStop),
        Phase::Finished(outcome) => (m, Action::Finish(outcome)),
    }
}

/// The transition function of a worker over an alphabet of `k` symbols that
/// strides by `stride` through the first `limit` strings: the state that
/// follows `m` on `event`, and the action that the worker asks for.
///
/// An event that the phase is not waiting for changes nothing, and the
/// pending action is asked for again; a worker that has not begun begins on
/// any event.
pub open spec fn react(m: WorkerModel, event: Event, k: nat, stride: nat, limit: nat) -> (
    WorkerModel,
    Action,
) {
    match (m.phase, event) {
        (Phase::AwaitingFlag, Event::StopFlag(true)) => finishing(m, LocalOutcome::Stopped),
        (Phase::AwaitingFlag, Event::StopFlag(false)) => verifying(m),
        (Phase::AwaitingVerdict, Event::Verdict(true)) => claiming(m, Phase::ClaimingMatch),
        (Phase::AwaitingVerdict, Event::VerifierFailed) => claiming(m, Phase::ClaimingFailure),
        (Phase::AwaitingVerdict, Event::Verdict(false)) => {
            if shortlex_index(m.candidate, k) + stride < limit {
                beginning(
                    WorkerModel {
                        phase: Phase::Ready,
                        candidate: nth_successor(m.candidate, k, stride),
                        countdown: m.countdown,
                        visited: m.visited + 1,
                    },
                )
            } else {
                finishing(m, LocalOutcome::Exhausted)
            }
        },
        (Phase::ClaimingMatch, Event::Claimed(won)) => finishing(
            m,
            LocalOutcome::Matched { first: won },
        ),
        (Phase::ClaimingFailure, Event::Claimed(_)) => finishing(m, LocalOutcome::Failed),
        _ => repeating(m),
    }
}

/// One worker of a search: the cursor of its shard and what it is waiting on.
pub struct Worker<'a> {
    counter: CandidateCounter<'a>,
    min_length: u8,
    shard_id: usize,
    stride: usize,
    countdown: usize,
    visited: usize,
    phase: Phase,
}

impl<'a> View for Worker<'a> {
    type V = WorkerModel;

    closed spec fn view(&self) -> WorkerModel {
        WorkerModel {
            phase: self.phase,
            candidate: if self.phase == Phase::Finished(LocalOutcome::Exhausted) {
                Seq::<nat>::empty()
            } else {
                self.counter@
            },
            countdown: self.countdown as nat,
            visited: self.visited as nat,
        }
    }
}

impl<'a> Worker<'a> {
    /// The alphabet of the search.
    pub closed spec fn alphabet(&self) -> Seq<char> {
        self.counter.alphabet()
    }

    /// The least and the greatest length of a candidate.
    pub closed spec fn lengths(&self) -> (nat, nat) {
        (self.min_length as nat, self.counter.capacity())
    }

    /// The shard that the worker walks.
    pub closed spec fn shard(&self) -> nat {
        self.shard_id as nat
    }

    /// The number of shards, which is the worker's stride.
    pub closed spec fn shards(&self) -> nat {
        self.stride as nat
    }

    /// Number of strings that are no longer than the longest candidate.
    pub open spec fn limit(&self) -> nat {
        space_size(self.alphabet().len(), 0, self.lengths().1)
    }

    /// Number of candidates of the whole search.
    pub open spec fn total(&self) -> nat {
        space_size(self.alphabet().len(), self.lengths().0, self.lengths().1)
    }

    /// Position of the worker's candidate among the candidates of the search,
    /// as its shard and the strides taken give it.
    pub open spec fn offset(&self) -> nat {
        self.shard() + self@.visited * self.shards()
    }

    /// The representation invariant. It says in particular that a worker
    /// which is not exhausted stands on the candidate at `offset()`.
    pub closed spec fn wf(&self) -> bool {
        &&& self.counter.wf()
        &&& self.min_length <= self.counter.capacity()
        &&& self.shard_id < self.stride
        &&& self.countdown <= STOP_CHECK_INTERVAL
        &&& (self.phase == Phase::AwaitingVerdict ==> self.countdown < STOP_CHECK_INTERVAL)
        &&& (self.phase == Phase::AwaitingFlag ==> self.countdown == STOP_CHECK_INTERVAL)
        &&& self.total() <= usize::MAX
        &&& (self.phase != Phase::Finished(LocalOutcome::Exhausted) ==> self.counter.index()
            == shortlex_index(first_of_length(self.min_length as nat), self.alphabet().len())
            + self.offset())
    }

    /// A worker that is not exhausted stands on a candidate of its own shard:
    /// the one at `offset()`, counted from the first candidate of the search.
    pub proof fn lemma_on_shard(&self)
        requires
            self.wf(),
            self@.phase != Phase::Finished(LocalOutcome::Exhausted),
        ensures
            self.shard() < self.shards(),
            self.offset() < self.total(),
            self.offset() % self.shards() == self.shard(),
            shortlex_index(self@.candidate, self.alphabet().len()) == shortlex_index(
                first_of_length(self.lengths().0),
                self.alphabet().len(),
            ) + self.offset(),
    {
        self.counter.lemma_wf();
        lemma_first_of_length_to_end(self.alphabet().len(), self.lengths().0, self.lengths().1);
        vstd::arithmetic::div_mod::lemma_mod_multiples_vanish(
            self.visited as int,
            self.shard_id as int,
            self.stride as int,
        );
        vstd::arithmetic::div_mod::lemma_small_mod(self.shard_id as nat, self.stride as nat);
        assert(self.visited * self.stride == self.stride * self.visited) by (nonlinear_arith);
    }

    /// A worker whose candidate did not match goes on exactly when its shard
    /// holds another candidate, and then stands on that one; otherwise it is
    /// exhausted. So a worker that is left to run visits every candidate of
    /// its shard, each once and in rising order, and no other.
    pub proof fn lemma_stride_stays_on_shard(&self)
        requires
            self.wf(),
            self@.phase == Phase::AwaitingVerdict,
        ensures
            ({
                let next = react(
                    self@,
                    Event::Verdict(false),
                    self.alphabet().len(),
                    self.shards(),
                    self.limit(),
                ).0;
                if self.offset() + self.shards() < self.total() {
                    &&& next.phase != Phase::Finished(LocalOutcome::Exhausted)
                    &&& next.visited == self@.visited + 1
                    &&& shortlex_index(next.candidate, self.alphabet().len()) == shortlex_index(
                        first_of_length(self.lengths().0),
                        self.alphabet().len(),
                    ) + self.offset() + self.shards()
                } else {
                    next.phase == Phase::Finished(LocalOutcome::Exhausted)
                }
            }),
    {
        self.lemma_on_shard();
        self.counter.lemma_wf();
        lemma_first_of_length_to_end(self.alphabet().len(), self.lengths().0, self.lengths().1);
        if self.offset() + self.shards() < self.total() {
            lemma_nth_successor_index(self@.candidate, self.alphabet().len(), self.shards());
        }
    }

    /// Makes the worker of shard `shard_id` out of `shard_count`, standing on
    /// the `shard_id`-th candidate of the search.
    ///
    /// A shard that holds no candidate at all gives a worker that has
    /// finished already.
    pub fn new(
        charset: &'a [char],
        min_length: u8,
        max_length: u8,
        shard_id: usize,
        shard_count: usize,
    ) -> (res: Result<Self, ConfigurationError>)
        requires
            shard_id < shard_count,
        ensures
            match refusal(charset@, min_length as nat, max_length as nat) {
                Some(e) => res is Err && res->Err_0 == e,
                None => res is Ok,
            },
            res is Ok ==> {
                let w = res->Ok_0;
                &&& w.wf()
                &&& w.alphabet() == charset@
                &&& w.lengths() == (min_length as nat, max_length as nat)
                &&& w.shard() == shard_id
                &&& w.shards() == shard_count
                &&& w@.countdown == STOP_CHECK_INTERVAL
                &&& w@.visited == 0
                &&& if shard_id < w.total() {
                    w@.phase == Phase::Ready && w@.candidate == nth_successor(
                        first_of_length(min_length as nat),
                        charset@.len(),
                        shard_id as nat,
                    )
                } else {
                    w@.phase == Phase::Finished(LocalOutcome::Exhausted) && w@.candidate
                        == Seq::<nat>::empty()
                }
            },
    {
        let mut counter = match CandidateCounter::seed(charset, min_length, max_length) {
            Ok(c) => c,
            Err(e) => {
                return Err(e);
            },
        };
        match combination_count(charset, min_length, max_length) {
            Ok(_) => {},
            Err(e) => {
                return Err(e);
            },
        }
        let phase = match counter.advance(shard_id) {
            Ok(()) => Phase::Ready,
            Err(_) => Phase::Finished(LocalOutcome::Exhausted),
        };
        assert(0 * shard_count == 0) by (nonlinear_arith);
        Ok(
            Worker {
                counter,
                min_length,
                shard_id,
                stride: shard_count,
                countdown: STOP_CHECK_INTERVAL,
                visited: 0,
                phase,
            },
        )
    }

    /// The phase that the worker is in.
    pub fn phase(&self) -> (p: Phase)
        ensures
            p == self@.phase,
    {
        self.phase
    }

    /// Number of strides that the worker has taken.
    pub fn visited(&self) -> (n: usize)
        ensures
            n == self@.visited,
    {
        self.visited
    }

    /// Takes `event` in and says what the caller is to do next.
    ///
    /// When the action is `Action::Verify`, `buffer` holds the candidate to
    /// hand to the verifier; otherwise the buffer is left as it was, so that
    /// after a match it still holds the candidate that matched.
    pub fn step(&mut self, event: Event, buffer: &mut String) -> (action: Action)
        requires
            old(self).wf(),
        ensures
            final(self).wf(),
            final(self).alphabet() == old(self).alphabet(),
            final(self).lengths() == old(self).lengths(),
            final(self).shard() == old(self).shard(),
            final(self).shards() == old(self).shards(),
            (final(self)@, action) == react(
                old(self)@,
                event,
                old(self).alphabet().len(),
                old(self).shards(),
                old(self).limit(),
            ),
            action == Action::Verify ==> final(buffer)@ == spelled(
                final(self)@.candidate,
                final(self).alphabet(),
            ),
            action != Action::Verify ==> final(buffer)@ == old(buffer)@,
    {
        match (self.phase, event) {
            (Phase::Ready, _) => self.begin(buffer),
            (Phase::AwaitingFlag, Event::StopFlag(true)) => self.finish(LocalOutcome::Stopped),
            (Phase::AwaitingFlag, Event::StopFlag(false)) => self.verify(buffer),
            (Phase::AwaitingVerdict, Event::Verdict(true)) => {
                self.phase = Phase::ClaimingMatch;
                Action::RaiseStop
            },
            (Phase::AwaitingVerdict, Event::VerifierFailed) => {
                self.phase = Phase::ClaimingFailure;
                Action::RaiseStop
            },
            (Phase::AwaitingVerdict, Event::Verdict(false)) => {
                proof {
                    self.counter.lemma_wf();
                    lemma_first_of_length_to_end(
                        self.alphabet().len(),
                        self.min_length as nat,
                        self.counter.capacity(),
                    );
                }
                match self.counter.advance(self.stride) {
                    Ok(()) => {
                        proof {
                            self.counter.lemma_wf();
                            assert((self.visited + 1) * self.stride == self.visited * self.stride
                                + self.stride) by (nonlinear_arith);
                            assert(self.visited + 1 <= (self.visited + 1) * self.stride)
                                by (nonlinear_arith)
                                requires
                                    self.stride >= 1,
                                    self.visited >= 0,
                            ;
                        }
                        self.visited = self.visited + 1;
                        self.phase = Phase::Ready;
                        self.begin(buffer)
                    },
                    Err(_) => {
                        self.phase = Phase::Finished(LocalOutcome::Exhausted);
                        Action::Finish(LocalOutcome::Exhausted)
                    },
                }
            },
            (Phase::ClaimingMatch, Event::Claimed(won)) => self.finish(
                LocalOutcome::Matched { first: won },
            ),
            (Phase::ClaimingFailure, Event::Claimed(_)) => self.finish(LocalOutcome::Failed),
            (Phase::AwaitingVerdict, _) => {
                self.counter.render(buffer);
                Action::Verify
            },
            _ => self.pending_action(),
        }
    }

    /// The action that a worker which has begun is waiting on.
    fn pending_action(&self) -> (action: Action)
        requires
            self.phase != Phase::Ready,
            self.phase != Phase::AwaitingVerdict,
        ensures
            (self@, action) == repeating(self@),
    {
        match self.phase {
            Phase::AwaitingFlag => Action::CheckStop,
            Phase::ClaimingMatch => Action::RaiseStop,
            Phase::ClaimingFailure => Action::RaiseStop,
            Phase::Finished(outcome) => Action::Finish(outcome),
            _ => Action::CheckStop,
        }
    }

    /// Ends the worker's part of the search.
    fn finish(&mut self, outcome: LocalOutcome) -> (action: Action)
        requires
            old(self).wf(),
            old(self).phase != Phase::Finished(LocalOutcome::Exhausted),
        ensures
            final(self).wf(),
            final(self).counter == old(self).counter,
            final(self).min_length == old(self).min_length,
            final(self).shard_id == old(self).shard_id,
            final(self).stride == old(self).stride,
            (final(self)@, action) == finishing(old(self)@, outcome),
    {
        self.phase = Phase::Finished(outcome);
        Action::Finish(outcome)
    }

    /// Renders the current candidate for the verifier.
    fn verify(&mut self, buffer: &mut String) -> (action: Action)
        requires
            old(self).wf(),
            old(self).countdown > 0,
            old(self).phase != Phase::Finished(LocalOutcome::Exhausted),
        ensures
            final(self).wf(),
            final(self).counter == old(self).counter,
            final(self).min_length == old(self).min_length,
            final(self).shard_id == old(self).shard_id,
            final(self).stride == old(self).stride,
            (final(self)@, action) == verifying(old(self)@),
            final(buffer)@ == spelled(final(self)@.candidate, final(self).alphabet()),
    {
        self.countdown = self.countdown - 1;
        self.phase = Phase::AwaitingVerdict;
        self.counter.render(buffer);
        Action::Verify
    }

    /// Takes up the candidate that the worker stands on.
    fn begin(&mut self, buffer: &mut String) -> (action: Action)
        requires
            old(self).wf(),
            old(self).phase != Phase::Finished(LocalOutcome::Exhausted),
        ensures
            final(self).wf(),
            final(self).counter == old(self).counter,
            final(self).min_length == old(self).min_length,
            final(self).shard_id == old(self).shard_id,
            final(self).stride == old(self).stride,
            (final(self)@, action) == beginning(old(self)@),
            action == Action::Verify ==> final(buffer)@ == spelled(
                final(self)@.candidate,
                final(self).alphabet(),
            ),
            action != Action::Verify ==> final(buffer)@ == old(buffer)@,
    {
        if self.countdown == 0 {
            self.countdown = STOP_CHECK_INTERVAL;
            self.phase = Phase::AwaitingFlag;
            Action::CheckStop
        } else {
            self.verify(buffer)
        }
    }
}

} // verus!
