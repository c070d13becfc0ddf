use brute_search::search::internal::InternalCrackData;
use brute_search::search::plan::{get_thread_count, plan, thread_count_for};
use brute_search::search::result::{resolve, CrackResult, SearchError, WorkerReport};
use brute_search::search::worker::{
    Action, Event, LocalOutcome, Phase, Worker, STOP_CHECK_INTERVAL,
};
use brute_search::search::CrackParam;
use brute_search::symbols::{combination_count, ConfigurationError};

fn run_worker(
    worker: &mut Worker,
    stop: &mut bool,
    target: Option<&str>,
    seen: &mut Vec<String>,
) -> WorkerReport {
    let mut buffer = String::new();
    let mut action = worker.step(Event::Start, &mut buffer);
    loop {
        action = match action {
            Action::CheckStop => worker.step(Event::StopFlag(*stop), &mut buffer),
            Action::Verify => {
                seen.push(buffer.clone());
                worker.step(Event::Verdict(target == Some(buffer.as_str())), &mut buffer)
            }
            Action::RaiseStop => {
                let won = !*stop;
                *stop = true;
                worker.step(Event::Claimed(won), &mut buffer)
            }
            Action::Finish(outcome) => {
                return WorkerReport { outcome, candidate: buffer };
            }
        };
    }
}

fn search(
    charset: &[char],
    min: u8,
    max: u8,
    parallelism: usize,
    target: Option<&str>,
) -> (Result<CrackResult, SearchError>, Vec<String>) {
    let param = CrackParam::new(Box::from(charset), min, max, "correct").unwrap();
    let data = InternalCrackData::with_parallelism(param, parallelism);
    let mut stop = false;
    let mut seen = Vec::new();
    let mut reports = Vec::new();
    for shard in 0..data.thread_count() {
        let mut worker = data.worker(shard);
        reports.push(run_worker(&mut worker, &mut stop, target, &mut seen));
    }
    (CrackResult::assemble(data, 1_500_000, &reports), seen)
}

#[test]
fn shards_visit_every_candidate_exactly_once() {
    let charset = ['a', 'b', 'c'];
    let total = combination_count(&charset, 0, 3).unwrap();
    for shard_count in 1..=9usize {
        let mut seen = Vec::new();
        for shard in 0..shard_count {
            let mut worker = Worker::new(&charset, 0, 3, shard, shard_count).unwrap();
            let mut stop = false;
            let report = run_worker(&mut worker, &mut stop, None, &mut seen);
            assert_eq!(report.outcome, LocalOutcome::Exhausted);
        }
        assert_eq!(seen.len(), total);
        seen.sort();
        seen.dedup();
        assert_eq!(seen.len(), total);
    }
}

#[test]
fn a_shard_visits_its_residue_class_in_order() {
    let charset = ['a', 'b'];
    let mut seen = Vec::new();
    let mut stop = false;
    let mut worker = Worker::new(&charset, 1, 2, 1, 2).unwrap();
    run_worker(&mut worker, &mut stop, None, &mut seen);
    assert_eq!(seen, vec!["b", "ab", "bb"]);
    assert_eq!(worker.visited(), 2);
    assert_eq!(worker.phase(), Phase::Finished(LocalOutcome::Exhausted));
}

#[test]
fn a_shard_without_candidates_has_finished_at_once() {
    let charset = ['a'];
    let mut worker = Worker::new(&charset, 1, 1, 3, 4).unwrap();
    assert_eq!(worker.phase(), Phase::Finished(LocalOutcome::Exhausted));
    let mut buffer = String::new();
    assert_eq!(
        worker.step(Event::Start, &mut buffer),
        Action::Finish(LocalOutcome::Exhausted)
    );
}

#[test]
fn worker_refuses_bad_parameters() {
    assert_eq!(
        Worker::new(&['a'], 3, 2, 0, 1).err(),
        Some(ConfigurationError::Range)
    );
    assert_eq!(
        Worker::new(&[], 0, 2, 0, 1).err(),
        Some(ConfigurationError::EmptyAlphabet)
    );
    assert_eq!(
        Worker::new(&['a', 'b'], 0, 64, 0, 1).err(),
        Some(ConfigurationError::Overflow)
    );
}

#[test]
fn worker_looks_at_the_stop_signal_every_hundred_candidates() {
    let charset = ['a', 'b'];
    let mut worker = Worker::new(&charset, 0, 10, 0, 1).unwrap();
    let mut buffer = String::new();
    let mut action = worker.step(Event::Start, &mut buffer);
    for _ in 0..STOP_CHECK_INTERVAL {
        assert_eq!(action, Action::Verify);
        action = worker.step(Event::Verdict(false), &mut buffer);
    }
    assert_eq!(action, Action::CheckStop);
    assert_eq!(worker.phase(), Phase::AwaitingFlag);
    assert_eq!(worker.visited(), 100);
    action = worker.step(Event::StopFlag(false), &mut buffer);
    for _ in 0..STOP_CHECK_INTERVAL {
        assert_eq!(action, Action::Verify);
        action = worker.step(Event::Verdict(false), &mut buffer);
    }
    assert_eq!(action, Action::CheckStop);
    action = worker.step(Event::StopFlag(true), &mut buffer);
    assert_eq!(action, Action::Finish(LocalOutcome::Stopped));
    assert_eq!(worker.phase(), Phase::Finished(LocalOutcome::Stopped));
    assert_eq!(worker.visited(), 200);
}

#[test]
fn worker_repeats_its_request_on_an_unexpected_event() {
    let charset = ['a', 'b'];
    let mut worker = Worker::new(&charset, 1, 1, 0, 1).unwrap();
    let mut buffer = String::new();
    assert_eq!(worker.step(Event::Start, &mut buffer), Action::Verify);
    assert_eq!(buffer, "a");
    buffer.push('!');
    assert_eq!(worker.step(Event::StopFlag(true), &mut buffer), Action::Verify);
    assert_eq!(buffer, "a");
    assert_eq!(worker.step(Event::Verdict(true), &mut buffer), Action::RaiseStop);
    assert_eq!(worker.step(Event::Verdict(false), &mut buffer), Action::RaiseStop);
    assert_eq!(
        worker.step(Event::Claimed(true), &mut buffer),
        Action::Finish(LocalOutcome::Matched { first: true })
    );
    assert_eq!(
        worker.step(Event::Start, &mut buffer),
        Action::Finish(LocalOutcome::Matched { first: true })
    );
    assert_eq!(buffer, "a");
}

#[test]
fn a_failing_verifier_ends_the_worker_and_the_search() {
    let charset = ['a', 'b'];
    let mut worker = Worker::new(&charset, 1, 1, 0, 1).unwrap();
    let mut buffer = String::new();
    assert_eq!(worker.step(Event::Start, &mut buffer), Action::Verify);
    assert_eq!(worker.step(Event::VerifierFailed, &mut buffer), Action::RaiseStop);
    assert_eq!(worker.phase(), Phase::ClaimingFailure);
    assert_eq!(
        worker.step(Event::Claimed(true), &mut buffer),
        Action::Finish(LocalOutcome::Failed)
    );
    let reports = vec![
        WorkerReport { outcome: LocalOutcome::Exhausted, candidate: String::new() },
        WorkerReport { outcome: LocalOutcome::Failed, candidate: String::from("a") },
        WorkerReport { outcome: LocalOutcome::Matched { first: true }, candidate: String::from("b") },
        WorkerReport { outcome: LocalOutcome::Failed, candidate: String::from("c") },
    ];
    assert_eq!(resolve(&reports), Err(SearchError { shard: 1 }));
    let param = CrackParam::new(Box::from(['a', 'b']), 1, 2, "x").unwrap();
    let data = InternalCrackData::with_parallelism(param, 5);
    assert_eq!(data.thread_count(), reports.len());
    assert_eq!(
        CrackResult::assemble(data, 0, &reports).err(),
        Some(SearchError { shard: 1 })
    );
}

#[test]
fn plan_reserves_one_thread_and_never_outnumbers_the_candidates() {
    assert_eq!(plan(100, 8), 7);
    assert_eq!(plan(100, 2), 1);
    assert_eq!(plan(100, 1), 1);
    assert_eq!(plan(100, 0), 1);
    assert_eq!(plan(7, 8), 7);
    assert_eq!(plan(6, 8), 1);
    assert_eq!(plan(1, 64), 1);
    assert_eq!(thread_count_for(12), 11);
    assert_eq!(thread_count_for(1), 1);
    assert!(get_thread_count() >= 1);
}

#[test]
fn planning_twice_gives_the_same_plan() {
    for parallelism in 0..20usize {
        let a = InternalCrackData::with_parallelism(
            CrackParam::new(Box::from(['a', 'b']), 1, 3, "ok").unwrap(),
            parallelism,
        );
        let b = InternalCrackData::with_parallelism(
            CrackParam::new(Box::from(['a', 'b']), 1, 3, "ok").unwrap(),
            parallelism,
        );
        assert_eq!(a.thread_count(), b.thread_count());
        assert_eq!(a.total_combos(), 14);
        assert_eq!(a.combos_per_thread(), 14 / a.thread_count());
        assert_eq!(a.combos_per_thread(), b.combos_per_thread());
    }
    let detected = InternalCrackData::from_crack_param(
        CrackParam::new(Box::from(['a', 'b']), 1, 3, "ok").unwrap(),
    );
    assert!(detected.thread_count() >= 1 && detected.thread_count() <= 14);
}

#[test]
fn crack_param_keeps_what_it_was_given() {
    let param = CrackParam::new(Box::from(['a', 'b']), 1, 2, "correct!").unwrap();
    assert_eq!(param.charset(), &['a', 'b'][..]);
    assert_eq!(param.min_length(), 1);
    assert_eq!(param.max_length(), 2);
    assert_eq!(param.total_combos(), 6);
    assert_eq!(param.output_contains(), "correct!");
    assert_eq!(
        CrackParam::new(Box::from(['a']), 2, 1, "").err(),
        Some(ConfigurationError::Range)
    );
    assert_eq!(
        CrackParam::new(Box::from([]), 1, 1, "").err(),
        Some(ConfigurationError::EmptyAlphabet)
    );
    assert_eq!(
        CrackParam::new(Box::from([]), 0, 1, "").err(),
        Some(ConfigurationError::EmptyAlphabet)
    );
    assert_eq!(
        CrackParam::new(Box::from(['a', 'b']), 1, 100, "").err(),
        Some(ConfigurationError::Overflow)
    );
}

#[test]
fn the_empty_string_is_found_by_shard_zero() {
    let (result, seen) = search(&[], 0, 0, 8, Some(""));
    let result = result.unwrap();
    assert!(result.is_success());
    assert!(!result.is_failure());
    assert_eq!(result.solution(), &Some(String::new()));
    assert_eq!(result.shard(), Some(0));
    assert_eq!(result.thread_count(), 1);
    assert_eq!(result.combinations_total(), 1);
    assert_eq!(seen, vec![""]);
}

#[test]
fn the_target_is_found() {
    for parallelism in 0..10 {
        let (result, _) = search(&['a', 'b'], 1, 2, parallelism, Some("ba"));
        let result = result.unwrap();
        assert_eq!(result.solution(), &Some(String::from("ba")));
        assert_eq!(result.combinations_total(), 6);
        assert_eq!(
            result.combinations_per_thread(),
            6 / result.thread_count()
        );
        assert_eq!(result.duration_in_micros(), 1_500_000);
        assert_eq!(result.duration_in_seconds(), 1);
    }
    let (result, _) = search(&['a', 'b'], 1, 2, 4, Some("ba"));
    assert_eq!(result.unwrap().shard(), Some(1));
}

#[test]
fn a_search_without_a_match_is_exhausted() {
    for parallelism in 0..10 {
        let (result, mut seen) = search(&['a', 'b'], 1, 2, parallelism, None);
        let result = result.unwrap();
        assert!(result.is_failure());
        assert_eq!(result.solution(), &None);
        assert_eq!(result.shard(), None);
        seen.sort();
        assert_eq!(seen, vec!["a", "aa", "ab", "b", "ba", "bb"]);
    }
}

#[test]
fn the_match_that_raised_the_stop_signal_is_the_one_reported() {
    let reports = vec![
        WorkerReport { outcome: LocalOutcome::Matched { first: false }, candidate: String::from("aa") },
        WorkerReport { outcome: LocalOutcome::Matched { first: true }, candidate: String::from("b") },
        WorkerReport { outcome: LocalOutcome::Matched { first: false }, candidate: String::from("ab") },
        WorkerReport { outcome: LocalOutcome::Stopped, candidate: String::from("bb") },
    ];
    assert_eq!(resolve(&reports), Ok(Some(1)));
    let param = CrackParam::new(Box::from(['a', 'b']), 1, 2, "x").unwrap();
    let data = InternalCrackData::with_parallelism(param, 5);
    let result = CrackResult::assemble(data, 42, &reports).unwrap();
    assert_eq!(result.solution(), &Some(String::from("b")));
    assert_eq!(result.shard(), Some(1));
    assert_eq!(result.thread_count(), 4);
    assert_eq!(result.combinations_per_thread(), 1);

    let unclaimed = vec![
        WorkerReport { outcome: LocalOutcome::Matched { first: false }, candidate: String::from("a") },
        WorkerReport { outcome: LocalOutcome::Exhausted, candidate: String::new() },
        WorkerReport { outcome: LocalOutcome::Matched { first: false }, candidate: String::from("b") },
        WorkerReport { outcome: LocalOutcome::Stopped, candidate: String::new() },
    ];
    assert_eq!(resolve(&unclaimed), Ok(Some(2)));
    let none = vec![
        WorkerReport { outcome: LocalOutcome::Exhausted, candidate: String::new() },
        WorkerReport { outcome: LocalOutcome::Stopped, candidate: String::new() },
    ];
    assert_eq!(resolve(&none), Ok(None));
    assert_eq!(resolve(&Vec::new()), Ok(None));
}

#[test]
fn two_matches_in_two_shards() {
    let charset = ['a', 'b'];
    let mut stop = false;
    let mut seen = Vec::new();
    let mut second = Worker::new(&charset, 1, 2, 1, 2).unwrap();
    let late = run_worker(&mut second, &mut stop, Some("b"), &mut seen);
    let mut first = Worker::new(&charset, 1, 2, 0, 2).unwrap();
    let early = run_worker(&mut first, &mut stop, Some("a"), &mut seen);
    assert_eq!(late.outcome, LocalOutcome::Matched { first: true });
    assert_eq!(early.outcome, LocalOutcome::Matched { first: false });
    let reports = vec![early, late];
    assert_eq!(resolve(&reports), Ok(Some(1)));
    assert_eq!(reports[1].candidate, "b");
}
