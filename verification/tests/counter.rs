use brute_search::indices::{CandidateCounter, Exhausted};
use brute_search::symbols::{combination_count, ConfigurationError};

fn walk(charset: &[char], min: u8, max: u8) -> Vec<String> {
    let mut counter = CandidateCounter::seed(charset, min, max).unwrap();
    let mut buffer = String::new();
    let mut seen = Vec::new();
    loop {
        counter.render(&mut buffer);
        seen.push(buffer.clone());
        if counter.advance(1).is_err() {
            return seen;
        }
    }
}

#[test]
fn counter_walks_in_shortlex_order() {
    assert_eq!(walk(&['a', 'b'], 1, 2), vec!["a", "b", "aa", "ab", "ba", "bb"]);
    assert_eq!(walk(&['a', 'b'], 0, 1), vec!["", "a", "b"]);
    assert_eq!(walk(&['x'], 0, 3), vec!["", "x", "xx", "xxx"]);
    assert_eq!(walk(&['a', 'b', 'c'], 2, 2).len(), 9);
    assert_eq!(walk(&[], 0, 0), vec![""]);
}

#[test]
fn counter_visits_every_candidate_once() {
    let charset = ['a', 'b', 'c'];
    let seen = walk(&charset, 0, 4);
    assert_eq!(seen.len(), combination_count(&charset, 0, 4).unwrap());
    let mut sorted = seen.clone();
    sorted.sort();
    sorted.dedup();
    assert_eq!(sorted.len(), seen.len());
}

#[test]
fn advance_by_n_is_n_single_steps() {
    let charset = ['a', 'b', 'c'];
    let size = combination_count(&charset, 0, 3).unwrap();
    for n in [0, 1, charset.len(), charset.len() + 1, size - 1, 7, 13, 26] {
        let mut jump = CandidateCounter::seed(&charset, 0, 3).unwrap();
        let mut walk = CandidateCounter::seed(&charset, 0, 3).unwrap();
        assert_eq!(jump.advance(n), Ok(()));
        for _ in 0..n {
            assert_eq!(walk.advance(1), Ok(()));
        }
        let mut a = String::from("stale");
        let mut b = String::new();
        jump.render(&mut a);
        walk.render(&mut b);
        assert_eq!(a, b, "n = {}", n);
    }
}

#[test]
fn advance_from_the_middle_matches_the_walk() {
    let charset = ['a', 'b'];
    let all = walk(&charset, 1, 4);
    for start in 0..all.len() {
        for n in 0..all.len() + 3 {
            let mut counter = CandidateCounter::seed(&charset, 1, 4).unwrap();
            assert_eq!(counter.advance(start), Ok(()));
            let res = counter.advance(n);
            if start + n < all.len() {
                assert_eq!(res, Ok(()));
                let mut buffer = String::new();
                counter.render(&mut buffer);
                assert_eq!(buffer, all[start + n]);
            } else {
                assert_eq!(res, Err(Exhausted));
            }
        }
    }
}

#[test]
fn advance_past_the_end_is_exhausted() {
    let charset = ['a', 'b'];
    let mut counter = CandidateCounter::seed(&charset, 1, 2).unwrap();
    assert_eq!(counter.advance(5), Ok(()));
    assert_eq!(counter.advance(1), Err(Exhausted));
    let mut counter = CandidateCounter::seed(&charset, 1, 2).unwrap();
    assert_eq!(counter.advance(6), Err(Exhausted));
    let mut counter = CandidateCounter::seed(&charset, 1, 2).unwrap();
    assert_eq!(counter.advance(usize::MAX), Err(Exhausted));
    let mut counter = CandidateCounter::seed(&['a'], 0, 255).unwrap();
    assert_eq!(counter.advance(255), Ok(()));
    assert_eq!(counter.len(), 255);
    assert_eq!(counter.advance(1), Err(Exhausted));
}

#[test]
fn seed_stands_on_the_first_candidate_of_the_least_length() {
    let charset = ['p', 'q'];
    let counter = CandidateCounter::seed(&charset, 3, 5).unwrap();
    let mut buffer = String::from("zzz zzz");
    counter.render(&mut buffer);
    assert_eq!(buffer, "ppp");
    assert_eq!(counter.len(), 3);
    let counter = CandidateCounter::seed(&charset, 0, 5).unwrap();
    counter.render(&mut buffer);
    assert_eq!(buffer, "");
}

#[test]
fn seed_refuses_bad_parameters() {
    assert_eq!(
        CandidateCounter::seed(&['a'], 2, 1).err(),
        Some(ConfigurationError::Range)
    );
    assert_eq!(
        CandidateCounter::seed(&[], 0, 1).err(),
        Some(ConfigurationError::EmptyAlphabet)
    );
    assert!(CandidateCounter::seed(&[], 0, 0).is_ok());
}

#[test]
fn render_reuses_the_buffer() {
    let charset = ['a', 'b'];
    let mut counter = CandidateCounter::seed(&charset, 1, 2).unwrap();
    let mut buffer = String::from("left over");
    counter.render(&mut buffer);
    assert_eq!(buffer, "a");
    counter.advance(4).unwrap();
    counter.render(&mut buffer);
    assert_eq!(buffer, "ba");
}
