use brute_search::symbols::builder::Builder;
use brute_search::indices::CandidateCounter;
use brute_search::symbols::{combination_count, length_at, ConfigurationError};

#[test]
fn test_build() {
    let charset = Builder::new().with_alphanumeric();
    assert!(!charset.is_empty());
}

#[test]
fn test_combinations_count() {
    let charset_empty: Box<[char]> = Box::from([]);
    let charset_one: Box<[char]> = Box::from(['a']);

    assert_eq!(combination_count(&charset_empty, 0, 0), Ok(1), "0 symbols.");

    assert_eq!(combination_count(&charset_one, 0, 1), Ok(2), "1 combination.");
}

#[test]
fn combination_count_refuses_a_reversed_range() {
    let charset: Box<[char]> = Box::from(['a']);
    assert_eq!(combination_count(&charset, 1, 0), Err(ConfigurationError::Range));
}

#[test]
fn combination_count_is_the_sum_of_powers() {
    for k in 0usize..5 {
        let charset: Vec<char> = "abcde".chars().take(k).collect();
        for min in 0u8..5 {
            for max in min..6 {
                let mut expected: usize = 0;
                for len in min..=max {
                    expected += k.pow(len as u32);
                }
                assert_eq!(combination_count(&charset, min, max), Ok(expected));
            }
        }
    }
}

#[test]
fn combination_count_exact_values() {
    let two = ['a', 'b'];
    assert_eq!(combination_count(&two, 1, 2), Ok(6));
    assert_eq!(combination_count(&two, 0, 3), Ok(15));
    assert_eq!(combination_count(&two, 3, 3), Ok(8));
    let none: [char; 0] = [];
    assert_eq!(combination_count(&none, 0, 5), Ok(1));
    assert_eq!(combination_count(&none, 1, 5), Ok(0));
}

#[test]
fn combination_count_refuses_a_space_that_does_not_fit() {
    let two = ['a', 'b'];
    assert_eq!(combination_count(&two, 0, 64), Err(ConfigurationError::Overflow));
    assert_eq!(combination_count(&two, 64, 64), Err(ConfigurationError::Overflow));
    assert_eq!(combination_count(&two, 200, 255), Err(ConfigurationError::Overflow));
    assert_eq!(combination_count(&two, 63, 63), Ok(1usize << 63));
    assert_eq!(combination_count(&two, 0, 63), Ok(usize::MAX));
    let one = ['a'];
    assert_eq!(combination_count(&one, 0, 255), Ok(256));
}

#[test]
fn builder_sorts_and_deduplicates() {
    let built = Builder::new().with_char('b').with_char('a').with_char('b').build();
    assert_eq!(&*built, &['a', 'b'][..]);
    let built = Builder::new().with_chars(&['z', 'x', 'y', 'x']).build();
    assert_eq!(&*built, &['x', 'y', 'z'][..]);
}

#[test]
fn builder_groups_hold_their_symbols() {
    let digits = Builder::new().with_digits().build();
    assert_eq!(digits.iter().collect::<String>(), "0123456789");
    let upper = Builder::new().with_latin_uc().build();
    assert_eq!(upper.iter().collect::<String>(), "ABCDEFGHIJKLMNOPQRSTUVWXYZ");
    let lower = Builder::new().with_latin_lc().build();
    assert_eq!(lower.iter().collect::<String>(), "abcdefghijklmnopqrstuvwxyz");
    let letters = Builder::new().with_latin_letters().build();
    assert_eq!(letters.len(), 52);
    let all = Builder::new().with_alphanumeric().with_digits().build();
    assert_eq!(all.len(), 62);
    assert_eq!(all[0], '0');
    assert_eq!(all[61], 'z');
}

#[test]
fn builder_starts_empty() {
    assert!(Builder::new().is_empty());
    assert!(Builder::default().is_empty());
    assert!(!Builder::new().with_char('q').is_empty());
}

#[test]
fn length_at_follows_the_lengths() {
    let two = ['a', 'b'];
    assert_eq!(length_at(&two, 1, 2, 0), Some(1));
    assert_eq!(length_at(&two, 1, 2, 1), Some(1));
    assert_eq!(length_at(&two, 1, 2, 2), Some(2));
    assert_eq!(length_at(&two, 1, 2, 5), Some(2));
    assert_eq!(length_at(&two, 1, 2, 6), None);
    assert_eq!(length_at(&two, 2, 1, 0), None);
    assert_eq!(length_at(&two, 0, 3, 0), Some(0));
    assert_eq!(length_at(&two, 0, 3, 14), Some(3));
    assert_eq!(length_at(&two, 0, 200, usize::MAX), Some(64));
    assert_eq!(length_at(&two, 0, 200, usize::MAX - 1), Some(63));
    assert_eq!(length_at(&two, 0, 63, usize::MAX), None);
    assert_eq!(length_at(&two, 100, 200, usize::MAX), Some(100));
    let none: [char; 0] = [];
    assert_eq!(length_at(&none, 0, 4, 0), Some(0));
    assert_eq!(length_at(&none, 0, 4, 1), None);
    assert_eq!(length_at(&none, 1, 4, 0), None);
}

#[test]
fn length_at_agrees_with_the_counter() {
    let charset = ['a', 'b', 'c'];
    let total = combination_count(&charset, 1, 4).unwrap();
    for index in 0..total {
        let mut counter = CandidateCounter::seed(&charset, 1, 4).unwrap();
        counter.advance(index).unwrap();
        assert_eq!(length_at(&charset, 1, 4, index), Some(counter.len() as u8));
    }
}
