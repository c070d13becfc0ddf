use brute_search::parameters::{CrackParam, Spawn};
use brute_search::symbols::ConfigurationError;

#[test]
fn spawn_keeps_its_parts() {
    let spawn = Spawn::new("java", vec!["-jar", "check.jar"], "correct");
    assert_eq!(*spawn.script(), "java");
    assert_eq!(*spawn.args(), vec!["-jar", "check.jar"]);
    assert_eq!(*spawn.look_for_output(), "correct");
}

#[test]
fn child_crack_param_counts_the_candidates() {
    let spawn = Spawn::new("sh", vec!["-c"], "ok");
    let param = CrackParam::new(spawn, Box::from(['a', 'b', 'c']), 0, 2).unwrap();
    assert_eq!(param.charset(), &['a', 'b', 'c'][..]);
    assert_eq!(param.min_length(), 0);
    assert_eq!(param.max_length(), 2);
    assert_eq!(param.total_combos(), 13);
    assert_eq!(*param.spawn().script(), "sh");
}

#[test]
fn child_crack_param_refuses_bad_parameters() {
    let spawn = Spawn::new("sh", vec!["-c"], "ok");
    assert_eq!(
        CrackParam::new(spawn.clone(), Box::from(['a']), 3, 1).err(),
        Some(ConfigurationError::Range)
    );
    assert_eq!(
        CrackParam::new(spawn.clone(), Box::from([]), 0, 3).err(),
        Some(ConfigurationError::EmptyAlphabet)
    );
    assert_eq!(
        CrackParam::new(spawn, Box::from(['a', 'b']), 0, 255).err(),
        Some(ConfigurationError::Overflow)
    );
}
