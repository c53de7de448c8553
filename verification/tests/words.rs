use type_me::words::EmptyWordListError;
use type_me::words::Words;

#[test]
fn new_rejects_empty_list() {
    let result = Words::new(Vec::new());
    assert!(matches!(result, Err(EmptyWordListError)));
}

#[test]
fn new_starts_at_first_word() {
    let words = Words::new(vec!["alpha".to_string(), "beta".to_string()]).unwrap();
    assert_eq!(words.current_index(), 0);
    assert_eq!(words.current().as_str(), "alpha");
}

#[test]
fn next_word_steps_forward() {
    let mut words = Words::new(vec!["alpha".to_string(), "beta".to_string()]).unwrap();
    words.next_word();
    assert_eq!(words.current_index(), 1);
    assert_eq!(words.current().as_str(), "beta");
}

#[test]
fn next_word_wraps_to_first() {
    let mut words = Words::new(vec!["alpha".to_string(), "beta".to_string()]).unwrap();
    words.next_word();
    words.next_word();
    assert_eq!(words.current_index(), 0);
    assert_eq!(words.current().as_str(), "alpha");
}

#[test]
fn full_cycle_returns_to_start() {
    let mut words = Words::default();
    let original = words.current().clone();
    let laps = words.list().len();
    for _ in 0..laps {
        words.next_word();
    }
    assert_eq!(words.current_index(), 0);
    assert_eq!(words.current(), &original);
}

#[test]
fn default_list_holds_seven_names() {
    let words = Words::default();
    let expected = vec!["모모", "사나", "정연", "미나", "채영", "지효", "다현"];
    assert_eq!(words.list().len(), 7);
    for (word, expected_word) in words.list().iter().zip(expected.iter()) {
        assert_eq!(word.as_str(), *expected_word);
    }
    assert_eq!(words.current_index(), 0);
}

#[test]
fn single_word_list_wraps_immediately() {
    let mut words = Words::new(vec!["solo".to_string()]).unwrap();
    words.next_word();
    assert_eq!(words.current_index(), 0);
    assert_eq!(words.current().as_str(), "solo");
}
