use geth_indexer::config::{run_migrations, MigrationStep, MAX_RETRIES};
use geth_indexer::models::{to_signed, to_unsigned};
use geth_indexer::order::sorted_positions;
use geth_indexer::series::checked_accumulate_along_longest_chain;

fn keys(list: &[&str]) -> Vec<String> {
    list.iter().map(|k| k.to_string()).collect()
}

#[test]
fn positions_are_sorted_by_their_keys() {
    assert_eq!(sorted_positions(&keys(&["b", "c", "a"])), vec![2, 0, 1]);
    assert_eq!(sorted_positions(&keys(&[])), Vec::<usize>::new());
    assert_eq!(sorted_positions(&keys(&["only"])), vec![0]);
}

#[test]
fn equal_keys_keep_their_order() {
    assert_eq!(sorted_positions(&keys(&["x", "a", "x", "a", "x"])), vec![1, 3, 0, 2, 4]);
}

#[test]
fn keys_are_compared_as_texts() {
    // A text comes after each of its beginnings, and digits are not numbers.
    assert_eq!(sorted_positions(&keys(&["ab", "a", "", "10", "9"])), vec![2, 3, 4, 1, 0]);
    assert_eq!(sorted_positions(&keys(&["\u{e9}", "z", "Z"])), vec![2, 1, 0]);
    // Characters are compared by their code points, whatever their width.
    assert_eq!(
        sorted_positions(&keys(&["\u{10000}", "\u{ffff}", "\u{7ff}", "\u{800}", "\u{7f}"])),
        vec![4, 2, 3, 1, 0]
    );
}

#[test]
fn sorting_agrees_with_the_standard_stable_sort() {
    let list = keys(&["q", "b", "m", "b", "a", "zz", "z", "m", "", "q"]);
    let mut expected: Vec<usize> = (0..list.len()).collect();
    expected.sort_by(|a, b| list[*a].cmp(&list[*b]));
    assert_eq!(sorted_positions(&list), expected);
}

#[test]
fn numbers_change_sign_as_a_cast_does() {
    for n in [0u64, 1, i64::MAX as u64, i64::MAX as u64 + 1, u64::MAX] {
        assert_eq!(to_signed(n), n as i64);
        assert_eq!(to_unsigned(to_signed(n)), n);
    }
    for n in [0i64, -1, i64::MIN, i64::MAX] {
        assert_eq!(to_unsigned(n), n as u64);
        assert_eq!(to_signed(to_unsigned(n)), n);
    }
}

#[test]
fn migrations_are_tried_a_hundred_times() {
    assert_eq!(MAX_RETRIES, 100);
    assert_eq!(run_migrations(1, true), MigrationStep::Done);
    assert_eq!(run_migrations(100, true), MigrationStep::Done);
    assert_eq!(run_migrations(1, false), MigrationStep::Retry(2));
    assert_eq!(run_migrations(99, false), MigrationStep::Retry(100));
    assert_eq!(run_migrations(100, false), MigrationStep::GiveUp);
}

#[test]
fn a_merged_count_that_does_not_fit_is_reported() {
    let base = vec![(u64::MAX, 1, "a".to_string())];
    let other = vec![(1, 1, "a".to_string())];
    assert_eq!(checked_accumulate_along_longest_chain(vec![other.clone(), base.clone()]), None);
    let fits = vec![(u64::MAX - 1, 1, "a".to_string())];
    assert_eq!(
        checked_accumulate_along_longest_chain(vec![other, fits]),
        Some(vec![(u64::MAX, 1, "a".to_string())])
    );
}
