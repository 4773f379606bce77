use cargo_multi::distinct::{contains_path, drop_repeated};

fn texts(items: &[&str]) -> Vec<String> {
    items.iter().map(|s| s.to_string()).collect()
}

#[test]
fn a_repeated_path_is_kept_where_it_first_occurs() {
    assert_eq!(drop_repeated(&texts(&["b", "a", "b", "c", "a"])), texts(&["b", "a", "c"]));
}

#[test]
fn a_list_without_repetition_is_left_as_it_is() {
    assert_eq!(drop_repeated(&texts(&["c", "a", "b"])), texts(&["c", "a", "b"]));
}

#[test]
fn nothing_is_left_of_nothing() {
    assert!(drop_repeated(&texts(&[])).is_empty());
}

#[test]
fn one_path_many_times_is_one_path() {
    assert_eq!(drop_repeated(&texts(&["a", "a", "a"])), texts(&["a"]));
}

#[test]
fn dropping_again_changes_nothing() {
    let once = drop_repeated(&texts(&["x", "y", "x", "x", "z", "y"]));
    let twice = drop_repeated(&once);
    assert_eq!(once, twice);
}

#[test]
fn paths_that_differ_in_writing_are_different() {
    assert_eq!(drop_repeated(&texts(&["a", "a/", "./a", "A"])), texts(&["a", "a/", "./a", "A"]));
}

#[test]
fn contains_path_finds_what_is_there() {
    let paths = texts(&["a", "b"]);
    assert!(contains_path(&paths, &"a".to_string()));
    assert!(contains_path(&paths, &"b".to_string()));
    assert!(!contains_path(&paths, &"c".to_string()));
    assert!(!contains_path(&texts(&[]), &"a".to_string()));
}
