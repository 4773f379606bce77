use cargo_multi::scan::{insert_ascending, select_crates, ScanEntry, SCAN_DEPTH};

fn entry(path: &str, depth: usize, is_dir: bool, has_marker: bool) -> ScanEntry {
    ScanEntry { path: path.to_string(), depth, is_dir, has_marker }
}

fn texts(items: &[&str]) -> Vec<String> {
    items.iter().map(|s| s.to_string()).collect()
}

#[test]
fn crates_lie_one_level_below_the_root() {
    assert_eq!(SCAN_DEPTH, 1);
}

#[test]
fn marked_children_are_selected() {
    let entries = vec![entry("/ws/crateA", 1, true, true), entry("/ws/crateB", 1, true, true)];
    assert_eq!(select_crates(&entries), texts(&["/ws/crateA", "/ws/crateB"]));
}

#[test]
fn the_selection_is_sorted() {
    let entries = vec![
        entry("/ws/zeta", 1, true, true),
        entry("/ws/alpha", 1, true, true),
        entry("/ws/mid", 1, true, true),
        entry("/ws/Beta", 1, true, true),
    ];
    assert_eq!(select_crates(&entries), texts(&["/ws/Beta", "/ws/alpha", "/ws/mid", "/ws/zeta"]));
}

#[test]
fn children_without_marker_are_left_out() {
    let entries = vec![
        entry("/ws/docs", 1, true, false),
        entry("/ws/crateA", 1, true, true),
        entry("/ws/target", 1, true, false),
    ];
    assert_eq!(select_crates(&entries), texts(&["/ws/crateA"]));
}

#[test]
fn grandchildren_are_left_out() {
    let entries = vec![
        entry("/ws/group", 1, true, false),
        entry("/ws/group/inner", 2, true, true),
        entry("/ws/crateA", 1, true, true),
        entry("/ws/crateA/sub", 2, true, true),
    ];
    assert_eq!(select_crates(&entries), texts(&["/ws/crateA"]));
}

#[test]
fn the_root_itself_is_left_out() {
    let entries = vec![entry("/ws", 0, true, true), entry("/ws/crateA", 1, true, true)];
    assert_eq!(select_crates(&entries), texts(&["/ws/crateA"]));
}

#[test]
fn files_are_left_out() {
    let entries = vec![entry("/ws/Cargo.toml", 1, false, false), entry("/ws/odd", 1, false, true)];
    assert!(select_crates(&entries).is_empty());
}

#[test]
fn an_entry_found_twice_is_selected_once() {
    let entries = vec![
        entry("/ws/b", 1, true, true),
        entry("/ws/a", 1, true, true),
        entry("/ws/b", 1, true, true),
    ];
    assert_eq!(select_crates(&entries), texts(&["/ws/a", "/ws/b"]));
}

#[test]
fn nothing_is_selected_from_nothing() {
    assert!(select_crates(&vec![]).is_empty());
}

#[test]
fn insert_ascending_keeps_the_order() {
    let mut dirs = texts(&["b", "d"]);
    insert_ascending(&mut dirs, "c".to_string());
    assert_eq!(dirs, texts(&["b", "c", "d"]));
    insert_ascending(&mut dirs, "a".to_string());
    assert_eq!(dirs, texts(&["a", "b", "c", "d"]));
    insert_ascending(&mut dirs, "e".to_string());
    assert_eq!(dirs, texts(&["a", "b", "c", "d", "e"]));
    insert_ascending(&mut dirs, "c".to_string());
    assert_eq!(dirs, texts(&["a", "b", "c", "d", "e"]));
    let mut empty: Vec<String> = Vec::new();
    insert_ascending(&mut empty, "x".to_string());
    assert_eq!(empty, texts(&["x"]));
}

#[test]
fn marks_crate_wants_depth_directory_and_marker() {
    assert!(entry("a", 1, true, true).marks_crate());
    assert!(!entry("a", 0, true, true).marks_crate());
    assert!(!entry("a", 2, true, true).marks_crate());
    assert!(!entry("a", 1, false, true).marks_crate());
    assert!(!entry("a", 1, true, false).marks_crate());
}
