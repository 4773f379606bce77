use cargo_multi::paths::{adjoin, manifest_path, SEPARATOR};

fn std_join(base: &str, child: &str) -> String {
    std::path::Path::new(base).join(child).to_str().unwrap().to_string()
}

#[test]
fn the_separator_is_a_slash() {
    assert_eq!(SEPARATOR, '/');
}

#[test]
fn a_child_follows_its_base() {
    assert_eq!(adjoin("/ws", "crateA"), "/ws/crateA");
    assert_eq!(adjoin("ws", "a/b"), "ws/a/b");
    assert_eq!(adjoin(".", "a"), "./a");
}

#[test]
fn a_base_that_ends_in_a_separator_gets_no_second_one() {
    assert_eq!(adjoin("/ws/", "crateA"), "/ws/crateA");
    assert_eq!(adjoin("/", "crateA"), "/crateA");
}

#[test]
fn an_absolute_child_stands_for_itself() {
    assert_eq!(adjoin("/ws", "/elsewhere/x"), "/elsewhere/x");
    assert_eq!(adjoin("", "/x"), "/x");
    assert_eq!(adjoin("/ws", "/"), "/");
}

#[test]
fn beside_an_empty_base_the_child_stands_for_itself() {
    assert_eq!(adjoin("", "a"), "a");
    assert_eq!(adjoin("", ""), "");
}

#[test]
fn an_empty_child_leaves_the_base_with_a_separator() {
    assert_eq!(adjoin("/ws", ""), "/ws/");
    assert_eq!(adjoin("/ws/", ""), "/ws/");
}

#[test]
fn paths_in_other_scripts_are_adjoined_too() {
    assert_eq!(adjoin("/\u{4e2d}\u{6587}", "\u{e9}t\u{e9}"), "/\u{4e2d}\u{6587}/\u{e9}t\u{e9}");
    assert_eq!(adjoin("\u{e9}/", "x"), "\u{e9}/x");
}

#[test]
fn the_manifest_lies_in_its_directory() {
    assert_eq!(manifest_path("/ws/crateA"), "/ws/crateA/Cargo.toml");
    assert_eq!(manifest_path("/ws/crateA/"), "/ws/crateA/Cargo.toml");
    assert_eq!(manifest_path(""), "Cargo.toml");
    assert_eq!(manifest_path("/"), "/Cargo.toml");
}

#[test]
fn adjoining_agrees_with_the_paths_of_the_platform() {
    let bases = ["", "/", "/ws", "/ws/", "ws", "a/b", ".", "..", "/\u{e9}"];
    let children = ["", "a", "a/b", "/abs", "/", "Cargo.toml", "..", "\u{4e2d}"];
    for base in bases.iter() {
        for child in children.iter() {
            assert_eq!(adjoin(base, child), std_join(base, child), "{:?} and {:?}", base, child);
        }
    }
}
