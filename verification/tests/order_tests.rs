use cargo_multi::order::path_le;

#[test]
fn a_path_is_no_later_than_itself() {
    assert!(path_le("crateA", "crateA"));
    assert!(path_le("", ""));
}

#[test]
fn the_first_differing_byte_decides() {
    assert!(path_le("crateA", "crateB"));
    assert!(!path_le("crateB", "crateA"));
    assert!(path_le("/ws/a/z", "/ws/b/a"));
    assert!(!path_le("/ws/b/a", "/ws/a/z"));
}

#[test]
fn a_prefix_comes_first() {
    assert!(path_le("crate", "crateA"));
    assert!(!path_le("crateA", "crate"));
    assert!(path_le("", "a"));
    assert!(!path_le("a", ""));
}

#[test]
fn capitals_come_before_small_letters() {
    assert!(path_le("Zed", "alpha"));
    assert!(!path_le("alpha", "Zed"));
}

#[test]
fn the_order_is_that_of_the_encoded_bytes() {
    assert!(path_le("z", "\u{e9}"));
    assert!(!path_le("\u{e9}", "z"));
    assert!(path_le("\u{e9}", "\u{4e2d}"));
    assert!(path_le("\u{4e2d}", "\u{1f600}"));
    assert!(!path_le("\u{1f600}", "\u{4e2d}"));
}

#[test]
fn the_order_agrees_with_that_of_strings() {
    let samples = ["", "a", "A", "ab", "b", "a/b", "a-b", "a_b", "\u{e9}", "crateA", "crateB"];
    for x in samples.iter() {
        for y in samples.iter() {
            assert_eq!(path_le(x, y), x <= y, "{:?} and {:?}", x, y);
        }
    }
}
