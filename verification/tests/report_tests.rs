use cargo_multi::report::{banner, indent, rule, BANNER_PREFIX, INDENT};

fn spoken(items: &[&str]) -> Vec<String> {
    items.iter().map(|s| s.to_string()).collect()
}

#[test]
fn the_banner_shows_the_command_line() {
    assert_eq!(banner("cargo", &spoken(&["test"])), "Executing cargo test");
    assert_eq!(
        banner("cargo", &spoken(&["test", "--release", "--", "-q"])),
        "Executing cargo test --release -- -q"
    );
    assert_eq!(banner("/usr/bin/cargo", &spoken(&["build"])), "Executing /usr/bin/cargo build");
}

#[test]
fn the_banner_of_a_bare_program_ends_in_a_space() {
    assert_eq!(banner("cargo", &spoken(&[])), "Executing cargo ");
}

#[test]
fn the_banner_keeps_empty_words() {
    assert_eq!(banner("cargo", &spoken(&["a", "", "b"])), "Executing cargo a  b");
}

#[test]
fn the_banner_is_what_format_would_give() {
    let words = spoken(&["run", "-p", "x y", "\u{e9}"]);
    assert_eq!(banner("cargo", &words), format!("Executing {} {}", "cargo", words.join(" ")));
}

#[test]
fn a_rule_is_made_of_dashes() {
    assert_eq!(rule(0), "");
    assert_eq!(rule(1), "-");
    assert_eq!(rule(20), "--------------------");
    assert_eq!(rule(banner("cargo", &spoken(&["test"])).len()), "-".repeat(20));
}

#[test]
fn a_line_is_moved_right_by_eight() {
    assert_eq!(INDENT.len(), 8);
    assert_eq!(BANNER_PREFIX, "Executing ");
    assert_eq!(indent("warning: unused"), "        warning: unused");
    assert_eq!(indent(""), "        ");
    assert_eq!(indent("  kept"), "          kept");
}
