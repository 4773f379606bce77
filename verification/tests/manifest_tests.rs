use cargo_multi::manifest::{declared_members, read_manifest, Manifest, TomlValue};

fn document(text: &str) -> TomlValue {
    match read_manifest(Some(text)) {
        Manifest::Document(doc) => doc,
        other => panic!("expected a document, got {:?}", other),
    }
}

fn text(s: &str) -> TomlValue {
    TomlValue::Text(s.to_string())
}

#[test]
fn members_are_read_in_declared_order() {
    let doc = document("[workspace]\nmembers = [\"b\", \"a\", \"c\"]\n");
    assert_eq!(declared_members(&doc), vec!["b".to_string(), "a".to_string(), "c".to_string()]);
}

#[test]
fn members_may_repeat_in_the_declaration() {
    let doc = document("[workspace]\nmembers = [\"a\", \"a\"]\n");
    assert_eq!(declared_members(&doc), vec!["a".to_string(), "a".to_string()]);
}

#[test]
fn members_that_are_no_strings_are_left_out() {
    let doc = document("[workspace]\nmembers = [[\"x\"], [\"y\"]]\n");
    assert!(declared_members(&doc).is_empty());
    let built = TomlValue::Table(vec![(
        "workspace".to_string(),
        TomlValue::Table(vec![(
            "members".to_string(),
            TomlValue::Array(vec![text("a"), TomlValue::Integer(7), text("b"), TomlValue::Boolean(true)]),
        )]),
    )]);
    assert_eq!(declared_members(&built), vec!["a".to_string(), "b".to_string()]);
}

#[test]
fn a_manifest_without_workspace_declares_nothing() {
    let doc = document("[package]\nname = \"solo\"\nversion = \"0.1.0\"\n");
    assert!(declared_members(&doc).is_empty());
}

#[test]
fn a_workspace_without_members_declares_nothing() {
    let doc = document("[workspace]\nexclude = [\"target\"]\n");
    assert!(declared_members(&doc).is_empty());
}

#[test]
fn members_that_are_no_array_declare_nothing() {
    let doc = document("[workspace]\nmembers = \"a\"\n");
    assert!(declared_members(&doc).is_empty());
}

#[test]
fn a_workspace_that_is_no_table_declares_nothing() {
    let doc = document("workspace = 3\n");
    assert!(declared_members(&doc).is_empty());
}

#[test]
fn a_dotted_key_name_is_not_a_path() {
    let doc = document("\"workspace.members\" = [\"a\"]\n");
    assert!(declared_members(&doc).is_empty());
}

#[test]
fn an_empty_text_is_an_empty_document() {
    match read_manifest(Some("")) {
        Manifest::Document(TomlValue::Table(entries)) => assert!(entries.is_empty()),
        other => panic!("expected an empty table, got {:?}", other),
    }
}

#[test]
fn a_malformed_text_is_malformed() {
    assert!(matches!(read_manifest(Some("[workspace\nmembers = [")), Manifest::Malformed));
    assert!(matches!(read_manifest(Some("members = [\"a\"")), Manifest::Malformed));
}

#[test]
fn no_text_is_a_missing_manifest() {
    assert!(matches!(read_manifest(None), Manifest::Missing));
}

#[test]
fn the_document_is_read_and_not_handed_back() {
    let doc = document("n = 42\nflag = true\nname = \"x\"\n");
    match &doc {
        TomlValue::Table(entries) => {
            let keys: Vec<&str> = entries.iter().map(|(k, _)| k.as_str()).collect();
            assert_eq!(keys, vec!["flag", "n", "name"]);
        }
        other => panic!("expected a table, got {:?}", other),
    }
    assert!(matches!(doc.get("n"), Some(TomlValue::Integer(42))));
    assert!(matches!(doc.get("flag"), Some(TomlValue::Boolean(true))));
    match doc.get("name") {
        Some(TomlValue::Text(s)) => assert_eq!(s, "x"),
        other => panic!("expected a string, got {:?}", other),
    }
}

#[test]
fn floats_and_dates_keep_what_was_written() {
    let doc = document("ratio = 1.5\nwhen = 1979-05-27T07:32:00Z\n");
    assert!(matches!(doc.get("ratio"), Some(TomlValue::Float(bits)) if *bits == 1.5f64.to_bits()));
    match doc.get("when") {
        Some(TomlValue::Datetime(s)) => assert_eq!(s, "1979-05-27T07:32:00Z"),
        other => panic!("expected a date, got {:?}", other),
    }
}

#[test]
fn get_finds_the_first_entry_of_that_key() {
    let table = TomlValue::Table(vec![
        ("a".to_string(), TomlValue::Integer(1)),
        ("b".to_string(), TomlValue::Integer(2)),
        ("a".to_string(), TomlValue::Integer(3)),
    ]);
    assert!(matches!(table.get("a"), Some(TomlValue::Integer(1))));
    assert!(matches!(table.get("b"), Some(TomlValue::Integer(2))));
    assert!(table.get("c").is_none());
    assert!(table.get("").is_none());
}

#[test]
fn get_finds_nothing_in_what_is_no_table() {
    assert!(text("a").get("a").is_none());
    assert!(TomlValue::Array(vec![text("a")]).get("a").is_none());
    assert!(TomlValue::Integer(1).get("a").is_none());
}

#[test]
fn strings_of_what_is_no_array_are_none() {
    assert!(text("a").strings().is_empty());
    assert!(TomlValue::Table(vec![]).strings().is_empty());
    assert!(TomlValue::Array(vec![]).strings().is_empty());
    assert_eq!(TomlValue::Array(vec![text("z"), text("a")]).strings(), vec!["z".to_string(), "a".to_string()]);
}

#[test]
fn nested_tables_are_read() {
    let doc = document("[workspace]\nmembers = [\"x/y\", \"z\"]\n[workspace.metadata]\nk = 1\n");
    assert_eq!(declared_members(&doc), vec!["x/y".to_string(), "z".to_string()]);
    let workspace = doc.get("workspace").unwrap();
    assert!(matches!(workspace.get("metadata"), Some(TomlValue::Table(_))));
}
