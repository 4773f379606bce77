//! The workspace manifest: a TOML document that may declare the member
//! directories of the workspace under `workspace.members`.

use vstd::prelude::*;
use crate::paths::text_view;

verus! {

/// A TOML value, held as plain data.
#[derive(Debug)]
pub enum TomlValue {
    /// A string.
    Text(String),
    /// An integer.
    Integer(i64),
    /// A float, by the bits of its IEEE 754 form.
    Float(u64),
    /// A boolean.
    Boolean(bool),
    /// A date or time, as it is written in TOML.
    Datetime(String),
    /// An array, in the order of the document.
    Array(Vec<TomlValue>),
    /// A table: its keys with their values, in ascending order of the keys.
    Table(Vec<(String, TomlValue)>),
}

/// `toml::Value`, the `toml` crate's own form of a TOML value. Nothing is
/// known of what is inside one; it is only handed on.
#[verifier::external_type_specification]
#[verifier::external_body]
pub struct ExTomlCrateValue(toml::Value);

/// What the `toml` crate reads from `text`: the document, or `None` where
/// `text` is not well-formed TOML.
pub uninterp spec fn parsed_document(text: Seq<char>) -> Option<TomlValue>;

/// Rebuilds a `toml::Value` as a [`TomlValue`], variant by variant: each
/// payload is moved over, a float as its bits (`f64::to_bits`), a date as
/// its text (`toml::value::Datetime`'s `to_string`), a table's entries in
/// the order in which the crate's map hands them out. Nothing is claimed
/// of the result.
#[verifier::external_body]
fn from_toml(value: toml::Value) -> TomlValue {
    match value {
        toml::Value::String(s) => TomlValue::Text(s),
        toml::Value::Integer(i) => TomlValue::Integer(i),
        toml::Value::Float(f) => TomlValue::Float(f.to_bits()),
        toml::Value::Boolean(b) => TomlValue::Boolean(b),
        toml::Value::Datetime(d) => TomlValue::Datetime(d.to_string()),
        toml::Value::Array(a) => TomlValue::Array(a.into_iter().map(from_toml).collect()),
        toml::Value::Table(t) => TomlValue::Table(
            t.into_iter().map(|(k, v)| (k, from_toml(v))).collect(),
        ),
    }
}

/// Parses `text` with the `toml` crate's `FromStr` impl for `toml::Value`
/// (`str::parse`), and rebuilds what was read as a [`TomlValue`]. The
/// contract claims only that the outcome depends on `text` alone; it gives
/// that outcome the name [`parsed_document`]. Whether `text` is well-formed,
/// and what it holds, is the crate's word.
#[verifier::external_body]
fn parse_toml(text: &str) -> (doc: Option<TomlValue>)
    ensures
        doc == parsed_document(text@),
{
    text.parse::<toml::Value>().ok().map(from_toml)
}

/// The value of the first entry of `entries` whose key is `key`.
pub open spec fn lookup(entries: Seq<(String, TomlValue)>, key: Seq<char>) -> Option<TomlValue>
    decreases entries.len(),
{
    if entries.len() == 0 {
        None
    } else if entries[0].0@ == key {
        Some(entries[0].1)
    } else {
        lookup(entries.drop_first(), key)
    }
}

/// The strings among `items`, in their order; what is no string is left out.
pub open spec fn texts_among(items: Seq<TomlValue>) -> Seq<Seq<char>>
    decreases items.len(),
{
    if items.len() == 0 {
        Seq::empty()
    } else {
        let before = texts_among(items.drop_last());
        match items.last() {
            TomlValue::Text(s) => before.push(s@),
            _ => before,
        }
    }
}

impl TomlValue {
    /// The value under `key`, where this is a table that has such a key.
    pub open spec fn entry(self, key: Seq<char>) -> Option<TomlValue> {
        match self {
            TomlValue::Table(entries) => lookup(entries@, key),
            _ => None,
        }
    }

    /// The strings of this array; empty where this is no array.
    pub open spec fn texts(self) -> Seq<Seq<char>> {
        match self {
            TomlValue::Array(items) => texts_among(items@),
            _ => Seq::empty(),
        }
    }

    /// The value under `key`, where this is a table that has such a key.
    pub fn get(&self, key: &str) -> (found: Option<&TomlValue>)
        ensures
            match found {
                Some(value) => self.entry(key@) == Some(*value),
                None => self.entry(key@) is None,
            },
    {
        match self {
            TomlValue::Table(entries) => {
                let wanted = key.to_owned();
                let mut i: usize = 0;
                assert(entries@.skip(0) == entries@);
                while i < entries.len()
                    invariant
                        i <= entries.len(),
                        wanted@ == key@,
                        self.entry(key@) == lookup(entries@, key@),
                        lookup(entries@, key@) == lookup(entries@.skip(i as int), key@),
                    decreases entries.len() - i,
                {
                    assert(entries@.skip(i as int).len() > 0);
                    assert(entries@.skip(i as int)[0] == entries@[i as int]);
                    if entries[i].0 == wanted {
                        return Some(&entries[i].1);
                    }
                    assert(entries@.skip(i as int).drop_first() == entries@.skip(i as int + 1));
                    i += 1;
                }
                None
            },
            _ => None,
        }
    }

    /// The strings of this array, in their order; empty where this is no
    /// array.
    pub fn strings(&self) -> (names: Vec<String>)
        ensures
            names.deep_view() == self.texts(),
    {
        let mut names: Vec<String> = Vec::new();
        match self {
            TomlValue::Array(items) => {
                let mut i: usize = 0;
                while i < items.len()
                    invariant
                        i <= items.len(),
                        names.deep_view() == texts_among(items@.take(i as int)),
                    decreases items.len() - i,
                {
                    assert(items@.take(i as int + 1).drop_last() == items@.take(i as int));
                    match &items[i] {
                        TomlValue::Text(s) => {
                            let ghost before = names.deep_view();
                            names.push(s.clone());
                            assert(names.deep_view() == before.push(s@));
                        },
                        _ => {},
                    }
                    i += 1;
                }
                assert(items@.take(items.len() as int) == items@);
            },
            _ => {},
        }
        names
    }
}

/// The member directories that the document declares: the strings of the
/// array `members` of the table `workspace`, in their order. Empty where
/// the document has no such array.
pub open spec fn member_names(doc: TomlValue) -> Seq<Seq<char>> {
    match doc.entry("workspace"@) {
        Some(workspace) => match workspace.entry("members"@) {
            Some(members) => members.texts(),
            None => Seq::empty(),
        },
        None => Seq::empty(),
    }
}

/// The member directories that the document declares.
pub fn declared_members(doc: &TomlValue) -> (names: Vec<String>)
    ensures
        names.deep_view() == member_names(*doc),
{
    match doc.get("workspace") {
        Some(workspace) => match workspace.get("members") {
            Some(members) => members.strings(),
            None => Vec::new(),
        },
        None => Vec::new(),
    }
}

/// The workspace manifest at the root, as far as it could be read.
#[derive(Debug)]
pub enum Manifest {
    /// There is no manifest, or it could not be read.
    Missing,
    /// There is one, and it is not well-formed TOML.
    Malformed,
    /// There is one, and this is what it holds.
    Document(TomlValue),
}

/// The manifest that the text of the manifest file stands for; `None` is the
/// file that is not there.
pub open spec fn manifest_from(text: Option<Seq<char>>) -> Manifest {
    match text {
        None => Manifest::Missing,
        Some(t) => match parsed_document(t) {
            Some(doc) => Manifest::Document(doc),
            None => Manifest::Malformed,
        },
    }
}

/// Reads the manifest from the text of the manifest file; `None` is the file
/// that is not there.
pub fn read_manifest(text: Option<&str>) -> (manifest: Manifest)
    ensures
        manifest == manifest_from(text_view(text)),
{
    match text {
        None => Manifest::Missing,
        Some(t) => match parse_toml(t) {
            Some(doc) => Manifest::Document(doc),
            None => Manifest::Malformed,
        },
    }
}

} // verus!
