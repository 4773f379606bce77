//! Paths, held as text and written with `/` between their parts.

use vstd::prelude::*;
use vstd::string::*;

verus! {

/// The file that marks a directory as a crate, and the root as a workspace.
pub const MANIFEST_FILE: &'static str = "Cargo.toml";

/// What stands between the parts of a path.
pub const SEPARATOR: char = '/';

/// Whether the path starts at the root of the file system.
pub open spec fn is_absolute(path: Seq<char>) -> bool {
    path.len() > 0 && path[0] == SEPARATOR
}

/// `child` adjoined to the path `base`. An absolute `child` stands for
/// itself, and so does any `child` beside an empty `base`. Else `child`
/// follows `base`, with one separator between them unless `base` ends in
/// one.
pub open spec fn adjoined(base: Seq<char>, child: Seq<char>) -> Seq<char> {
    if is_absolute(child) || base.len() == 0 {
        child
    } else if base.last() == SEPARATOR {
        base + child
    } else {
        base + seq![SEPARATOR] + child
    }
}

/// `child` adjoined to the path `base`.
pub fn adjoin(base: &str, child: &str) -> (joined: String)
    ensures
        joined@ == adjoined(base@, child@),
{
    if !child.is_empty() && child.get_char(0) == SEPARATOR {
        return child.to_owned();
    }
    if base.is_empty() {
        return child.to_owned();
    }
    let n = base.unicode_len();
    let mut joined = base.to_owned();
    if base.get_char(n - 1) != SEPARATOR {
        proof {
            reveal_strlit("/");
        }
        joined.append("/");
        assert(joined@ == base@ + seq![SEPARATOR]);
    }
    joined.append(child);
    joined
}

/// The view of a text that may be missing.
pub open spec fn text_view(text: Option<&str>) -> Option<Seq<char>> {
    match text {
        Some(t) => Some(t@),
        None => None,
    }
}

/// The manifest file of the directory `dir`.
pub open spec fn manifest_of(dir: Seq<char>) -> Seq<char> {
    adjoined(dir, MANIFEST_FILE@)
}

/// The path of the manifest file of the directory `dir`.
pub fn manifest_path(dir: &str) -> (path: String)
    ensures
        path@ == manifest_of(dir@),
{
    adjoin(dir, MANIFEST_FILE)
}

} // verus!
