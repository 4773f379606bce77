//! Finding the directories to visit. The manifest's declaration of members
//! comes first; only where there is none, the scan of the root decides.

use vstd::prelude::*;
use crate::distinct::{
    distinct, drop_repeated, lemma_distinct_keeps_duplicate_free, lemma_distinct_no_duplicates,
};
use crate::error::ErrorKind;
use crate::manifest::{declared_members, manifest_from, member_names, read_manifest, Manifest, TomlValue};
use crate::order::{strictly_ascending, strictly_precedes};
use crate::paths::{adjoin, adjoined, text_view};
use crate::scan::{has_crate_at, is_selection, select_crates, ScanEntry};

verus! {

/// Each of `names` adjoined to `root`, in the order of `names`.
pub open spec fn joined_each(root: Seq<char>, names: Seq<Seq<char>>) -> Seq<Seq<char>> {
    Seq::new(names.len(), |i: int| adjoined(root, names[i]))
}

/// Each of `names` adjoined to `root`, in the order of `names`.
pub fn join_each(root: &str, names: &Vec<String>) -> (paths: Vec<String>)
    ensures
        paths.deep_view() == joined_each(root@, names.deep_view()),
{
    let mut paths: Vec<String> = Vec::new();
    let mut i: usize = 0;
    while i < names.len()
        invariant
            i <= names.len(),
            paths.len() == i,
            forall|j: int|
                0 <= j < i ==> (#[trigger] paths[j])@ == adjoined(root@, names[j]@),
        decreases names.len() - i,
    {
        paths.push(adjoin(root, names[i].as_str()));
        i += 1;
    }
    assert(paths.deep_view() =~= joined_each(root@, names.deep_view()));
    paths
}

/// The directories that the manifest declares, if it declares any: its
/// members adjoined to the root, in the declared order, each where it first
/// occurs.
pub open spec fn declared(root: Seq<char>, manifest: Manifest) -> Option<Seq<Seq<char>>> {
    match manifest {
        Manifest::Document(doc) => if member_names(doc).len() > 0 {
            Some(distinct(joined_each(root, member_names(doc))))
        } else {
            None
        },
        _ => None,
    }
}

/// The directories that the manifest declares, or `None` where it declares
/// none: where there is no manifest, where it is malformed, and where it
/// names no member.
pub fn declared_directories(root: &str, manifest: &Manifest) -> (dirs: Option<Vec<String>>)
    ensures
        dirs.deep_view() == declared(root@, *manifest),
{
    match manifest {
        Manifest::Document(doc) => {
            let names = declared_members(doc);
            if names.len() > 0 {
                let joined = join_each(root, &names);
                Some(drop_repeated(&joined))
            } else {
                None
            }
        },
        _ => None,
    }
}

/// The outcome of discovery.
#[derive(Debug)]
pub struct Resolution {
    /// The directories to visit, in the order of the visit.
    pub directories: Vec<String>,
    /// What stood in the way of discovery, if anything did. It stops nothing.
    pub warning: Option<ErrorKind>,
}

/// The view of a scan that may be missing.
pub open spec fn scan_view(scan: Option<&Vec<ScanEntry>>) -> Option<Seq<ScanEntry>> {
    match scan {
        Some(entries) => Some(entries@),
        None => None,
    }
}

/// What stands in the way of discovery. Nothing, where the manifest declares
/// members. Else `DiscoveryUnavailable` where the root could not be scanned,
/// and `ManifestParseError` where it could and the manifest is malformed.
pub open spec fn warning_for(declares: bool, manifest: Manifest, scanned: bool) -> Option<
    ErrorKind,
> {
    if declares {
        None
    } else if !scanned {
        Some(ErrorKind::DiscoveryUnavailable)
    } else if manifest is Malformed {
        Some(ErrorKind::ManifestParseError)
    } else {
        None
    }
}

/// Whether `found` is the outcome of discovery below `root`, with the given
/// manifest and with `scan` as what the scan of the root found (`None`: the
/// root could not be read). The declared members are visited where there
/// are any; else the crates that the scan found; else nothing.
pub open spec fn is_resolution(
    root: Seq<char>,
    manifest: Manifest,
    scan: Option<Seq<ScanEntry>>,
    found: Resolution,
) -> bool {
    &&& found.warning == warning_for(declared(root, manifest) is Some, manifest, scan is Some)
    &&& match declared(root, manifest) {
        Some(dirs) => found.directories.deep_view() == dirs,
        None => match scan {
            Some(entries) => is_selection(entries, found.directories.deep_view()),
            None => found.directories.deep_view() == Seq::<Seq<char>>::empty(),
        },
    }
}

/// Discovery, from a manifest that has been read.
pub fn resolve_with(root: &str, manifest: &Manifest, scan: Option<&Vec<ScanEntry>>) -> (found:
    Resolution)
    ensures
        is_resolution(root@, *manifest, scan_view(scan), found),
{
    match declared_directories(root, manifest) {
        Some(dirs) => Resolution { directories: dirs, warning: None },
        None => match scan {
            Some(entries) => {
                let warning = match manifest {
                    Manifest::Malformed => Some(ErrorKind::ManifestParseError),
                    _ => None,
                };
                Resolution { directories: select_crates(entries), warning }
            },
            None => {
                let directories: Vec<String> = Vec::new();
                assert(directories.deep_view() =~= Seq::<Seq<char>>::empty());
                Resolution { directories, warning: Some(ErrorKind::DiscoveryUnavailable) }
            },
        },
    }
}

/// Discovery below `root`. `manifest_text` is the text of the manifest file
/// at the root (`None`: there is none), `scan` what a walk below the root
/// found (`None`: the root could not be read).
pub fn resolve(root: &str, manifest_text: Option<&str>, scan: Option<&Vec<ScanEntry>>) -> (found:
    Resolution)
    ensures
        is_resolution(root@, manifest_from(text_view(manifest_text)), scan_view(scan), found),
{
    let manifest = read_manifest(manifest_text);
    resolve_with(root, &manifest, scan)
}

/// Where the manifest declares members, they are what is visited, in the
/// declared order and each once, whatever the scan found; and where no
/// member is declared twice, the visit is the declaration itself.
pub proof fn lemma_declaration_shadows_scan(
    root: Seq<char>,
    doc: TomlValue,
    scan: Option<Seq<ScanEntry>>,
    found: Resolution,
)
    requires
        member_names(doc).len() > 0,
        is_resolution(root, Manifest::Document(doc), scan, found),
    ensures
        found.directories.deep_view() == distinct(joined_each(root, member_names(doc))),
        joined_each(root, member_names(doc)).no_duplicates() ==> found.directories.deep_view()
            == joined_each(root, member_names(doc)),
        found.warning is None,
{
    if joined_each(root, member_names(doc)).no_duplicates() {
        lemma_distinct_keeps_duplicate_free(joined_each(root, member_names(doc)));
    }
}

/// Where the manifest declares nothing, exactly the crates among the scanned
/// entries are visited: the directories directly below the root that hold
/// the manifest file, and nothing that lies deeper or holds none.
pub proof fn lemma_scan_decides_without_declaration(
    root: Seq<char>,
    manifest: Manifest,
    entries: Seq<ScanEntry>,
    found: Resolution,
)
    requires
        declared(root, manifest) is None,
        is_resolution(root, manifest, Some(entries), found),
    ensures
        forall|p: Seq<char>|
            found.directories.deep_view().contains(p) <==> exists|i: int|
                0 <= i < entries.len() && (#[trigger] entries[i]).path@ == p && entries[i].depth
                    == 1 && entries[i].is_dir && entries[i].has_marker,
        strictly_ascending(found.directories.deep_view()),
{
    let dirs = found.directories.deep_view();
    assert forall|p: Seq<char>| dirs.contains(p) <==> exists|i: int|
        0 <= i < entries.len() && (#[trigger] entries[i]).path@ == p && entries[i].depth == 1
            && entries[i].is_dir && entries[i].has_marker by {
        if has_crate_at(entries, p) {
            let i = choose|i: int|
                0 <= i < entries.len() && (#[trigger] entries[i]).is_crate() && entries[i].path@
                    == p;
            assert(entries[i].path@ == p && entries[i].depth == 1);
        }
        if exists|i: int|
            0 <= i < entries.len() && (#[trigger] entries[i]).path@ == p && entries[i].depth == 1
                && entries[i].is_dir && entries[i].has_marker {
            let i = choose|i: int|
                0 <= i < entries.len() && (#[trigger] entries[i]).path@ == p && entries[i].depth
                    == 1 && entries[i].is_dir && entries[i].has_marker;
            assert(entries[i].is_crate());
        }
    }
}

/// No directory is visited twice, whatever the manifest and the scan hold.
pub proof fn lemma_no_directory_twice(
    root: Seq<char>,
    manifest: Manifest,
    scan: Option<Seq<ScanEntry>>,
    found: Resolution,
)
    requires
        is_resolution(root, manifest, scan, found),
    ensures
        found.directories.deep_view().no_duplicates(),
{
    let dirs = found.directories.deep_view();
    match declared(root, manifest) {
        Some(d) => {
            match manifest {
                Manifest::Document(doc) => {
                    lemma_distinct_no_duplicates(joined_each(root, member_names(doc)));
                },
                _ => {},
            }
        },
        None => {
            if scan is Some {
                assert forall|i: int, j: int|
                    0 <= i < dirs.len() && 0 <= j < dirs.len() && i != j implies dirs[i]
                    != dirs[j] by {
                    if i < j {
                        assert(strictly_precedes(dirs[i], dirs[j]));
                    } else {
                        assert(strictly_precedes(dirs[j], dirs[i]));
                    }
                }
            }
        },
    }
}

} // verus!
