//! The directory scan: which of the entries found below the root are crates
//! to visit, and in which order.

use vstd::prelude::*;
use crate::order::{
    lemma_ascending_unique, lemma_precedes_total, lemma_strictly_then_precedes, path_le, precedes,
    strictly_ascending, strictly_precedes,
};

verus! {

/// How far below the root a crate directory lies: the root's own children
/// are crates, the root itself and what lies deeper are not.
pub const SCAN_DEPTH: usize = 1;

/// One entry that a walk below the root came upon.
#[derive(Debug)]
pub struct ScanEntry {
    /// The entry's path.
    pub path: String,
    /// How many levels below the root it lies; the root itself has depth 0.
    pub depth: usize,
    /// Whether it is a directory.
    pub is_dir: bool,
    /// Whether it holds the manifest file.
    pub has_marker: bool,
}

impl ScanEntry {
    /// Whether the entry is a crate to visit: a directory directly below the
    /// root that holds the manifest file.
    pub open spec fn is_crate(self) -> bool {
        self.depth == SCAN_DEPTH && self.is_dir && self.has_marker
    }

    /// Whether the entry is a crate to visit.
    pub fn marks_crate(&self) -> (yes: bool)
        ensures
            yes == self.is_crate(),
    {
        self.depth == SCAN_DEPTH && self.is_dir && self.has_marker
    }
}

/// Whether some entry with the path `path` is a crate to visit.
pub open spec fn has_crate_at(entries: Seq<ScanEntry>, path: Seq<char>) -> bool {
    exists|i: int| 0 <= i < entries.len() && (#[trigger] entries[i]).is_crate() && entries[i].path@ == path
}

/// Whether `dirs` is what a scan that found `entries` visits: the paths of
/// the entries that are crates, each once, in ascending order.
pub open spec fn is_selection(entries: Seq<ScanEntry>, dirs: Seq<Seq<char>>) -> bool {
    &&& strictly_ascending(dirs)
    &&& forall|p: Seq<char>| dirs.contains(p) <==> has_crate_at(entries, p)
}

/// The entries fix what is visited: two selections from the same entries
/// are equal.
pub proof fn lemma_selection_unique(
    entries: Seq<ScanEntry>,
    first: Seq<Seq<char>>,
    second: Seq<Seq<char>>,
)
    requires
        is_selection(entries, first),
        is_selection(entries, second),
    ensures
        first == second,
{
    lemma_ascending_unique(first, second);
}

/// Puts `path` at its place in the ascending list `dirs`, unless it is there
/// already.
pub fn insert_ascending(dirs: &mut Vec<String>, path: String)
    requires
        strictly_ascending(old(dirs).deep_view()),
    ensures
        strictly_ascending(final(dirs).deep_view()),
        forall|p: Seq<char>|
            final(dirs).deep_view().contains(p) <==> (old(dirs).deep_view().contains(p) || p
                == path@),
{
    let ghost before = dirs.deep_view();
    let mut k: usize = 0;
    loop
        invariant_except_break
            k <= dirs.len(),
        invariant
            dirs.deep_view() == before,
            strictly_ascending(before),
            forall|j: int| 0 <= j < k ==> strictly_precedes(#[trigger] before[j], path@),
        ensures
            k <= dirs.len(),
            k < dirs.len() ==> precedes(path@, before[k as int]),
        decreases dirs.len() - k,
    {
        if k >= dirs.len() {
            break ;
        }
        if path_le(path.as_str(), dirs[k].as_str()) {
            break ;
        }
        proof {
            lemma_precedes_total(path@, before[k as int]);
        }
        k += 1;
    }
    if k < dirs.len() && dirs[k] == path {
        assert(before[k as int] == path@);
        assert(before.contains(path@));
        return ;
    }
    dirs.insert(k, path);
    proof {
        let after = dirs.deep_view();
        assert(after == before.insert(k as int, path@));
        assert forall|i: int, j: int| 0 <= i < j < after.len() implies strictly_precedes(
            #[trigger] after[i],
            #[trigger] after[j],
        ) by {
            if j < k {
                assert(after[i] == before[i] && after[j] == before[j]);
            } else if j == k {
                assert(after[i] == before[i]);
            } else if i < k {
                assert(after[i] == before[i] && after[j] == before[j - 1]);
            } else if i == k {
                assert(after[j] == before[j - 1]);
                assert(strictly_precedes(path@, before[k as int]));
                if j - 1 > k {
                    lemma_strictly_then_precedes(path@, before[k as int], before[j - 1]);
                }
            } else {
                assert(after[i] == before[i - 1] && after[j] == before[j - 1]);
            }
        }
        assert forall|p: Seq<char>| after.contains(p) <==> (before.contains(p) || p
            == path@) by {
            if after.contains(p) {
                let i = choose|i: int| 0 <= i < after.len() && after[i] == p;
                if i < k {
                    assert(before[i] == p);
                } else if i > k {
                    assert(before[i - 1] == p);
                }
            }
            if before.contains(p) {
                let i = choose|i: int| 0 <= i < before.len() && before[i] == p;
                if i < k {
                    assert(after[i] == p);
                } else {
                    assert(after[i + 1] == p);
                }
            }
            if p == path@ {
                assert(after[k as int] == p);
            }
        }
    }
}

/// What a scan that found `entries` visits: the paths of the entries that
/// are crates, each once, in ascending order.
pub fn select_crates(entries: &Vec<ScanEntry>) -> (dirs: Vec<String>)
    ensures
        is_selection(entries@, dirs.deep_view()),
{
    let mut dirs: Vec<String> = Vec::new();
    let mut i: usize = 0;
    while i < entries.len()
        invariant
            i <= entries.len(),
            is_selection(entries@.take(i as int), dirs.deep_view()),
        decreases entries.len() - i,
    {
        let ghost before = dirs.deep_view();
        let ghost seen = entries@.take(i as int);
        let ghost next = entries@.take(i as int + 1);
        if entries[i].marks_crate() {
            insert_ascending(&mut dirs, entries[i].path.clone());
        }
        proof {
            let after = dirs.deep_view();
            assert forall|p: Seq<char>| after.contains(p) <==> has_crate_at(next, p) by {
                if has_crate_at(next, p) {
                    let j = choose|j: int|
                        0 <= j < next.len() && (#[trigger] next[j]).is_crate() && next[j].path@
                            == p;
                    if j < i {
                        assert(seen[j].is_crate() && seen[j].path@ == p);
                    }
                }
                if has_crate_at(seen, p) {
                    let j = choose|j: int|
                        0 <= j < seen.len() && (#[trigger] seen[j]).is_crate() && seen[j].path@
                            == p;
                    assert(next[j].is_crate() && next[j].path@ == p);
                }
                if entries[i as int].is_crate() && p == entries[i as int].path@ {
                    assert(next[i as int].is_crate() && next[i as int].path@ == p);
                }
            }
        }
        i += 1;
    }
    assert(entries@.take(entries.len() as int) == entries@);
    dirs
}

} // verus!
