//! Dropping repeated directories: every directory is kept where it first
//! occurs.

use vstd::prelude::*;

verus! {

/// `paths` without repetitions: what occurred earlier is left out, the rest
/// keeps its order.
pub open spec fn distinct(paths: Seq<Seq<char>>) -> Seq<Seq<char>>
    decreases paths.len(),
{
    if paths.len() == 0 {
        Seq::empty()
    } else {
        let before = distinct(paths.drop_last());
        if before.contains(paths.last()) {
            before
        } else {
            before.push(paths.last())
        }
    }
}

/// `distinct` keeps every path and adds none.
pub proof fn lemma_distinct_same_paths(paths: Seq<Seq<char>>, p: Seq<char>)
    ensures
        distinct(paths).contains(p) <==> paths.contains(p),
    decreases paths.len(),
{
    if paths.len() > 0 {
        let init = paths.drop_last();
        let last = paths.last();
        lemma_distinct_same_paths(init, p);
        let before = distinct(init);
        if paths.contains(p) {
            let i = choose|i: int| 0 <= i < paths.len() && paths[i] == p;
            if i < paths.len() - 1 {
                assert(init[i] == p);
                assert(init.contains(p));
                assert(before.contains(p));
                if !before.contains(last) {
                    let j = choose|j: int| 0 <= j < before.len() && before[j] == p;
                    assert(before.push(last)[j] == p);
                }
            } else {
                if !before.contains(last) {
                    assert(before.push(last)[before.len() as int] == p);
                }
            }
            assert(distinct(paths).contains(p));
        }
        if distinct(paths).contains(p) {
            let j = choose|j: int| 0 <= j < distinct(paths).len() && distinct(paths)[j] == p;
            if j < before.len() {
                assert(before[j] == p);
                assert(before.contains(p));
                assert(init.contains(p));
                let i = choose|i: int| 0 <= i < init.len() && init[i] == p;
                assert(paths[i] == p);
            } else {
                assert(p == last);
                assert(paths[paths.len() - 1] == p);
            }
            assert(paths.contains(p));
        }
    }
}

/// No path occurs twice in `distinct(paths)`.
pub proof fn lemma_distinct_no_duplicates(paths: Seq<Seq<char>>)
    ensures
        distinct(paths).no_duplicates(),
    decreases paths.len(),
{
    if paths.len() > 0 {
        lemma_distinct_no_duplicates(paths.drop_last());
    }
}

/// A list in which no path occurs twice is left as it is.
pub proof fn lemma_distinct_keeps_duplicate_free(paths: Seq<Seq<char>>)
    requires
        paths.no_duplicates(),
    ensures
        distinct(paths) == paths,
    decreases paths.len(),
{
    if paths.len() > 0 {
        let init = paths.drop_last();
        lemma_distinct_keeps_duplicate_free(init);
        if init.contains(paths.last()) {
            let i = choose|i: int| 0 <= i < init.len() && init[i] == paths.last();
            assert(paths[i] == paths[paths.len() - 1]);
        }
        assert(init.push(paths.last()) == paths);
    }
}

/// Dropping repetitions a second time changes nothing.
pub proof fn lemma_distinct_idempotent(paths: Seq<Seq<char>>)
    ensures
        distinct(distinct(paths)) == distinct(paths),
{
    lemma_distinct_no_duplicates(paths);
    lemma_distinct_keeps_duplicate_free(distinct(paths));
}

/// Whether `wanted` is among `paths`.
pub fn contains_path(paths: &Vec<String>, wanted: &String) -> (found: bool)
    ensures
        found == paths.deep_view().contains(wanted@),
{
    let mut i: usize = 0;
    while i < paths.len()
        invariant
            i <= paths.len(),
            forall|j: int| 0 <= j < i ==> paths.deep_view()[j] != wanted@,
        decreases paths.len() - i,
    {
        if paths[i] == *wanted {
            assert(paths.deep_view()[i as int] == wanted@);
            return true;
        }
        i += 1;
    }
    false
}

/// `paths` without repetitions, each path where it first occurs.
pub fn drop_repeated(paths: &Vec<String>) -> (kept: Vec<String>)
    ensures
        kept.deep_view() == distinct(paths.deep_view()),
{
    let mut kept: Vec<String> = Vec::new();
    let mut i: usize = 0;
    while i < paths.len()
        invariant
            i <= paths.len(),
            kept.deep_view() == distinct(paths.deep_view().take(i as int)),
        decreases paths.len() - i,
    {
        assert(paths.deep_view().take(i as int + 1).drop_last() == paths.deep_view().take(
            i as int,
        ));
        assert(paths.deep_view().take(i as int + 1).last() == paths[i as int]@);
        if !contains_path(&kept, &paths[i]) {
            let ghost before = kept.deep_view();
            kept.push(paths[i].clone());
            assert(kept.deep_view() == before.push(paths[i as int]@));
        }
        i += 1;
    }
    assert(paths.deep_view().take(paths.len() as int) == paths.deep_view());
    kept
}

} // verus!
