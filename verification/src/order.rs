//! The order in which scanned directories are visited: lexicographic by the
//! bytes of the path's UTF-8 encoding.

use vstd::prelude::*;
use vstd::utf8::*;

verus! {

/// `a` is at most `b` from position `i` on, the two agreeing before `i`:
/// the first position at which they differ decides, and where there is none
/// the shorter one comes first.
pub open spec fn bytes_le_from(a: Seq<u8>, b: Seq<u8>, i: int) -> bool
    decreases a.len() - i,
{
    if i < 0 || i >= a.len() {
        true
    } else if i >= b.len() {
        false
    } else if a[i] != b[i] {
        a[i] < b[i]
    } else {
        bytes_le_from(a, b, i + 1)
    }
}

/// Lexicographic "at most" on byte strings.
pub open spec fn bytes_le(a: Seq<u8>, b: Seq<u8>) -> bool {
    bytes_le_from(a, b, 0)
}

/// `a` is visited no later than `b`.
pub open spec fn precedes(a: Seq<char>, b: Seq<char>) -> bool {
    bytes_le(encode_utf8(a), encode_utf8(b))
}

/// `a` is visited before `b`.
pub open spec fn strictly_precedes(a: Seq<char>, b: Seq<char>) -> bool {
    precedes(a, b) && a != b
}

/// Every element is visited before each later one.
pub open spec fn strictly_ascending(paths: Seq<Seq<char>>) -> bool {
    forall|i: int, j: int|
        0 <= i < j < paths.len() ==> strictly_precedes(#[trigger] paths[i], #[trigger] paths[j])
}

proof fn lemma_le_from_reflexive(a: Seq<u8>, i: int)
    ensures
        bytes_le_from(a, a, i),
    decreases a.len() - i,
{
    if 0 <= i < a.len() {
        lemma_le_from_reflexive(a, i + 1);
    }
}

proof fn lemma_le_from_total(a: Seq<u8>, b: Seq<u8>, i: int)
    ensures
        bytes_le_from(a, b, i) || bytes_le_from(b, a, i),
    decreases a.len() - i,
{
    if 0 <= i < a.len() && i < b.len() && a[i] == b[i] {
        lemma_le_from_total(a, b, i + 1);
    }
}

proof fn lemma_le_from_antisymmetric(a: Seq<u8>, b: Seq<u8>, i: int)
    requires
        0 <= i <= a.len(),
        i <= b.len(),
        bytes_le_from(a, b, i),
        bytes_le_from(b, a, i),
    ensures
        a.len() == b.len(),
        forall|k: int| i <= k < a.len() ==> a[k] == b[k],
    decreases a.len() - i,
{
    if i < a.len() {
        lemma_le_from_antisymmetric(a, b, i + 1);
    }
}

proof fn lemma_le_from_transitive(a: Seq<u8>, b: Seq<u8>, c: Seq<u8>, i: int)
    requires
        0 <= i,
        bytes_le_from(a, b, i),
        bytes_le_from(b, c, i),
    ensures
        bytes_le_from(a, c, i),
    decreases a.len() - i,
{
    if i < a.len() && a[i] == b[i] && b[i] == c[i] {
        lemma_le_from_transitive(a, b, c, i + 1);
    }
}

/// Every path is visited no later than itself.
pub proof fn lemma_precedes_reflexive(a: Seq<char>)
    ensures
        precedes(a, a),
{
    lemma_le_from_reflexive(encode_utf8(a), 0);
}

/// Of two paths, one is visited no later than the other.
pub proof fn lemma_precedes_total(a: Seq<char>, b: Seq<char>)
    ensures
        precedes(a, b) || precedes(b, a),
{
    lemma_le_from_total(encode_utf8(a), encode_utf8(b), 0);
}

/// Two paths of which each is visited no later than the other are one path.
pub proof fn lemma_precedes_antisymmetric(a: Seq<char>, b: Seq<char>)
    requires
        precedes(a, b),
        precedes(b, a),
    ensures
        a == b,
{
    lemma_le_from_antisymmetric(encode_utf8(a), encode_utf8(b), 0);
    assert(encode_utf8(a) =~= encode_utf8(b));
    encode_utf8_decode_utf8(a);
    encode_utf8_decode_utf8(b);
}

/// What is no later than a path that is no later than a third is no later
/// than the third.
pub proof fn lemma_precedes_transitive(a: Seq<char>, b: Seq<char>, c: Seq<char>)
    requires
        precedes(a, b),
        precedes(b, c),
    ensures
        precedes(a, c),
{
    lemma_le_from_transitive(encode_utf8(a), encode_utf8(b), encode_utf8(c), 0);
}

/// A path that comes before one that is no later than a third comes before
/// the third.
pub proof fn lemma_strictly_then_precedes(a: Seq<char>, b: Seq<char>, c: Seq<char>)
    requires
        strictly_precedes(a, b),
        precedes(b, c),
    ensures
        strictly_precedes(a, c),
{
    lemma_precedes_transitive(a, b, c);
    if a == c {
        lemma_precedes_antisymmetric(a, b);
    }
}

/// Two strictly ascending lists that hold the same paths are one list: the
/// paths that a list holds fix the order in which it is visited.
pub proof fn lemma_ascending_unique(s: Seq<Seq<char>>, t: Seq<Seq<char>>)
    requires
        strictly_ascending(s),
        strictly_ascending(t),
        forall|p: Seq<char>| s.contains(p) <==> t.contains(p),
    ensures
        s == t,
    decreases s.len(),
{
    if s.len() == 0 {
        if t.len() > 0 {
            assert(t.contains(t[0]));
        }
        assert(s =~= t);
    } else {
        assert(s.contains(s[0]));
        assert(t.contains(s[0]));
        let j = choose|j: int| 0 <= j < t.len() && t[j] == s[0];
        assert(t.contains(t[0]));
        assert(s.contains(t[0]));
        let i = choose|i: int| 0 <= i < s.len() && s[i] == t[0];
        if i > 0 {
            // s[0] comes before s[i] = t[0], and t[0] is no later than t[j] = s[0].
            if j > 0 {
                lemma_precedes_antisymmetric(s[0], t[0]);
            }
        }
        assert(s[0] == t[0]);
        let s1 = s.drop_first();
        let t1 = t.drop_first();
        assert forall|p: Seq<char>| s1.contains(p) <==> t1.contains(p) by {
            if s1.contains(p) {
                let k = choose|k: int| 0 <= k < s1.len() && s1[k] == p;
                assert(s[k + 1] == p);
                assert(s.contains(p));
                let m = choose|m: int| 0 <= m < t.len() && t[m] == p;
                assert(strictly_precedes(s[0], s[k + 1]));
                assert(m > 0);
                assert(t1[m - 1] == p);
            }
            if t1.contains(p) {
                let k = choose|k: int| 0 <= k < t1.len() && t1[k] == p;
                assert(t[k + 1] == p);
                assert(t.contains(p));
                let m = choose|m: int| 0 <= m < s.len() && s[m] == p;
                assert(strictly_precedes(t[0], t[k + 1]));
                assert(m > 0);
                assert(s1[m - 1] == p);
            }
        }
        assert(strictly_ascending(s1)) by {
            assert forall|a: int, b: int| 0 <= a < b < s1.len() implies strictly_precedes(
                #[trigger] s1[a],
                #[trigger] s1[b],
            ) by {
                assert(strictly_precedes(s[a + 1], s[b + 1]));
            }
        }
        assert(strictly_ascending(t1)) by {
            assert forall|a: int, b: int| 0 <= a < b < t1.len() implies strictly_precedes(
                #[trigger] t1[a],
                #[trigger] t1[b],
            ) by {
                assert(strictly_precedes(t[a + 1], t[b + 1]));
            }
        }
        lemma_ascending_unique(s1, t1);
        assert(s =~= seq![s[0]] + s1);
        assert(t =~= seq![t[0]] + t1);
    }
}

/// Whether `a` is visited no later than `b`.
pub fn path_le(a: &str, b: &str) -> (r: bool)
    ensures
        r == precedes(a@, b@),
{
    let x = a.as_bytes();
    let y = b.as_bytes();
    let mut i: usize = 0;
    while i < x.len() && i < y.len() && x[i] == y[i]
        invariant
            i <= x.len(),
            i <= y.len(),
            x@ == encode_utf8(a@),
            y@ == encode_utf8(b@),
            bytes_le(x@, y@) == bytes_le_from(x@, y@, i as int),
        decreases x.len() - i,
    {
        i += 1;
    }
    if i >= x.len() {
        true
    } else if i >= y.len() {
        false
    } else {
        x[i] < y[i]
    }
}

} // verus!
