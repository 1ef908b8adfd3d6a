//! The distance between a query and a corpus entry, and the search for the
//! entry closest to a query.

use vstd::prelude::*;

use crate::text::chars_of;

verus! {

/// `|x - y|`.
pub open spec fn abs_diff(x: nat, y: nat) -> nat {
    if x >= y {
        (x - y) as nat
    } else {
        (y - x) as nat
    }
}

/// The number of positions `i < n` at which `a[i] != b[i]`.
pub open spec fn mismatches_upto(a: Seq<char>, b: Seq<char>, n: int) -> nat
    decreases n,
{
    if n <= 0 {
        0
    } else {
        mismatches_upto(a, b, n - 1) + if a[n - 1] != b[n - 1] {
            1nat
        } else {
            0nat
        }
    }
}

/// The number of aligned positions, up to the shorter length, at which `a`
/// and `b` hold different characters.
pub open spec fn mismatches(a: Seq<char>, b: Seq<char>) -> nat {
    mismatches_upto(a, b, if a.len() <= b.len() { a.len() as int } else { b.len() as int })
}

/// The distance from `a` to `b`: the difference of their lengths in
/// characters plus the number of aligned positions where they differ.
/// This is no edit distance: characters are never realigned.
pub open spec fn raw_distance(a: Seq<char>, b: Seq<char>) -> nat {
    abs_diff(a.len(), b.len()) + mismatches(a, b)
}

/// Whether `k` is the index that a scan of `corpus` picks for `query`.
///
/// An entry is only picked when its distance is below the query's length;
/// then the first entry of least distance wins. When no entry is that close,
/// the first entry stands.
pub open spec fn is_closest(query: Seq<char>, corpus: Seq<Seq<char>>, k: int) -> bool {
    &&& 0 <= k < corpus.len()
    &&& if exists|i: int| 0 <= i < corpus.len() && raw_distance(query, corpus[i]) < query.len() {
        &&& forall|j: int|
            0 <= j < corpus.len() ==> raw_distance(query, corpus[k]) <= raw_distance(
                query,
                #[trigger] corpus[j],
            )
        &&& forall|j: int|
            0 <= j < k ==> raw_distance(query, corpus[k]) < raw_distance(query, #[trigger] corpus[j])
    } else {
        k == 0
    }
}

/// For a given query and corpus, at most one index is the closest: a search
/// gives the same answer every time it is asked.
pub proof fn lemma_closest_unique(query: Seq<char>, corpus: Seq<Seq<char>>, k1: int, k2: int)
    requires
        is_closest(query, corpus, k1),
        is_closest(query, corpus, k2),
    ensures
        k1 == k2,
{
    if exists|i: int| 0 <= i < corpus.len() && raw_distance(query, corpus[i]) < query.len() {
        if k1 < k2 {
            assert(raw_distance(query, corpus[k2]) < raw_distance(query, corpus[k1]));
        } else if k2 < k1 {
            assert(raw_distance(query, corpus[k1]) < raw_distance(query, corpus[k2]));
        }
    }
}

/// Of equal entries, the closest is always the first: no entry before the
/// closest one holds the same string.
pub proof fn lemma_closest_first_occurrence(query: Seq<char>, corpus: Seq<Seq<char>>, k: int, j: int)
    requires
        is_closest(query, corpus, k),
        0 <= j < k,
    ensures
        corpus[j] != corpus[k],
{
    if exists|i: int| 0 <= i < corpus.len() && raw_distance(query, corpus[i]) < query.len() {
        assert(raw_distance(query, corpus[k]) < raw_distance(query, corpus[j]));
    }
}

/// The distance from `a` to `b` (see `raw_distance`).
pub fn distance(a: &str, b: &str) -> (d: usize)
    ensures
        d == raw_distance(a@, b@),
{
    let av = chars_of(a);
    let bv = chars_of(b);
    let n: usize = if av.len() <= bv.len() { av.len() } else { bv.len() };
    let mut count: usize = 0;
    let mut i: usize = 0;
    while i < n
        invariant
            av@ == a@,
            bv@ == b@,
            n <= av.len(),
            n <= bv.len(),
            n == av.len() || n == bv.len(),
            i <= n,
            count == mismatches_upto(a@, b@, i as int),
            count <= i,
        decreases n - i,
    {
        if av[i] != bv[i] {
            count = count + 1;
        }
        i = i + 1;
    }
    let diff: usize = if av.len() >= bv.len() { av.len() - bv.len() } else { bv.len() - av.len() };
    diff + count
}

/// The index of the entry of `corpus` that a scan picks for `query` (see
/// `is_closest`).
fn closest_index(query: &str, corpus: &[String]) -> (k: usize)
    requires
        corpus@.len() > 0,
    ensures
        is_closest(query@, corpus@.map_values(|s: String| s@), k as int),
{
    let ghost c = corpus@.map_values(|s: String| s@);
    let qlen: usize = chars_of(query).len();
    let mut best: usize = 0;
    let mut best_distance: usize = qlen;
    let mut i: usize = 0;
    while i < corpus.len()
        invariant
            c == corpus@.map_values(|s: String| s@),
            qlen == query@.len(),
            0 < corpus@.len(),
            i <= corpus@.len(),
            best < corpus@.len(),
            best_distance <= qlen,
            forall|j: int| 0 <= j < i ==> best_distance <= raw_distance(query@, #[trigger] c[j]),
            best_distance < qlen ==> {
                &&& best < i
                &&& best_distance == raw_distance(query@, c[best as int])
                &&& forall|j: int|
                    0 <= j < best ==> best_distance < raw_distance(query@, #[trigger] c[j])
            },
            best_distance == qlen ==> best == 0,
        decreases corpus@.len() - i,
    {
        let d = distance(query, corpus[i].as_str());
        if d < best_distance {
            best = i;
            best_distance = d;
        }
        i = i + 1;
    }
    proof {
        if exists|j: int| 0 <= j < c.len() && raw_distance(query@, c[j]) < query@.len() {
            let j = choose|j: int| 0 <= j < c.len() && raw_distance(query@, c[j]) < query@.len();
            assert(best_distance <= raw_distance(query@, c[j]));
        }
    }
    best
}

/// The entry of `corpus` closest to `query`, as a string of its own.
pub fn find_closest_str(query: &str, corpus: &[String]) -> (r: String)
    requires
        corpus@.len() > 0,
    ensures
        exists|k: int| is_closest(query@, corpus@.map_values(|s: String| s@), k) && r@ == corpus@[k]@,
{
    let k = closest_index(query, corpus);
    corpus[k].clone()
}

} // verus!
