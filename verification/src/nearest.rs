//! Selection of the nearest candidate along a ray.
//!
//! A ray meets each object of a scene at some distance or not at all. What is
//! selected depends only on how the distances are ordered, so a distance is
//! given here by a key: an integer that is smaller exactly when the distance
//! is. An object that the ray misses has no key.

use vstd::prelude::*;

verus! {

/// Whether entry `k` takes part in the selection: it holds a key, and the key
/// is below `bound`.
pub open spec fn is_candidate(keys: Seq<Option<u64>>, bound: u64, k: int) -> bool {
    0 <= k < keys.len() && keys[k] is Some && keys[k].unwrap() < bound
}

/// Whether entry `k` is the one selected: a candidate whose key no candidate
/// undercuts and no earlier candidate equals.
pub open spec fn is_nearest(keys: Seq<Option<u64>>, bound: u64, k: int) -> bool {
    &&& is_candidate(keys, bound, k)
    &&& forall|j: int| #[trigger]
        is_candidate(keys, bound, j) ==> keys[k].unwrap() <= keys[j].unwrap()
    &&& forall|j: int| #[trigger]
        is_candidate(keys, bound, j) && j < k ==> keys[k].unwrap() < keys[j].unwrap()
}

/// At most one entry is selected.
pub proof fn lemma_nearest_unique(keys: Seq<Option<u64>>, bound: u64, a: int, b: int)
    requires
        is_nearest(keys, bound, a),
        is_nearest(keys, bound, b),
    ensures
        a == b,
{
}

/// The selected key does not depend on the order of the entries: two
/// arrangements of the same entries select equal keys.
pub proof fn lemma_nearest_key_ignores_order(
    first: Seq<Option<u64>>,
    second: Seq<Option<u64>>,
    bound: u64,
    a: int,
    b: int,
)
    requires
        first.to_multiset() == second.to_multiset(),
        is_nearest(first, bound, a),
        is_nearest(second, bound, b),
    ensures
        first[a] == second[b],
{
    first.to_multiset_ensures();
    second.to_multiset_ensures();
    assert(first.contains(first[a]));
    assert(second.to_multiset().count(first[a]) > 0);
    assert(second.contains(first[a]));
    let at_second = choose|j: int| 0 <= j < second.len() && second[j] == first[a];
    assert(is_candidate(second, bound, at_second));
    assert(second.contains(second[b]));
    assert(first.to_multiset().count(second[b]) > 0);
    assert(first.contains(second[b]));
    let at_first = choose|j: int| 0 <= j < first.len() && first[j] == second[b];
    assert(is_candidate(first, bound, at_first));
}

/// Finds the first entry with the least key below `bound`, scanning once from
/// the front; `None` when no entry has a key below `bound`.
pub fn nearest(keys: &Vec<Option<u64>>, bound: u64) -> (found: Option<usize>)
    ensures
        match found {
            Some(k) => is_nearest(keys@, bound, k as int),
            None => forall|j: int| !is_candidate(keys@, bound, j),
        },
{
    let mut least: u64 = bound;
    let mut found: Option<usize> = None;
    let mut next: usize = 0;
    while next < keys.len()
        invariant
            next <= keys@.len(),
            match found {
                Some(k) => k < next && is_nearest(keys@.take(next as int), bound, k as int)
                    && keys@[k as int] == Some(least),
                None => least == bound && forall|j: int|
                    !is_candidate(keys@.take(next as int), bound, j),
            },
        decreases keys@.len() - next,
    {
        let ghost before = keys@.take(next as int);
        let ghost after = keys@.take(next + 1);
        proof {
            assert forall|j: int| is_candidate(after, bound, j) && j < next implies is_candidate(
                before,
                bound,
                j,
            ) by {}
            assert forall|j: int| is_candidate(before, bound, j) implies is_candidate(
                after,
                bound,
                j,
            ) by {}
        }
        match keys[next] {
            Some(key) => {
                if key < least {
                    least = key;
                    found = Some(next);
                }
            },
            None => {},
        }
        next = next + 1;
    }
    assert(keys@.take(next as int) =~= keys@);
    found
}

} // verus!
