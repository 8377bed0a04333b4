//! Nearest-hit selection over a scene scanned in order.
//!
//! Each sphere of the scene contributes one candidate: `None` when the ray
//! misses it within the accepted range, `Some(k)` when it meets it, where `k`
//! is an order key of the hit distance (a larger key is a farther hit).
use vstd::prelude::*;

verus! {

/// The key of a candidate that is known to be a hit.
pub open spec fn key(c: Option<u64>) -> u64 {
    c->Some_0
}

/// No sphere of the scene is hit.
pub open spec fn no_hit(hits: Seq<Option<u64>>) -> bool {
    forall|j: int| 0 <= j < hits.len() ==> (#[trigger] hits[j]) is None
}

/// Position `i` holds the hit that the scene reports: no hit lies nearer, and
/// every hit before it in scene order lies strictly farther.
pub open spec fn is_nearest(hits: Seq<Option<u64>>, i: int) -> bool {
    &&& 0 <= i < hits.len()
    &&& hits[i] is Some
    &&& forall|j: int|
        0 <= j < hits.len() && (#[trigger] hits[j]) is Some ==> key(hits[i]) <= key(hits[j])
    &&& forall|j: int| 0 <= j < i && (#[trigger] hits[j]) is Some ==> key(hits[i]) < key(hits[j])
}

/// Scans the candidates in scene order and keeps a hit only when it is
/// strictly nearer than the best one so far, so the first of equal hits wins.
pub fn nearest_hit(hits: &Vec<Option<u64>>) -> (r: Option<usize>)
    ensures
        r is None <==> no_hit(hits@),
        r matches Some(i) ==> is_nearest(hits@, i as int),
{
    let mut best: Option<usize> = None;
    let mut best_key: u64 = 0;
    let mut i: usize = 0;
    while i < hits.len()
        invariant
            0 <= i <= hits.len(),
            best is None ==> forall|j: int| 0 <= j < i ==> (#[trigger] hits@[j]) is None,
            best matches Some(b) ==> {
                &&& b < i
                &&& hits@[b as int] == Some(best_key)
                &&& forall|j: int|
                    0 <= j < i && (#[trigger] hits@[j]) is Some ==> best_key <= key(hits@[j])
                &&& forall|j: int|
                    0 <= j < b && (#[trigger] hits@[j]) is Some ==> best_key < key(hits@[j])
            },
        decreases hits.len() - i,
    {
        if let Some(k) = hits[i] {
            let closer = match best {
                None => true,
                Some(_) => k < best_key,
            };
            if closer {
                best = Some(i);
                best_key = k;
            }
        }
        i += 1;
    }
    best
}

/// The scene's answer does not depend on the order in which its spheres are
/// listed: two orderings of the same candidates either both report no hit,
/// or report hits at the same distance.
pub proof fn lemma_nearest_ignores_order(a: Seq<Option<u64>>, b: Seq<Option<u64>>)
    requires
        a.to_multiset() =~= b.to_multiset(),
    ensures
        no_hit(a) <==> no_hit(b),
        forall|i: int, j: int| is_nearest(a, i) && is_nearest(b, j) ==> a[i] == b[j],
{
    a.to_multiset_ensures();
    b.to_multiset_ensures();
    if !no_hit(a) {
        let i = choose|i: int| 0 <= i < a.len() && (#[trigger] a[i]) is Some;
        assert(a.contains(a[i]));
        assert(b.to_multiset().count(a[i]) > 0);
    }
    if !no_hit(b) {
        let j = choose|j: int| 0 <= j < b.len() && (#[trigger] b[j]) is Some;
        assert(b.contains(b[j]));
        assert(a.to_multiset().count(b[j]) > 0);
    }
    assert forall|i: int, j: int| is_nearest(a, i) && is_nearest(b, j) implies a[i] == b[j] by {
        assert(a.contains(a[i]));
        assert(b.to_multiset().count(a[i]) > 0);
        assert(b.contains(a[i]));
        let k = choose|k: int| 0 <= k < b.len() && b[k] == a[i];
        assert(b[k] is Some);
        assert(b.contains(b[j]));
        assert(a.to_multiset().count(b[j]) > 0);
        assert(a.contains(b[j]));
        let l = choose|l: int| 0 <= l < a.len() && a[l] == b[j];
        assert(a[l] is Some);
    }
}

} // verus!
