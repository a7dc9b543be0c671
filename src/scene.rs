use vstd::prelude::*;

verus! {

/// `hits[i]` is the nearest hit: it is present, no other hit is nearer, and
/// every hit before it is strictly farther (the first of equal hits wins).
pub open spec fn is_nearest(hits: Seq<Option<u32>>, i: int) -> bool {
    &&& 0 <= i < hits.len()
    &&& hits[i] is Some
    &&& forall|j: int| 0 <= j < hits.len() && #[trigger] hits[j] is Some ==> hits[i]->0 <= hits[j]->0
    &&& forall|j: int| 0 <= j < i && #[trigger] hits[j] is Some ==> hits[i]->0 < hits[j]->0
}

/// Picks the object that a ray meets first. `hits[i]` is the distance key of
/// object `i` along the ray, or `None` where the ray misses it; keys order as
/// the distances do (the bit patterns of positive IEEE-754 distances do).
/// Returns `None` when the ray meets no object.
pub fn nearest_hit(hits: &Vec<Option<u32>>) -> (r: Option<usize>)
    ensures
        match r {
            None => forall|j: int| 0 <= j < hits@.len() ==> #[trigger] hits@[j] is None,
            Some(i) => is_nearest(hits@, i as int),
        },
{
    let mut best: Option<usize> = None;
    let mut k: usize = 0;
    while k < hits.len()
        invariant
            k <= hits@.len(),
            match best {
                None => forall|j: int| 0 <= j < k ==> #[trigger] hits@[j] is None,
                Some(i) => i < k && is_nearest(hits@.subrange(0, k as int), i as int),
            },
        decreases hits@.len() - k,
    {
        let ghost prefix = hits@.subrange(0, k as int);
        let ghost next = hits@.subrange(0, k + 1);
        assert(forall|j: int| 0 <= j < k ==> next[j] == prefix[j]);
        match hits[k] {
            Some(d) => {
                match best {
                    None => {
                        best = Some(k);
                    },
                    Some(i) => {
                        match hits[i] {
                            Some(b) => {
                                if d < b {
                                    best = Some(k);
                                }
                            },
                            None => {},
                        }
                    },
                }
            },
            None => {},
        }
        k += 1;
    }
    assert(hits@.subrange(0, k as int) =~= hits@);
    best
}

} // verus!
