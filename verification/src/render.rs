//! The depth test of rendering: which of the objects that a ray hits is the one it shows.
use vstd::prelude::*;

verus! {

/// `depths[i]` is a hit, and no hit is nearer than it.
pub open spec fn is_nearest(depths: Seq<Option<u32>>, i: int) -> bool {
    &&& 0 <= i < depths.len()
    &&& depths[i] is Some
    &&& forall|j: int|
        0 <= j < depths.len() && #[trigger] depths[j] is Some ==> depths[i]->0 <= depths[j]->0
}

/// The depth test of a ray. `depths[i]` is the depth at which the ray hits object
/// `i`, or `None` where it misses it; a depth is any key that orders hits as their
/// distances do. The result is the object with the nearest hit, the first of them
/// where several are equally near, or `None` when the ray hits nothing.
pub fn closest_hit(depths: &[Option<u32>]) -> (nearest: Option<usize>)
    ensures
        nearest is None <==> forall|j: int| 0 <= j < depths@.len() ==> #[trigger] depths@[j] is None,
        nearest matches Some(i) ==> {
            &&& i < depths@.len()
            &&& depths@[i as int] is Some
            &&& forall|j: int|
                0 <= j < depths@.len() ==> (#[trigger] depths@[j] matches Some(d) ==> depths@[i as int]->0 <= d)
            &&& is_nearest(depths@, i as int)
            &&& forall|j: int|
                0 <= j < i ==> (#[trigger] depths@[j] matches Some(d) ==> d > depths@[i as int]->0)
        },
{
    let mut nearest: Option<usize> = None;
    let mut zbuffer: u32 = 0;
    let mut i: usize = 0;
    while i < depths.len()
        invariant
            i <= depths@.len(),
            nearest is None <==> forall|j: int| 0 <= j < i ==> #[trigger] depths@[j] is None,
            nearest matches Some(k) ==> {
                &&& k < i
                &&& depths@[k as int] == Some(zbuffer)
                &&& forall|j: int|
                    0 <= j < i && #[trigger] depths@[j] is Some ==> zbuffer <= depths@[j]->0
                &&& forall|j: int|
                    0 <= j < k ==> (#[trigger] depths@[j] matches Some(d) ==> d > zbuffer)
            },
        decreases depths@.len() - i,
    {
        if let Some(d) = depths[i] {
            let closer = match nearest {
                None => true,
                Some(_) => d < zbuffer,
            };
            if closer {
                zbuffer = d;
                nearest = Some(i);
            }
        }
        i = i + 1;
    }
    nearest
}

/// The nearest hit is nearer than or as near as every hit, and all nearest hits are
/// at the same depth.
pub proof fn lemma_nearest_is_minimal(depths: Seq<Option<u32>>, i: int, k: int, j: int)
    requires
        is_nearest(depths, i),
        0 <= j < depths.len(),
    ensures
        depths[i] is Some,
        depths[j] matches Some(d) ==> depths[i]->0 <= d,
        is_nearest(depths, k) ==> depths[k] == depths[i],
{
    if is_nearest(depths, k) {
        assert(depths[k] is Some);
        assert(depths[i]->0 <= depths[k]->0);
        assert(depths[k]->0 <= depths[i]->0);
    }
}

/// The depth test does not depend on the order of the objects: rearranging them
/// leaves the depth of the nearest hit as it was.
pub proof fn lemma_nearest_independent_of_order(
    depths: Seq<Option<u32>>,
    rearranged: Seq<Option<u32>>,
    i: int,
    j: int,
)
    requires
        rearranged.to_multiset() == depths.to_multiset(),
        is_nearest(depths, i),
        is_nearest(rearranged, j),
    ensures
        rearranged[j] == depths[i],
{
    depths.to_multiset_ensures();
    rearranged.to_multiset_ensures();
    assert(depths.contains(depths[i]));
    assert(depths.to_multiset().count(depths[i]) > 0);
    assert(rearranged.contains(depths[i]));
    let k = choose|k: int| 0 <= k < rearranged.len() && rearranged[k] == depths[i];
    assert(rearranged.contains(rearranged[j]));
    assert(rearranged.to_multiset().count(rearranged[j]) > 0);
    assert(depths.contains(rearranged[j]));
    let m = choose|m: int| 0 <= m < depths.len() && depths[m] == rearranged[j];
    assert(rearranged[j]->0 <= rearranged[k]->0);
    assert(depths[i]->0 <= depths[m]->0);
}

} // verus!
