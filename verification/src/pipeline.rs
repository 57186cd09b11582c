use crate::vector::Scalar;
use vstd::prelude::*;

verus! {

/// Whether `order` names each of the places `0 .. count` exactly once.
pub open spec fn is_permutation(order: Seq<usize>, count: nat) -> bool {
    &&& order.len() == count
    &&& order.no_duplicates()
    &&& forall|j: int| 0 <= j < order.len() ==> #[trigger] order[j] < count
}

/// Whether `order` lists the places of `depths` from the farthest to the
/// nearest, places of equal depth in rising order.
pub open spec fn back_to_front(depths: Seq<Scalar>, order: Seq<usize>) -> bool {
    forall|j: int, k: int|
        0 <= j < k < order.len() ==> {
            let first = depths[#[trigger] order[j] as int].order_key();
            let second = depths[#[trigger] order[k] as int].order_key();
            first > second || (first == second && order[j] < order[k])
        }
}

/// The order in which two pairs of numbers stand: by the first number, and
/// by the second where the first are equal.
pub open spec fn pair_le(low: (i64, usize), high: (i64, usize)) -> bool {
    low.0 < high.0 || (low.0 == high.0 && low.1 <= high.1)
}

/// `<[T]>::sort` of the standard library, on pairs of integers: afterwards
/// the vector holds the pairs that it held, each as often as before, in
/// rising order; pairs are ordered by their first number, then by their
/// second.
#[verifier::external_body]
fn sort_pairs(pairs: &mut Vec<(i64, usize)>)
    ensures
        final(pairs)@.to_multiset() == old(pairs)@.to_multiset(),
        forall|i: int, j: int|
            0 <= i < j < final(pairs)@.len() ==> pair_le(
                #[trigger] final(pairs)@[i],
                #[trigger] final(pairs)@[j],
            ),
{
    pairs.sort();
}

/// The order in which to draw triangles of the given depths so that nearer
/// ones cover farther ones: the places of `depths`, the greatest depth
/// first. Depths are ordered by `Scalar::order_key`; triangles of one depth
/// keep the order in which they came.
pub fn depth_order(depths: &Vec<Scalar>) -> (order: Vec<usize>)
    ensures
        is_permutation(order@, depths@.len()),
        back_to_front(depths@, order@),
{
    let count = depths.len();
    let mut pairs: Vec<(i64, usize)> = Vec::new();
    let mut i: usize = 0;
    while i < count
        invariant
            count == depths@.len(),
            i <= count,
            pairs@.len() == i,
            forall|k: int|
                0 <= k < i ==> #[trigger] pairs@[k] == ((-1 - depths@[k].order_key()) as i64, k as usize),
        decreases count - i,
    {
        let key = depths[i].total_order_key();
        pairs.push((-1 - key, i));
        i += 1;
    }
    let ghost unsorted = pairs@;
    sort_pairs(&mut pairs);
    let ghost sorted = pairs@;
    proof {
        vstd::seq_lib::to_multiset_len(unsorted);
        vstd::seq_lib::to_multiset_len(sorted);
        assert(unsorted.no_duplicates());
        unsorted.lemma_multiset_has_no_duplicates();
        sorted.lemma_multiset_has_no_duplicates_conv();
        assert forall|j: int| 0 <= j < sorted.len() implies {
            &&& (#[trigger] sorted[j]).1 < count
            &&& sorted[j].0 == -1 - depths@[sorted[j].1 as int].order_key()
        } by {
            assert(sorted.contains(sorted[j]));
            vstd::seq_lib::to_multiset_contains(sorted, sorted[j]);
            vstd::seq_lib::to_multiset_contains(unsorted, sorted[j]);
            let k = choose|k: int| 0 <= k < unsorted.len() && unsorted[k] == sorted[j];
            assert(unsorted[k] == sorted[j]);
        }
    }
    let mut order: Vec<usize> = Vec::new();
    let mut j: usize = 0;
    while j < count
        invariant
            count == sorted.len(),
            pairs@ == sorted,
            j <= count,
            order@.len() == j,
            forall|k: int| 0 <= k < j ==> #[trigger] order@[k] == sorted[k].1,
        decreases count - j,
    {
        order.push(pairs[j].1);
        j += 1;
    }
    proof {
        assert forall|a: int, b: int|
            0 <= a < order@.len() && 0 <= b < order@.len() && a != b implies order@[a]
            != order@[b] by {
            if order@[a] == order@[b] {
                assert(sorted[a].1 == sorted[b].1);
                assert(sorted[a].0 == sorted[b].0);
                assert(sorted[a] == sorted[b]);
            }
        }
        assert forall|a: int, b: int| 0 <= a < b < order@.len() implies {
            let first = depths@[#[trigger] order@[a] as int].order_key();
            let second = depths@[#[trigger] order@[b] as int].order_key();
            first > second || (first == second && order@[a] < order@[b])
        } by {
            assert(pair_le(sorted[a], sorted[b]));
            assert(order@[a] != order@[b]);
        }
    }
    order
}

/// Whether place `first` is drawn no later than place `second`: it is the
/// same place, or lies deeper, or as deep and earlier in the list.
pub open spec fn drawn_before(depths: Seq<Scalar>, first: usize, second: usize) -> bool {
    let near = depths[first as int].order_key();
    let far = depths[second as int].order_key();
    first == second || near > far || (near == far && first < second)
}

/// A list that names each of `count` places once names every one of them.
proof fn lemma_permutation_holds_all(order: Seq<usize>, count: nat)
    requires
        count <= usize::MAX,
        is_permutation(order, count),
    ensures
        forall|place: usize| place < count ==> order.contains(place),
{
    let named = order.to_set();
    let all = Set::new(|place: usize| place < count);
    order.unique_seq_to_set();
    assert(named.subset_of(all)) by {
        assert forall|place: usize| named.contains(place) implies all.contains(place) by {
            let j = choose|j: int| 0 <= j < order.len() && order[j] == place;
            assert(order[j] < count);
        }
    }
    lemma_places_counted(count);
    vstd::set_lib::lemma_subset_equality(named, all);
    assert forall|place: usize| place < count implies order.contains(place) by {
        assert(all.contains(place));
    }
}

/// There are `count` places below `count`.
proof fn lemma_places_counted(count: nat)
    requires
        count <= usize::MAX + 1,
    ensures
        Set::new(|place: usize| place < count).finite(),
        Set::new(|place: usize| place < count).len() == count,
    decreases count,
{
    let all = Set::new(|place: usize| place < count);
    if count == 0 {
        assert(all =~= Set::<usize>::empty());
    } else {
        let fewer = Set::new(|place: usize| place < count - 1);
        lemma_places_counted((count - 1) as nat);
        assert(all =~= fewer.insert((count - 1) as usize));
    }
}

/// Only one order draws the places of `depths` back to front: what
/// `depth_order` promises settles what it returns.
pub proof fn lemma_depth_order_unique(depths: Seq<Scalar>, first: Seq<usize>, second: Seq<usize>)
    requires
        depths.len() <= usize::MAX,
        is_permutation(first, depths.len()),
        back_to_front(depths, first),
        is_permutation(second, depths.len()),
        back_to_front(depths, second),
    ensures
        first == second,
{
    let before = |a: usize, b: usize| drawn_before(depths, a, b);
    assert(vstd::relations::total_ordering(before));
    assert(vstd::relations::sorted_by(first, before)) by {
        assert forall|i: int, j: int| 0 <= i < j < first.len() implies #[trigger] before(
            first[i],
            first[j],
        ) by {
            let deep = depths[first[i] as int].order_key();
            let shallow = depths[first[j] as int].order_key();
            assert(deep > shallow || (deep == shallow && first[i] < first[j]));
        }
    }
    assert(vstd::relations::sorted_by(second, before)) by {
        assert forall|i: int, j: int| 0 <= i < j < second.len() implies #[trigger] before(
            second[i],
            second[j],
        ) by {
            let deep = depths[second[i] as int].order_key();
            let shallow = depths[second[j] as int].order_key();
            assert(deep > shallow || (deep == shallow && second[i] < second[j]));
        }
    }
    lemma_permutation_holds_all(first, depths.len());
    lemma_permutation_holds_all(second, depths.len());
    first.lemma_multiset_has_no_duplicates();
    second.lemma_multiset_has_no_duplicates();
    assert forall|place: usize| first.to_multiset().count(place) == second.to_multiset().count(
        place,
    ) by {
        vstd::seq_lib::to_multiset_contains(first, place);
        vstd::seq_lib::to_multiset_contains(second, place);
        if first.contains(place) {
            let j = choose|j: int| 0 <= j < first.len() && first[j] == place;
            assert(first[j] < depths.len());
            assert(second.contains(place));
        } else if second.contains(place) {
            let j = choose|j: int| 0 <= j < second.len() && second[j] == place;
            assert(second[j] < depths.len());
            assert(first.contains(place));
        }
    }
    assert(first.to_multiset() =~= second.to_multiset());
    vstd::seq_lib::lemma_sorted_unique(first, second, before);
}

/// Whether a triangle faces the viewer. `dot` is the dot product of the
/// triangle's normal with the direction from the triangle to the viewer, the
/// normal being the cross product of the edge to the third corner with the
/// edge to the second. The triangle faces the viewer where that product is
/// zero or above; a product below zero, or one that is no number, means that
/// it does not. A degenerate triangle has no normal and counts as facing the
/// viewer.
pub fn faces_viewer(degenerate: bool, dot: Scalar) -> (kept: bool)
    ensures
        kept == (degenerate || (!dot.nan() && !dot.negative())),
{
    degenerate || (!dot.is_nan() && !dot.is_negative())
}

/// Whether a triangle is drawn: always where back faces are not culled, else
/// only if it faces the viewer.
pub fn survives_culling(culling_enabled: bool, faces_viewer: bool) -> (drawn: bool)
    ensures
        drawn == (!culling_enabled || faces_viewer),
{
    !culling_enabled || faces_viewer
}

/// Whether a projected point is divided by its fourth coordinate `w`: it is
/// unless `w` is zero, in which case the point is passed on as it is.
pub fn perspective_divides(w: Scalar) -> (divides: bool)
    ensures
        divides == !w.zero_valued(),
{
    !w.is_zero()
}

} // verus!
