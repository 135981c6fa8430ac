//! What a viewer needs to fit every body on screen.
//!
//! The scale of a view is set by the body farthest from the centre, but
//! never by less than a floor, so that bodies that crowd the centre are not
//! blown up without bound. The distances are the caller's; which of them
//! sets the scale is decided here.
use vstd::prelude::*;
use crate::scalar::Scalar;

verus! {

/// The largest of `floor` and the `distances`, taken in order: a distance
/// replaces what was found so far only if it is a strictly larger number.
pub open spec fn reach(floor: Scalar, distances: Seq<Scalar>) -> Scalar
    decreases distances.len(),
{
    if distances.len() == 0 {
        floor
    } else {
        let so_far = reach(floor, distances.drop_last());
        if so_far.below(distances.last()) {
            distances.last()
        } else {
            so_far
        }
    }
}

/// With a floor that is a number, the reach is a number, it is the floor or
/// one of the distances, and neither the floor nor any distance is above it.
pub proof fn lemma_reach_dominates(floor: Scalar, distances: Seq<Scalar>)
    requires
        !floor.nan(),
    ensures
        !reach(floor, distances).nan(),
        !reach(floor, distances).below(floor),
        forall|k: int|
            0 <= k < distances.len() ==> !reach(floor, distances).below(#[trigger] distances[k]),
        reach(floor, distances) == floor || exists|k: int|
            0 <= k < distances.len() && reach(floor, distances) == #[trigger] distances[k],
    decreases distances.len(),
{
    if distances.len() > 0 {
        let shorter = distances.drop_last();
        lemma_reach_dominates(floor, shorter);
        assert forall|k: int| 0 <= k < distances.len() implies !reach(floor, distances).below(
            #[trigger] distances[k],
        ) by {
            if k < shorter.len() {
                assert(shorter[k] == distances[k]);
            }
        }
        let so_far = reach(floor, shorter);
        if !so_far.below(distances.last()) && so_far != floor {
            let k = choose|k: int| 0 <= k < shorter.len() && so_far == #[trigger] shorter[k];
            assert(distances[k] == so_far);
        }
    }
}

/// The distance that sets the scale of a view: the largest of the
/// `distances`, or `floor` if none is larger.
pub fn farthest(distances: &Vec<Scalar>, floor: Scalar) -> (r: Scalar)
    ensures
        r == reach(floor, distances@),
{
    let mut so_far = floor;
    let mut k: usize = 0;
    while k < distances.len()
        invariant
            0 <= k <= distances.len(),
            so_far == reach(floor, distances@.take(k as int)),
        decreases distances.len() - k,
    {
        proof {
            assert(distances@.take(k + 1).drop_last() == distances@.take(k as int));
        }
        if so_far.lt(distances[k]) {
            so_far = distances[k];
        }
        k = k + 1;
    }
    proof {
        assert(distances@.take(k as int) == distances@);
    }
    so_far
}

} // verus!
