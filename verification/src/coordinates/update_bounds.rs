//! Growing a bounding box by one vertex. Coordinates are single-precision
//! bit patterns.

use crate::ieee::{single_max, single_maximum, single_min, single_minimum};
use vstd::prelude::*;

verus! {

/// Widens the box `min`..`max` so that it holds `vertex`: on each axis the
/// lower bound becomes the smaller of itself and the coordinate, the upper
/// bound the larger. A NaN coordinate leaves a bound as it is, and a NaN
/// bound gives way to the coordinate.
pub fn update_coordinate_bounds(vertex: [u32; 3], min: &mut [u32; 3], max: &mut [u32; 3])
    ensures
        forall|axis: int|
            0 <= axis < 3 ==> (#[trigger] final(min)[axis]) == single_minimum(
                old(min)[axis],
                vertex[axis],
            ),
        forall|axis: int|
            0 <= axis < 3 ==> (#[trigger] final(max)[axis]) == single_maximum(
                old(max)[axis],
                vertex[axis],
            ),
{
    min[0] = single_min(min[0], vertex[0]);
    min[1] = single_min(min[1], vertex[1]);
    min[2] = single_min(min[2], vertex[2]);

    max[0] = single_max(max[0], vertex[0]);
    max[1] = single_max(max[1], vertex[1]);
    max[2] = single_max(max[2], vertex[2]);
}

} // verus!
