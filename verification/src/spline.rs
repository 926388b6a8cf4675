//! Control points of Bézier curve segments.
use vstd::prelude::*;

verus! {

/// `glam::Vec3`, a point in space with `f32` coordinates, carried as it is.
#[verifier::external_type_specification]
#[verifier::external_body]
pub struct ExVec3(glam::Vec3);

/// A Bézier curve segment of degree `N - 1`, given by its control points; it starts at
/// the first and ends at the last.
pub struct BezierSpline<const N: usize> {
    pub points: [glam::Vec3; N],
}

} // verus!
