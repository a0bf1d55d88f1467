//! Rays and the record of where a ray meets a surface.
use crate::math::scalar::{unit, Scalar};
use crate::math::vector3::Vector3;
use vstd::prelude::*;

verus! {

/// A half-line: where it starts and the direction in which it leaves.
#[derive(Debug, Clone, Copy, PartialEq, Eq, Structural)]
pub struct Ray {
    pub start: Vector3,
    pub direction: Vector3,
}

/// Where a ray met an object: the point, the surface normal there, and the
/// index of the object within its scene, which is its identity.
#[derive(Debug, Clone, Copy, PartialEq, Eq, Structural)]
pub struct Hit {
    pub position: Vector3,
    pub normal: Vector3,
    pub object: usize,
}

impl Hit {
    /// The mirror image of `in_angle` about the normal:
    /// `in_angle - (2 * dot(in_angle, normal)) * normal`.
    pub open spec fn spec_out_angle(&self, in_angle: Vector3) -> Vector3 {
        let twice = Scalar::of(2 * unit()).times(in_angle.spec_dot(self.normal));
        in_angle.minus(self.normal.scaled(twice))
    }

    /// The direction in which a ray that arrived along `in_angle` leaves the
    /// surface.
    #[verifier::when_used_as_spec(spec_out_angle)]
    pub fn out_angle(&self, in_angle: Vector3) -> (out: Vector3)
        ensures
            out == self.spec_out_angle(in_angle),
    {
        let two = Scalar::from_int(2);
        in_angle - (two * in_angle.dot(self.normal)) * self.normal
    }
}

} // verus!
