//! Points, directions and colours: three scalars.

use crate::scalar::Scalar;
use vstd::prelude::*;

verus! {

/// Three scalars: a position, a direction, a normal or a colour.
#[derive(Clone, Copy, Debug, PartialEq, Eq, Structural)]
pub struct Vec3 {
    pub x: Scalar,
    pub y: Scalar,
    pub z: Scalar,
}

impl Vec3 {
    /// The component on an axis: 0 is x, 1 is y, anything else is z.
    pub open spec fn spec_get(self, axis: int) -> Scalar {
        if axis == 0 {
            self.x
        } else if axis == 1 {
            self.y
        } else {
            self.z
        }
    }

    pub open spec fn spec_zeros() -> Vec3 {
        Vec3 { x: Scalar::spec_zero(), y: Scalar::spec_zero(), z: Scalar::spec_zero() }
    }

    /// Each component with its sign flipped.
    pub open spec fn spec_neg(self) -> Vec3 {
        Vec3 { x: self.x.spec_neg(), y: self.y.spec_neg(), z: self.z.spec_neg() }
    }

    /// Each component with its sign cleared.
    pub open spec fn spec_abs(self) -> Vec3 {
        Vec3 { x: self.x.spec_abs(), y: self.y.spec_abs(), z: self.z.spec_abs() }
    }

    /// The smaller component on each axis.
    pub open spec fn spec_component_min(self, other: Vec3) -> Vec3 {
        Vec3 {
            x: self.x.spec_min(other.x),
            y: self.y.spec_min(other.y),
            z: self.z.spec_min(other.z),
        }
    }

    /// The larger component on each axis.
    pub open spec fn spec_component_max(self, other: Vec3) -> Vec3 {
        Vec3 {
            x: self.x.spec_max(other.x),
            y: self.y.spec_max(other.y),
            z: self.z.spec_max(other.z),
        }
    }

    /// The largest of the three components, found by comparing from x on: a
    /// candidate stays while it is at or above the next component, so a NaN candidate
    /// is dropped and a NaN component is taken.
    pub open spec fn spec_max(self) -> Scalar {
        let first = if self.x.spec_ge(self.y) {
            self.x
        } else {
            self.y
        };
        if first.spec_ge(self.z) {
            first
        } else {
            self.z
        }
    }

    /// Whether some component is a NaN.
    pub open spec fn spec_has_nan(self) -> bool {
        self.x.spec_is_nan() || self.y.spec_is_nan() || self.z.spec_is_nan()
    }

    pub fn new(x: Scalar, y: Scalar, z: Scalar) -> (r: Vec3)
        ensures
            r == (Vec3 { x, y, z }),
    {
        Vec3 { x, y, z }
    }

    #[verifier::when_used_as_spec(spec_zeros)]
    pub fn zeros() -> (r: Vec3)
        ensures
            r == Vec3::spec_zeros(),
    {
        Vec3 { x: Scalar::zero(), y: Scalar::zero(), z: Scalar::zero() }
    }

    /// The component on an axis below 3.
    pub fn get(&self, axis: usize) -> (r: Scalar)
        requires
            axis < 3,
        ensures
            r == self.spec_get(axis as int),
    {
        if axis == 0 {
            self.x
        } else if axis == 1 {
            self.y
        } else {
            self.z
        }
    }

    #[verifier::when_used_as_spec(spec_neg)]
    pub fn neg(self) -> (r: Vec3)
        ensures
            r == self.spec_neg(),
    {
        Vec3 { x: self.x.neg(), y: self.y.neg(), z: self.z.neg() }
    }

    #[verifier::when_used_as_spec(spec_abs)]
    pub fn abs(self) -> (r: Vec3)
        ensures
            r == self.spec_abs(),
    {
        Vec3 { x: self.x.abs(), y: self.y.abs(), z: self.z.abs() }
    }

    #[verifier::when_used_as_spec(spec_component_min)]
    pub fn component_min(self, other: Vec3) -> (r: Vec3)
        ensures
            r == self.spec_component_min(other),
    {
        Vec3 { x: self.x.min(other.x), y: self.y.min(other.y), z: self.z.min(other.z) }
    }

    #[verifier::when_used_as_spec(spec_component_max)]
    pub fn component_max(self, other: Vec3) -> (r: Vec3)
        ensures
            r == self.spec_component_max(other),
    {
        Vec3 { x: self.x.max(other.x), y: self.y.max(other.y), z: self.z.max(other.z) }
    }

    #[verifier::when_used_as_spec(spec_max)]
    pub fn max(self) -> (r: Scalar)
        ensures
            r == self.spec_max(),
    {
        let first: Scalar = if self.x.ge(self.y) {
            self.x
        } else {
            self.y
        };
        if first.ge(self.z) {
            first
        } else {
            self.z
        }
    }

    #[verifier::when_used_as_spec(spec_has_nan)]
    pub fn has_nan(self) -> (r: bool)
        ensures
            r == self.spec_has_nan(),
    {
        self.x.is_nan() || self.y.is_nan() || self.z.is_nan()
    }
}

} // verus!
