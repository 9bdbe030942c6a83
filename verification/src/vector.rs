//! Vectors and matrices as plain data: components are bit patterns, and the
//! operations here only place, pick or test components.

use vstd::prelude::*;
use crate::scalar::Scalar;

verus! {

/// One of the three coordinate axes.
#[derive(Clone, Copy, Debug, PartialEq, Eq)]
pub enum Axis {
    X,
    Y,
    Z,
}

/// A point or a direction in space.
#[derive(Clone, Copy, Debug, PartialEq, Eq)]
pub struct Vec3 {
    pub x: Scalar,
    pub y: Scalar,
    pub z: Scalar,
}

/// A point or a direction in homogeneous coordinates: `w` is one for a point,
/// which a translation moves, and zero for a direction, which it leaves alone.
#[derive(Clone, Copy, Debug, PartialEq, Eq)]
pub struct Vec4 {
    pub x: Scalar,
    pub y: Scalar,
    pub z: Scalar,
    pub w: Scalar,
}

/// A 4x4 matrix, stored by columns.
#[derive(Clone, Copy, Debug, PartialEq, Eq)]
pub struct Mat4 {
    pub x_axis: Vec4,
    pub y_axis: Vec4,
    pub z_axis: Vec4,
    pub w_axis: Vec4,
}

impl Vec3 {
    /// The vector that is `value` along `axis` and `0.0` along the other two.
    pub open spec fn spec_along(axis: Axis, value: Scalar) -> Vec3 {
        match axis {
            Axis::X => Vec3 { x: value, y: Scalar::spec_zero(), z: Scalar::spec_zero() },
            Axis::Y => Vec3 { x: Scalar::spec_zero(), y: value, z: Scalar::spec_zero() },
            Axis::Z => Vec3 { x: Scalar::spec_zero(), y: Scalar::spec_zero(), z: value },
        }
    }

    pub fn new(x: Scalar, y: Scalar, z: Scalar) -> (r: Vec3)
        ensures
            r == (Vec3 { x, y, z }),
    {
        Vec3 { x, y, z }
    }

    /// The vector that is `value` along `axis` and `0.0` along the other two.
    #[verifier::when_used_as_spec(spec_along)]
    pub fn along(axis: Axis, value: Scalar) -> (r: Vec3)
        ensures
            r == Vec3::spec_along(axis, value),
    {
        match axis {
            Axis::X => Vec3 { x: value, y: Scalar::zero(), z: Scalar::zero() },
            Axis::Y => Vec3 { x: Scalar::zero(), y: value, z: Scalar::zero() },
            Axis::Z => Vec3 { x: Scalar::zero(), y: Scalar::zero(), z: value },
        }
    }
}

impl Vec4 {
    pub open spec fn spec_is_finite(self) -> bool {
        self.x.spec_is_finite() && self.y.spec_is_finite() && self.z.spec_is_finite()
            && self.w.spec_is_finite()
    }

    pub fn new(x: Scalar, y: Scalar, z: Scalar, w: Scalar) -> (r: Vec4)
        ensures
            r == (Vec4 { x, y, z, w }),
    {
        Vec4 { x, y, z, w }
    }

    /// Whether no component is an infinity or a NaN.
    #[verifier::when_used_as_spec(spec_is_finite)]
    pub fn is_finite(self) -> (r: bool)
        ensures
            r == self.spec_is_finite(),
    {
        self.x.is_finite() && self.y.is_finite() && self.z.is_finite() && self.w.is_finite()
    }
}

impl Mat4 {
    pub open spec fn spec_is_finite(self) -> bool {
        self.x_axis.spec_is_finite() && self.y_axis.spec_is_finite()
            && self.z_axis.spec_is_finite() && self.w_axis.spec_is_finite()
    }

    pub fn from_cols(x_axis: Vec4, y_axis: Vec4, z_axis: Vec4, w_axis: Vec4) -> (r: Mat4)
        ensures
            r == (Mat4 { x_axis, y_axis, z_axis, w_axis }),
    {
        Mat4 { x_axis, y_axis, z_axis, w_axis }
    }

    /// Whether no entry is an infinity or a NaN.
    #[verifier::when_used_as_spec(spec_is_finite)]
    pub fn is_finite(self) -> (r: bool)
        ensures
            r == self.spec_is_finite(),
    {
        self.x_axis.is_finite() && self.y_axis.is_finite() && self.z_axis.is_finite()
            && self.w_axis.is_finite()
    }
}

} // verus!
