use vstd::prelude::*;

verus! {

/// A three-component vector whose components are IEEE-754 single-precision
/// bit patterns.
#[derive(Clone, Copy, Debug, PartialEq, Eq, Structural)]
pub struct Vec3f {
    pub x: u32,
    pub y: u32,
    pub z: u32,
}

/// A four-component vector (`w`, `x`, `y`, `z`) of IEEE-754 single-precision
/// bit patterns.
#[derive(Clone, Copy, Debug, PartialEq, Eq, Structural)]
pub struct Vec4f {
    pub w: u32,
    pub x: u32,
    pub y: u32,
    pub z: u32,
}

/// Bit pattern of `0.0`.
pub const ZERO: u32 = 0x0000_0000u32;

/// Bit pattern of `0.5`.
pub const HALF: u32 = 0x3f00_0000u32;

/// Bit pattern of `1.0`.
pub const ONE: u32 = 0x3f80_0000u32;

/// Bit pattern of `-1.0`.
pub const MINUS_ONE: u32 = 0xbf80_0000u32;

/// Bit pattern of `-0.0`.
pub const MINUS_ZERO: u32 = 0x8000_0000u32;

/// Bit pattern of `-0.25`.
pub const MINUS_QUARTER: u32 = 0xbe80_0000u32;

/// Bit pattern of `-0.5`.
pub const MINUS_HALF: u32 = 0xbf00_0000u32;

impl View for Vec3f {
    type V = Vec3f;

    open spec fn view(&self) -> Vec3f {
        *self
    }
}

impl View for Vec4f {
    type V = Vec4f;

    open spec fn view(&self) -> Vec4f {
        *self
    }
}

impl Vec3f {
    pub open spec fn spec_new(x: u32, y: u32, z: u32) -> Vec3f {
        Vec3f { x, y, z }
    }

    /// The vector with the given components.
    pub fn new(x: u32, y: u32, z: u32) -> (v: Vec3f)
        ensures
            v == Vec3f::spec_new(x, y, z),
    {
        Vec3f { x, y, z }
    }

    /// The zero vector (also the default vector).
    pub fn zero() -> (v: Vec3f)
        ensures
            v == Vec3f::spec_new(ZERO, ZERO, ZERO),
    {
        Vec3f { x: ZERO, y: ZERO, z: ZERO }
    }
}

impl Vec4f {
    /// The default orientation of an object: `(w, x, y, z) = (0, 0, -1, 0)`.
    pub fn backward() -> (v: Vec4f)
        ensures
            v == (Vec4f { w: ZERO, x: ZERO, y: MINUS_ONE, z: ZERO }),
    {
        Vec4f { w: ZERO, x: ZERO, y: MINUS_ONE, z: ZERO }
    }

    /// The default orientation of the camera: `(w, x, y, z) = (0, 0, 1, 0)`.
    pub fn forward() -> (v: Vec4f)
        ensures
            v == (Vec4f { w: ZERO, x: ZERO, y: ONE, z: ZERO }),
    {
        Vec4f { w: ZERO, x: ZERO, y: ONE, z: ZERO }
    }
}

} // verus!
