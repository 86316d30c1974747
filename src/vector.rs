//! Small integer vectors used for extents, offsets and pixels, and a
//! three-component vector of single-precision values held as bit patterns.
use vstd::prelude::*;

verus! {

/// A two-component unsigned vector (an extent or an offset).
#[derive(Clone, Copy, Debug, PartialEq, Eq, Structural)]
pub struct UVec2 {
    pub x: u32,
    pub y: u32,
}

/// A three-component unsigned vector (a problem size, a group count or a pixel).
#[derive(Clone, Copy, Debug, PartialEq, Eq, Structural)]
pub struct UVec3 {
    pub x: u32,
    pub y: u32,
    pub z: u32,
}

/// Three single-precision values, each stored as its IEEE-754 bit pattern,
/// exactly as the kernel reads them.
#[derive(Clone, Copy, Debug, PartialEq, Eq, Structural)]
pub struct Vec3 {
    pub x: u32,
    pub y: u32,
    pub z: u32,
}

impl UVec2 {
    pub fn new(x: u32, y: u32) -> (r: UVec2)
        ensures
            r.x == x,
            r.y == y,
    {
        UVec2 { x, y }
    }

    /// Appends a third component, as the ray tracer does to turn a screen
    /// size into a problem size.
    pub fn extend(self, z: u32) -> (r: UVec3)
        ensures
            r.x == self.x,
            r.y == self.y,
            r.z == z,
    {
        UVec3 { x: self.x, y: self.y, z }
    }
}

impl UVec3 {
    pub fn new(x: u32, y: u32, z: u32) -> (r: UVec3)
        ensures
            r.x == x,
            r.y == y,
            r.z == z,
    {
        UVec3 { x, y, z }
    }
}

} // verus!
