//! Per-voxel channel values: 8-bit colours for the geometry channels, a
//! signed 8-bit normal vector, and a wide radiance colour.

use vstd::prelude::*;

verus! {

/// An 8-bit-per-channel colour, as stored in the albedo and emission grids.
#[derive(Clone, Copy, PartialEq, Eq, Structural, Debug)]
pub struct Rgb8 {
    pub r: u8,
    pub g: u8,
    pub b: u8,
}

impl Rgb8 {
    /// The neutral value the geometry channels are cleared to.
    pub open spec fn is_zero(self) -> bool {
        self.r == 0 && self.g == 0 && self.b == 0
    }

    pub fn zero() -> (c: Rgb8)
        ensures
            c == (Rgb8 { r: 0, g: 0, b: 0 }),
    {
        Rgb8 { r: 0, g: 0, b: 0 }
    }

    pub fn new(r: u8, g: u8, b: u8) -> (c: Rgb8)
        ensures
            c == (Rgb8 { r, g, b }),
    {
        Rgb8 { r, g, b }
    }
}

/// Channel `ch` (0 = red, 1 = green, 2 = blue) of an 8-bit colour.
pub open spec fn chan(c: Rgb8, ch: int) -> u8 {
    if ch == 0 {
        c.r
    } else if ch == 1 {
        c.g
    } else {
        c.b
    }
}

/// A voxel normal with signed 8-bit components; a unit normal has magnitude
/// close to [`NORMAL_ONE`].
#[derive(Clone, Copy, PartialEq, Eq, Structural, Debug)]
pub struct Nrm {
    pub x: i8,
    pub y: i8,
    pub z: i8,
}

impl Nrm {
    pub fn zero() -> (n: Nrm)
        ensures
            n == (Nrm { x: 0, y: 0, z: 0 }),
    {
        Nrm { x: 0, y: 0, z: 0 }
    }

    pub fn new(x: i8, y: i8, z: i8) -> (n: Nrm)
        ensures
            n == (Nrm { x, y, z }),
    {
        Nrm { x, y, z }
    }
}

/// The length of a unit normal in stored 8-bit components.
pub const NORMAL_ONE: i64 = 127;

/// A wide colour, as stored in the radiance grid and its mip levels.
#[derive(Clone, Copy, PartialEq, Eq, Structural, Debug)]
pub struct RgbWide {
    pub r: u32,
    pub g: u32,
    pub b: u32,
}

impl RgbWide {
    pub fn zero() -> (c: RgbWide)
        ensures
            c == (RgbWide { r: 0, g: 0, b: 0 }),
    {
        RgbWide { r: 0, g: 0, b: 0 }
    }
}

/// Channel `ch` (0 = red, 1 = green, 2 = blue) of a wide colour.
pub open spec fn chan_wide(c: RgbWide, ch: int) -> u32 {
    if ch == 0 {
        c.r
    } else if ch == 1 {
        c.g
    } else {
        c.b
    }
}

} // verus!
