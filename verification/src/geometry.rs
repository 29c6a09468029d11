use vstd::prelude::*;

verus! {

/// A point or an offset, in whole pixels.
#[derive(Clone, Copy, Debug, PartialEq, Eq, Structural)]
pub struct Vector2 {
    pub x: i32,
    pub y: i32,
}

impl Vector2 {
    pub fn new(x: i32, y: i32) -> (v: Self)
        ensures
            v == (Vector2 { x, y }),
    {
        Vector2 { x, y }
    }

    /// The origin.
    pub fn zero() -> (v: Self)
        ensures
            v == (Vector2 { x: 0, y: 0 }),
    {
        Vector2 { x: 0, y: 0 }
    }
}

/// A rectangle of pixels: its top-left corner and its size.
#[derive(Clone, Copy, Debug, PartialEq, Eq, Structural)]
pub struct Rectangle {
    pub x: i32,
    pub y: i32,
    pub width: u64,
    pub height: u64,
}

impl Rectangle {
    /// The rectangle without extent at the origin.
    pub open spec fn empty() -> Rectangle {
        Rectangle { x: 0, y: 0, width: 0, height: 0 }
    }

    /// The rectangle of the given size at the origin.
    pub open spec fn of_size(width: u32, height: u32) -> Rectangle {
        Rectangle { x: 0, y: 0, width: width as u64, height: height as u64 }
    }
}

/// A colour with its opacity.
#[derive(Clone, Copy, Debug, PartialEq, Eq, Structural)]
pub struct Color {
    pub r: u8,
    pub g: u8,
    pub b: u8,
    pub a: u8,
}

impl Color {
    /// Opaque white: the tint that leaves an image as it is.
    pub open spec fn white() -> Color {
        Color { r: 255, g: 255, b: 255, a: 255 }
    }
}

/// A scale factor along one axis, as a fraction of whole numbers. A factor with the
/// denominator 0 scales every length to nothing.
#[derive(Clone, Copy, Debug, PartialEq, Eq, Structural)]
pub struct Ratio {
    pub num: u32,
    pub den: u32,
}

impl Ratio {
    /// `length` scaled by the factor, rounded down to whole pixels.
    pub open spec fn scaled(self, length: u32) -> int {
        if self.den == 0 {
            0
        } else {
            (length * self.num) / (self.den as int)
        }
    }

    /// The factor 1.
    pub fn one() -> (ratio: Self)
        ensures
            ratio == (Ratio { num: 1, den: 1 }),
    {
        Ratio { num: 1, den: 1 }
    }

    /// Scales `length` by the factor and rounds down to whole pixels.
    pub fn apply(&self, length: u32) -> (pixels: u64)
        ensures
            pixels == self.scaled(length),
    {
        if self.den == 0 {
            return 0;
        }
        proof {
            assert(length * self.num <= 0xffff_ffff * 0xffff_ffff) by (nonlinear_arith)
                requires
                    length <= 0xffff_ffff,
                    self.num <= 0xffff_ffff,
            ;
        }
        (length as u64 * self.num as u64) / (self.den as u64)
    }
}

/// The scale factors along both axes.
#[derive(Clone, Copy, Debug, PartialEq, Eq, Structural)]
pub struct Scale {
    pub x: Ratio,
    pub y: Ratio,
}

} // verus!
