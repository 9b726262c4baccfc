//! One RGBA sample and the arithmetic on its channels.

use vstd::prelude::*;

verus! {

/// The largest value on the 16-bit intensity scale.
pub const MAXC: u32 = 65535;

/// One sample: red, green, blue and alpha, eight bits each.
#[derive(Clone, Copy, Debug, PartialEq, Eq, Structural)]
pub struct Pixel {
    pub r: u8,
    pub g: u8,
    pub b: u8,
    pub a: u8,
}

/// An intensity on the 16-bit scale brought down to the 8-bit scale:
/// `v` keeps its proportion of the full range, and anything at or above
/// the top of the 16-bit range is held at 255.
pub open spec fn rescaled(v: int) -> int {
    if v >= 65535 {
        255
    } else if v <= 0 {
        0
    } else {
        v * 255 / 65535
    }
}

/// The smaller of two integers.
pub open spec fn smaller(a: int, b: int) -> int {
    if a < b {
        a
    } else {
        b
    }
}

/// The larger of two integers.
pub open spec fn larger(a: int, b: int) -> int {
    if a < b {
        b
    } else {
        a
    }
}

/// A running intensity `kept` after it has met the intensity `met`: three
/// quarters of the one and a quarter of the other, each rounded down.
pub open spec fn faded(kept: int, met: int) -> int {
    kept * 3 / 4 + met / 4
}

/// Brings an accumulated intensity into a channel.
pub fn c(a: u32) -> (r: u8)
    ensures
        r == rescaled(a as int),
{
    if a >= MAXC {
        255
    } else {
        let wide: u64 = a as u64 * 255 / MAXC as u64;
        wide as u8
    }
}

/// The smaller of `a` and `b`.
pub fn min_int(a: u32, b: u32) -> (r: u32)
    ensures
        r == smaller(a as int, b as int),
{
    if a < b {
        a
    } else {
        b
    }
}

impl Pixel {
    /// The pixel with all four channels zero: transparent black.
    pub open spec fn clear() -> Pixel {
        Pixel { r: 0, g: 0, b: 0, a: 0 }
    }

    /// Colour channels moved one place to the left: (R, G, B) becomes (G, B, R).
    pub open spec fn rotated_left(self) -> Pixel {
        Pixel { r: self.g, g: self.b, b: self.r, a: self.a }
    }

    /// Colour channels moved one place to the right: (R, G, B) becomes (B, R, G).
    pub open spec fn rotated_right(self) -> Pixel {
        Pixel { r: self.b, g: self.r, b: self.g, a: self.a }
    }

    /// Channel number `which`: 0 red, 1 green, 2 blue, anything else alpha.
    pub open spec fn channel(self, which: int) -> int {
        if which == 0 {
            self.r as int
        } else if which == 1 {
            self.g as int
        } else if which == 2 {
            self.b as int
        } else {
            self.a as int
        }
    }

    /// This running colour after it has met `other`: each channel, alpha
    /// too, is three quarters of its own and a quarter of the other's.
    pub open spec fn faded_by(self, other: Pixel) -> Pixel {
        Pixel {
            r: faded(self.r as int, other.r as int) as u8,
            g: faded(self.g as int, other.g as int) as u8,
            b: faded(self.b as int, other.b as int) as u8,
            a: faded(self.a as int, other.a as int) as u8,
        }
    }

    /// The pixel with the given red, green, blue and alpha.
    pub fn new(r: u8, g: u8, b: u8, a: u8) -> (p: Pixel)
        ensures
            p == (Pixel { r, g, b, a }),
    {
        Pixel { r, g, b, a }
    }

    /// Blends this running colour with `other`, three parts to one.
    pub fn fade(self, other: Pixel) -> (p: Pixel)
        ensures
            p == self.faded_by(other),
    {
        Pixel {
            r: (self.r as u32 * 3 / 4 + other.r as u32 / 4) as u8,
            g: (self.g as u32 * 3 / 4 + other.g as u32 / 4) as u8,
            b: (self.b as u32 * 3 / 4 + other.b as u32 / 4) as u8,
            a: (self.a as u32 * 3 / 4 + other.a as u32 / 4) as u8,
        }
    }

    /// Moves the colour channels one place to the left.
    pub fn rotate_left(self) -> (p: Pixel)
        ensures
            p == self.rotated_left(),
    {
        Pixel { r: self.g, g: self.b, b: self.r, a: self.a }
    }

    /// Moves the colour channels one place to the right.
    pub fn rotate_right(self) -> (p: Pixel)
        ensures
            p == self.rotated_right(),
    {
        Pixel { r: self.b, g: self.r, b: self.g, a: self.a }
    }
}

} // verus!
