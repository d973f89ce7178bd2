//! Colours and the distance between them.

use vstd::prelude::*;

verus! {

/// A colour of three independent 8-bit channels.
#[derive(Clone, Copy, Debug, PartialEq, Eq, Structural)]
pub struct Color {
    pub r: u8,
    pub g: u8,
    pub b: u8,
}

/// The squared Euclidean distance between two colours: the sum of the
/// squared differences of their channels.
pub open spec fn color_distance(a: Color, b: Color) -> int {
    (a.r - b.r) * (a.r - b.r) + (a.g - b.g) * (a.g - b.g) + (a.b - b.b) * (a.b - b.b)
}

/// The largest distance between two colours, reached between black and white.
pub const MAX_COLOR_DISTANCE: u32 = 195_075;

fn channel_gap(p: u8, q: u8) -> (d: u32)
    ensures
        d == (p - q) * (p - q),
        d <= 65_025,
{
    let w: u32 = if p >= q {
        (p - q) as u32
    } else {
        (q - p) as u32
    };
    assert(w * w == (p - q) * (p - q) && w * w <= 65_025) by (nonlinear_arith)
        requires
            w == p - q || w == q - p,
            w <= 255,
    ;
    w * w
}

impl Color {
    /// The colour shown for a cell that was never filled.
    pub fn neutral() -> (c: Color)
        ensures
            c == (Color { r: 128, g: 128, b: 128 }),
    {
        Color { r: 128, g: 128, b: 128 }
    }

    /// The squared distance from this colour to `other`.
    pub fn distance(self, other: Color) -> (d: u32)
        ensures
            d == color_distance(self, other),
            d <= MAX_COLOR_DISTANCE,
    {
        channel_gap(self.r, other.r) + channel_gap(self.g, other.g) + channel_gap(self.b, other.b)
    }
}

} // verus!
