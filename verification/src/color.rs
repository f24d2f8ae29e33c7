//! Colors and the distance by which a pixel is matched to a shade.

use vstd::prelude::*;

verus! {

/// An RGB color with 8-bit channels.
#[derive(Clone, Copy, Debug, PartialEq, Eq, Structural)]
pub struct Color {
    pub r: u8,
    pub g: u8,
    pub b: u8,
}

/// The largest distance two colors can have: three channels, each off by 255.
pub const MAX_DISTANCE: u32 = 195075;

/// How far one channel of a pixel lies above the same channel of a shade.
/// A pixel channel at or below the shade's counts as no gap at all.
pub open spec fn channel_gap(pixel: u8, shade: u8) -> int {
    if pixel > shade {
        pixel - shade
    } else {
        0
    }
}

/// The distance from a pixel to a shade: the sum over the three channels of
/// the squared gap. It is one-sided, so `distance(a, b)` and `distance(b, a)`
/// differ in general.
pub open spec fn distance(pixel: Color, shade: Color) -> int {
    channel_gap(pixel.r, shade.r) * channel_gap(pixel.r, shade.r)
        + channel_gap(pixel.g, shade.g) * channel_gap(pixel.g, shade.g)
        + channel_gap(pixel.b, shade.b) * channel_gap(pixel.b, shade.b)
}

/// The square of a gap between two 8-bit channels fits well within 32 bits.
proof fn lemma_square_bound(gap: int)
    requires
        0 <= gap <= 255,
    ensures
        0 <= gap * gap <= 65025,
{
    assert(0 <= gap * gap <= 65025) by (nonlinear_arith)
        requires
            0 <= gap <= 255,
    ;
}

impl Color {
    /// Builds a color from its three channels.
    pub fn new(r: u8, g: u8, b: u8) -> (color: Color)
        ensures
            color == (Color { r, g, b }),
    {
        Color { r, g, b }
    }

    /// Computes the one-sided squared distance from this pixel to `shade`.
    pub fn distance_to(self, shade: Color) -> (d: u32)
        ensures
            d == distance(self, shade),
            d <= MAX_DISTANCE,
    {
        let dr: u32 = self.r.saturating_sub(shade.r) as u32;
        let dg: u32 = self.g.saturating_sub(shade.g) as u32;
        let db: u32 = self.b.saturating_sub(shade.b) as u32;
        proof {
            lemma_square_bound(dr as int);
            lemma_square_bound(dg as int);
            lemma_square_bound(db as int);
        }
        dr * dr + dg * dg + db * db
    }
}

/// A channel of the pixel that does not exceed the shade's adds nothing to
/// the distance, however far below it lies.
pub proof fn lemma_gap_clamps(pixel: u8, shade: u8)
    requires
        pixel <= shade,
    ensures
        channel_gap(pixel, shade) == 0,
{
}

/// The distance is never negative and never exceeds `MAX_DISTANCE`.
pub proof fn lemma_distance_bounds(pixel: Color, shade: Color)
    ensures
        0 <= distance(pixel, shade) <= MAX_DISTANCE,
{
    lemma_square_bound(channel_gap(pixel.r, shade.r));
    lemma_square_bound(channel_gap(pixel.g, shade.g));
    lemma_square_bound(channel_gap(pixel.b, shade.b));
}

/// A pixel that lies at or below a shade in every channel is at distance zero
/// from it.
pub proof fn lemma_distance_zero_below(pixel: Color, shade: Color)
    requires
        pixel.r <= shade.r,
        pixel.g <= shade.g,
        pixel.b <= shade.b,
    ensures
        distance(pixel, shade) == 0,
{
}

} // verus!
