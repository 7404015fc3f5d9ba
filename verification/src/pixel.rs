//! Pixels, their luma, and the tests that tell content from background.

use vstd::prelude::*;

verus! {

/// A colour channel above this value marks a pixel as brighter than near-black.
pub const BRIGHTNESS_THRESHOLD: u8 = 50;

/// One pixel: red, green, blue and alpha, eight bits each.
#[derive(Clone, Copy, Debug, PartialEq, Eq, Structural)]
pub struct Pixel {
    pub r: u8,
    pub g: u8,
    pub b: u8,
    pub a: u8,
}

/// The luma of a pixel, from 0 to 255: red, green and blue weighted
/// 2126 : 7152 : 722, the sum divided by 10000 and rounded down.
pub open spec fn luma(p: Pixel) -> int {
    (2126 * p.r + 7152 * p.g + 722 * p.b) / 10000
}

/// The luma of `p` as the `image` crate computes it.
///
/// Trusted: the body calls `image::Pixel::to_luma` on an `image::Rgba<u8>`.
/// The contract claims that the one channel of the result is the weighted
/// sum that [`luma`] states, which is what `image` 0.24 does for eight-bit
/// channels: it widens them to `u32`, weights them 2126, 7152 and 722, and
/// divides by 10000; alpha takes no part.
#[verifier::external_body]
fn image_luma(p: Pixel) -> (l: u8)
    ensures
        l == luma(p),
{
    image::Pixel::to_luma(&image::Rgba([p.r, p.g, p.b, p.a])).0[0]
}

impl Pixel {
    /// The luma of the pixel, from 0 (black) to 255 (white).
    pub fn luma(&self) -> (l: u8)
        ensures
            l == luma(*self),
    {
        image_luma(*self)
    }
}

/// A test on one pixel that tells content from background.
#[derive(Clone, Copy, Debug, PartialEq, Eq, Structural)]
pub enum Criterion {
    /// The pixel is not fully transparent.
    Opaque,
    /// Red, green or blue exceeds [`BRIGHTNESS_THRESHOLD`].
    Bright,
    /// The luma of the pixel is not zero.
    NonBlack,
}

impl Criterion {
    /// The pixel counts as content.
    pub open spec fn holds(self, p: Pixel) -> bool {
        match self {
            Criterion::Opaque => p.a > 0,
            Criterion::Bright => p.r > BRIGHTNESS_THRESHOLD || p.g > BRIGHTNESS_THRESHOLD || p.b
                > BRIGHTNESS_THRESHOLD,
            Criterion::NonBlack => luma(p) > 0,
        }
    }

    /// Tells whether the pixel counts as content.
    pub fn test(&self, p: Pixel) -> (b: bool)
        ensures
            b == self.holds(p),
    {
        match self {
            Criterion::Opaque => p.a > 0,
            Criterion::Bright => p.r > BRIGHTNESS_THRESHOLD || p.g > BRIGHTNESS_THRESHOLD || p.b
                > BRIGHTNESS_THRESHOLD,
            Criterion::NonBlack => p.luma() > 0,
        }
    }
}

/// A pixel that is bright is not black: what the threshold test counts as
/// content, the luma test counts too.
pub proof fn lemma_bright_is_non_black(p: Pixel)
    ensures
        Criterion::Bright.holds(p) ==> Criterion::NonBlack.holds(p),
{
}

} // verus!
