//! The integer-valued parts of the vector-graphics frame model: colors
//! and the enumerated style settings of masks, gradients, strokes and
//! fills.

use vstd::prelude::*;

verus! {

/// How to interpret a soft mask's rasterised pixels as a coverage
/// modulator.
#[derive(Clone, Copy, Debug, PartialEq, Eq, Structural)]
pub enum MaskKind {
    /// Convert the mask's RGB to luminance and use it as the per-pixel
    /// alpha multiplier (SVG `mask-type="luminance"`, PDF
    /// `/Luminosity`). The default.
    Luminance,
    /// Use the mask's own alpha channel as the multiplier (SVG
    /// `mask-type="alpha"`, PDF `/Alpha`).
    Alpha,
}

impl Default for MaskKind {
    fn default() -> (r: Self)
        ensures
            r == MaskKind::Luminance,
    {
        MaskKind::Luminance
    }
}

/// An sRGB color with straight (not premultiplied) 8-bit alpha.
#[derive(Clone, Copy, Debug, PartialEq, Eq, Structural)]
pub struct Rgba {
    pub r: u8,
    pub g: u8,
    pub b: u8,
    pub a: u8,
}

impl Default for Rgba {
    /// Transparent black.
    fn default() -> (c: Self)
        ensures
            c == (Rgba { r: 0, g: 0, b: 0, a: 0 }),
    {
        Rgba { r: 0, g: 0, b: 0, a: 0 }
    }
}

impl Rgba {
    /// The color with the given channels.
    pub fn new(r: u8, g: u8, b: u8, a: u8) -> (c: Self)
        ensures
            c == (Rgba { r, g, b, a }),
    {
        Rgba { r, g, b, a }
    }

    /// Fully-opaque color with the given RGB triple.
    pub fn opaque(r: u8, g: u8, b: u8) -> (c: Self)
        ensures
            c == (Rgba { r, g, b, a: 255 }),
    {
        Rgba { r, g, b, a: 255 }
    }
}

/// What happens past the gradient endpoints (SVG `spreadMethod`, PDF
/// `Extend`).
#[derive(Clone, Copy, Debug, PartialEq, Eq, Structural)]
pub enum SpreadMethod {
    /// Final stop colors extend forever. The default.
    Pad,
    /// Gradient mirrors at each boundary.
    Reflect,
    /// Gradient repeats periodically.
    Repeat,
}

impl Default for SpreadMethod {
    fn default() -> (r: Self)
        ensures
            r == SpreadMethod::Pad,
    {
        SpreadMethod::Pad
    }
}

/// How an open path's endpoints are drawn.
#[derive(Clone, Copy, Debug, PartialEq, Eq, Structural)]
pub enum LineCap {
    /// The default.
    Butt,
    Round,
    Square,
}

impl Default for LineCap {
    fn default() -> (r: Self)
        ensures
            r == LineCap::Butt,
    {
        LineCap::Butt
    }
}

/// How two stroke segments meet at a corner.
#[derive(Clone, Copy, Debug, PartialEq, Eq, Structural)]
pub enum LineJoin {
    /// The default.
    Miter,
    Round,
    Bevel,
}

impl Default for LineJoin {
    fn default() -> (r: Self)
        ensures
            r == LineJoin::Miter,
    {
        LineJoin::Miter
    }
}

/// Fill rule for self-intersecting and compound paths (SVG
/// `fill-rule`, PDF `f` vs `f*`).
#[derive(Clone, Copy, Debug, PartialEq, Eq, Structural)]
pub enum FillRule {
    /// The default.
    NonZero,
    EvenOdd,
}

impl Default for FillRule {
    fn default() -> (r: Self)
        ensures
            r == FillRule::NonZero,
    {
        FillRule::NonZero
    }
}

} // verus!
