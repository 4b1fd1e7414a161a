//! The ways in which rendering a banner can fail.

use vstd::prelude::*;

verus! {

/// One of the two dimensions of a raster.
#[derive(Clone, Copy, Debug, PartialEq, Eq, Structural)]
pub enum Axis {
    Width,
    Height,
}

/// Why a picture could not be embedded.
#[derive(Clone, Copy, Debug, PartialEq, Eq, Structural)]
pub enum EmbedError {
    /// The picture could not be read or decoded.
    LoadError,
    /// The picture cannot be scaled to the requested width: it has no columns
    /// to scale from, or the scaled picture is beyond what can be addressed.
    ScaleError,
    /// The picture, at its effective size, reaches over the canvas.
    FitError {
        /// The dimension in which it does not fit.
        axis: Axis,
        /// Where the picture was to start in that dimension.
        offset: u32,
        /// The picture's extent in that dimension.
        size: u32,
        /// The canvas' extent in that dimension.
        available: u32,
    },
}

/// Why no banner was produced.
#[derive(Clone, Copy, Debug, PartialEq, Eq, Structural)]
pub enum RenderError {
    /// The headline is longer than the limit.
    TextTooLong,
    /// A colour is not made of six or eight hexadecimal digits.
    MalformedColor,
    /// The canvas asked for is larger than can be held in memory.
    CanvasTooLarge,
    /// The picture with this index in the banner could not be embedded.
    Embed { index: usize, error: EmbedError },
    /// The line with this index reads from right to left and is wider than
    /// the room to the left of its anchor.
    RtlBoundsError { line: usize, x: u32, width: u32 },
    /// The headline does not fit the canvas: its block of lines is taller
    /// than the canvas, or one of its lines is wider.
    HeadlineTooLarge,
    /// A text was to start beyond the largest coordinate that can be drawn
    /// at.
    OriginOutOfRange,
}

} // verus!
