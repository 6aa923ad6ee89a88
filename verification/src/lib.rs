//! A dynamic glyph-atlas cache: an online shelf packer that hands out
//! non-overlapping sub-rectangles of a fixed canvas, and a cache that
//! rasterized glyph bitmaps are blitted into, keyed by character.

use vstd::prelude::*;

pub mod atlas;
pub mod canvas;
pub mod packer;
pub mod rect;

verus! {

/// Why an allocation or an insertion was refused.
#[derive(Clone, Copy, Debug, PartialEq, Eq, Structural)]
pub enum AtlasError {
    /// A requested width or height is zero, or exceeds the canvas dimensions.
    InvalidSize,
    /// No free region of the requested size remains in the canvas.
    OutOfSpace,
}

} // verus!
