//! Blend modes of painting brushes.

use vstd::prelude::*;

verus! {

/// How a brush stroke is composited onto its target.
#[derive(Debug, Clone, Copy, PartialEq, Eq, Hash, Structural)]
pub enum BlendMode {
    Normal,
    /// Additive (glow).
    Add,
    /// Multiplicative (shadows).
    Multiply,
    /// Soft lightening.
    Screen,
    /// Subtractive.
    Subtract,
    /// Erasing; also selected by a brush's eraser flag.
    Eraser,
}

impl Default for BlendMode {
    fn default() -> (r: BlendMode)
        ensures
            r == BlendMode::Normal,
    {
        BlendMode::Normal
    }
}

/// The blend mode a stroke is drawn with: the eraser flag overrides the
/// brush's own mode.
pub open spec fn stroke_blend(is_eraser: bool, mode: BlendMode) -> BlendMode {
    if is_eraser {
        BlendMode::Eraser
    } else {
        mode
    }
}

/// Chooses the blend mode of a stroke from the brush's eraser flag and mode.
pub fn stroke_blend_mode(is_eraser: bool, mode: BlendMode) -> (r: BlendMode)
    ensures
        r == stroke_blend(is_eraser, mode),
{
    if is_eraser {
        BlendMode::Eraser
    } else {
        mode
    }
}

} // verus!
