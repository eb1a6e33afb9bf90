//! Identifiers and options of the text subsystem.

use vstd::prelude::*;

verus! {

/// Identifier of a loaded font.
#[derive(Debug, Clone, Copy, PartialEq, Eq, Hash, Structural)]
pub struct FontId(pub usize);

/// Identifier of a font asset as handed to users.
#[derive(Debug, Clone, Copy, PartialEq, Eq, Hash, Structural)]
pub struct FontAsset(pub u64);

/// Horizontal alignment of text.
#[derive(Debug, Clone, Copy, PartialEq, Eq, Hash, Structural)]
pub enum TextAlign {
    Left,
    Center,
    Right,
    Justified,
}

/// The alignment that a stored alignment byte selects: 0 left, 1 centre,
/// 2 right, 3 justified; any other byte falls back to left.
pub open spec fn align_of_byte(align: u8) -> TextAlign {
    if align == 1 {
        TextAlign::Center
    } else if align == 2 {
        TextAlign::Right
    } else if align == 3 {
        TextAlign::Justified
    } else {
        TextAlign::Left
    }
}

/// Decodes a stored alignment byte; unknown bytes mean left alignment.
pub fn map_align(align: u8) -> (r: TextAlign)
    ensures
        r == align_of_byte(align),
{
    match align {
        0 => TextAlign::Left,
        1 => TextAlign::Center,
        2 => TextAlign::Right,
        3 => TextAlign::Justified,
        _ => TextAlign::Left,
    }
}

impl FontId {
    /// The default font identifier, 0.
    pub fn default_id() -> (r: FontId)
        ensures
            r.0 == 0,
    {
        FontId(0)
    }
}

} // verus!
