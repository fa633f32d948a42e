//! Why a byte buffer was refused as a font.

use vstd::prelude::*;

verus! {

/// The reasons for which font bytes are refused.
#[derive(Debug, Clone, Copy, PartialEq, Eq, Structural)]
pub enum DecodeError {
    /// A tile font must be exactly as long as the format fixes.
    WrongSize,
    /// The data ends before the header or the declared glyph table does.
    UnexpectedEnd,
    /// The data does not begin with the PSF2 magic number.
    BadMagic,
    /// The header is readable but its glyph geometry cannot be used: a glyph
    /// cell without area, a glyph size that is not `height` padded rows, or
    /// sizes beyond what 32-bit glyph offsets can address.
    BadGeometry,
}

impl DecodeError {
    /// A short description of the error for the operator.
    pub fn message(&self) -> (text: &'static str)
        ensures
            text@ == match *self {
                DecodeError::WrongSize => "font data has the wrong size"@,
                DecodeError::UnexpectedEnd => "unexpected end"@,
                DecodeError::BadMagic => "bad magic number"@,
                DecodeError::BadGeometry => "unusable glyph geometry"@,
            },
    {
        match self {
            DecodeError::WrongSize => "font data has the wrong size",
            DecodeError::UnexpectedEnd => "unexpected end",
            DecodeError::BadMagic => "bad magic number",
            DecodeError::BadGeometry => "unusable glyph geometry",
        }
    }
}

} // verus!
