use vstd::prelude::*;

verus! {

/// Errors that WAD decoding and asset lookup can produce.
#[derive(Clone, Copy, Debug, PartialEq, Eq, Structural)]
pub enum WadError {
    /// The container magic is not "IWAD".
    InvalidContainer,
    /// A required lump (palette, map marker, texture list) is absent.
    MissingLump,
    /// A record's size, count or index is out of range for the file.
    MalformedRecord,
    /// A texture name is not in the store.
    UnknownTexture,
    /// A flat name is not in the store.
    UnknownFlat,
    /// A sprite, frame or rotation is not in the store.
    UnknownSprite,
    /// A thing's type code has no descriptor; the thing is skipped.
    UnknownThingType,
}

impl WadError {
    /// A short human-readable description, for diagnostics at the program's edge.
    pub fn describe(&self) -> &'static str {
        match self {
            WadError::InvalidContainer => "unsupported WAD container: magic is not IWAD",
            WadError::MissingLump => "a required lump is missing",
            WadError::MalformedRecord => "a record is malformed or out of range",
            WadError::UnknownTexture => "unknown texture",
            WadError::UnknownFlat => "unknown flat",
            WadError::UnknownSprite => "unknown sprite",
            WadError::UnknownThingType => "unknown thing type",
        }
    }
}

} // verus!
