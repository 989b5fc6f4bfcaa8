use vstd::prelude::*;

verus! {

/// Why loading a map asset failed.
///
/// Loading is all-or-nothing: a caller receives either a fully constructed
/// map or exactly one of these, never a partially initialized value.
#[derive(Debug, Clone, Copy, PartialEq, Eq, Structural)]
pub enum MapError {
    /// The metadata file or the image file is absent.
    AssetNotFound,
    /// The metadata file is present but does not match the required shape.
    MalformedAsset,
    /// The image bytes are present but could not be decoded or uploaded.
    DecodeError,
}

impl MapError {
    /// A short, stable description of the error for logs and messages.
    pub fn message(&self) -> (m: &'static str)
        ensures
            m@ == match *self {
                MapError::AssetNotFound => "asset not found"@,
                MapError::MalformedAsset => "malformed asset"@,
                MapError::DecodeError => "decode error"@,
            },
    {
        match self {
            MapError::AssetNotFound => "asset not found",
            MapError::MalformedAsset => "malformed asset",
            MapError::DecodeError => "decode error",
        }
    }
}

} // verus!
