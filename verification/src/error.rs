use vstd::prelude::*;

verus! {

/// Why a load or a lookup failed.
#[derive(Clone, Copy, Debug, PartialEq, Eq, Structural)]
pub enum TextureError {
    /// A directory could not be listed, or one of its files did not decode as an image.
    IOError,
    /// A directory holds no frame at all.
    ConfigError,
    /// The path was never loaded.
    NotFoundError,
}

} // verus!
