use vstd::prelude::*;

verus! {

/// One decoded image of an animation, as the host's graphics backend reports it.
#[derive(Clone, Copy, Debug, PartialEq, Eq, Structural)]
pub struct Frame {
    /// The backend's handle of the image.
    pub id: u32,
    /// Width in pixels.
    pub width: u32,
    /// Height in pixels.
    pub height: u32,
}

} // verus!
