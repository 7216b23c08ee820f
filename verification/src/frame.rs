//! What the smoothing logic knows of an input image.

use crate::crop::CropResult;
use vstd::prelude::*;

verus! {

/// An input image, as far as the decisions here depend on it: a handle by
/// which the caller finds the pixels again, and the width in pixels that
/// tolerances are measured against.
#[derive(Clone, Copy, Debug, PartialEq, Eq, Structural)]
pub struct Frame {
    pub id: u64,
    pub width: u32,
}

impl Frame {
    /// The frame with handle `id` that is `width` pixels wide.
    pub fn new(id: u64, width: u32) -> (frame: Frame)
        ensures
            frame == (Frame { id, width }),
    {
        Frame { id, width }
    }
}

/// A frame together with the crop it is to be shown with.
#[derive(Clone, Copy, Debug, PartialEq, Eq, Structural)]
pub struct CommittedFrame {
    pub image: Frame,
    pub crop: CropResult,
}

} // verus!
