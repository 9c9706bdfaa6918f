//! Integer geometry shared by textures and pooled images.

use vstd::prelude::*;

verus! {

/// A width and a height, in texels.
#[derive(Clone, Copy, Debug, PartialEq, Eq, Structural)]
pub struct Extent {
    pub x: u32,
    pub y: u32,
}

impl Extent {
    /// Whether a surface of this size has room for one of size `other`.
    pub open spec fn covers(self, other: Extent) -> bool {
        self.x >= other.x && self.y >= other.y
    }

    pub fn new(x: u32, y: u32) -> (r: Extent)
        ensures
            r == (Extent { x, y }),
    {
        Extent { x, y }
    }

    /// Decides `covers`.
    pub fn fits(&self, other: &Extent) -> (r: bool)
        ensures
            r == self.covers(*other),
    {
        self.x >= other.x && self.y >= other.y
    }
}

} // verus!
