use vstd::prelude::*;

verus! {

/// A rectangle of pixels: its top-left corner and its size.
#[derive(Clone, Copy, PartialEq, Eq, PartialOrd, Ord, Default, Debug)]
pub struct PixelBounds {
    pub x: u32,
    pub y: u32,
    pub w: u32,
    pub h: u32,
}

impl PixelBounds {
    #[inline]
    pub fn new(x: u32, y: u32, w: u32, h: u32) -> (b: Self)
        ensures
            b == (PixelBounds { x, y, w, h }),
    {
        Self { x, y, w, h }
    }
}

} // verus!
