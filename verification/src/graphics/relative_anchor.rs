use vstd::prelude::*;

verus! {

/// A point of a bounding box that an entity is anchored to.
#[derive(Clone, Copy, PartialEq, Eq, Hash, Debug)]
pub enum RelativeAnchor {
    TopLeft,
    TopCenter,
    TopRight,
    CenterLeft,
    Center,
    CenterRight,
    BottomLeft,
    BottomCenter,
    BottomRight,
}

impl Default for RelativeAnchor {
    fn default() -> (anchor: Self)
        ensures
            anchor == RelativeAnchor::TopLeft,
    {
        RelativeAnchor::TopLeft
    }
}

} // verus!
