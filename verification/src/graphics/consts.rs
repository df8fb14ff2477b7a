use vstd::prelude::*;

verus! {

/// Filters to apply when sampling textures.
#[derive(Clone, Copy, PartialEq, Eq, Debug)]
pub enum FilterMode {
    /// Textures are pixelated when magnified.
    Nearest,
    /// Textures are smooth, but blurry when magnified.
    Linear,
}

/// Where a batch of draw data stands.
#[derive(Clone, Copy, PartialEq, Eq, Debug)]
pub enum BatchStatus {
    Empty,
    NonEmpty,
    Ready,
}

impl Default for BatchStatus {
    fn default() -> (status: Self)
        ensures
            status == BatchStatus::Empty,
    {
        BatchStatus::Empty
    }
}

} // verus!
