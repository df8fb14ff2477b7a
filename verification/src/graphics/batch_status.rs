use vstd::prelude::*;

verus! {

/// Where a batch of draw data stands.
#[derive(Clone, Copy, PartialEq, Eq, Debug)]
pub enum BatchStatus {
    /// Batch is empty
    Empty,
    /// Batch is not empty and is ready to upload data to the GPU
    NonEmpty,
    /// Batch is ready to draw
    Ready,
}

impl Default for BatchStatus {
    fn default() -> (status: Self)
        ensures
            status == BatchStatus::Empty,
    {
        BatchStatus::Empty
    }
}

} // verus!
