use vstd::prelude::*;

verus! {

/// Wraps a window so that it can be handed to code that expects the older
/// raw-window-handle interface.
pub struct OldRawWindowHandleWrapper<W>(pub W);

} // verus!
