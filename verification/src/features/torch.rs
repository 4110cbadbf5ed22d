//! Torch.
use vstd::prelude::*;

verus! {

/// Turn the torch off. Does nothing on this build.
pub fn off() {
}

/// Whether the device has a torch. Always `false` on this build.
pub fn is_available() -> (r: bool)
    ensures
        !r,
{
    false
}

} // verus!
