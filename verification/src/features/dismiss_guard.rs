//! Dismiss guard: block back and recents-swipe.
use vstd::prelude::*;

verus! {

/// Activate dismiss prevention. Does nothing on this build.
pub fn activate() {
}

/// Deactivate dismiss prevention. Does nothing on this build.
pub fn deactivate() {
}

/// Whether dismiss prevention is active. Always `false` on this build.
pub fn is_active() -> (r: bool)
    ensures
        !r,
{
    false
}

} // verus!
