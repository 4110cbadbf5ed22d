//! System screen pinning.
use vstd::prelude::*;

verus! {

/// Pin the screen. Does nothing on this build.
pub fn pin() {
}

/// Unpin the screen. Does nothing on this build.
pub fn unpin() {
}

/// Whether the screen is pinned. Always `false` on this build.
pub fn is_pinned() -> (r: bool)
    ensures
        !r,
{
    false
}

} // verus!
