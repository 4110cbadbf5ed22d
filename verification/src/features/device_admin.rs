//! Device-admin force-lock.
use vstd::prelude::*;

verus! {

/// Whether device admin is currently active. Always `false` on this build.
pub fn is_active() -> (r: bool)
    ensures
        !r,
{
    false
}

/// Launch the system "add device admin" screen. Does nothing on this build.
pub fn request() {
}

/// Relinquish device admin. Does nothing on this build.
pub fn relinquish() {
}

} // verus!
