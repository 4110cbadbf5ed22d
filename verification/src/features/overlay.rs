//! Draw-over-apps overlay permission.
use vstd::prelude::*;

verus! {

/// Whether the overlay permission is granted. Always `false` on this build.
pub fn is_granted() -> (r: bool)
    ensures
        !r,
{
    false
}

/// Request the overlay permission. Does nothing on this build.
pub fn request() {
}

} // verus!
