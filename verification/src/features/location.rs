//! Device location.
use vstd::prelude::*;

verus! {

/// Whether location services are enabled. Always `false` on this build.
pub fn is_enabled() -> (r: bool)
    ensures
        !r,
{
    false
}

} // verus!
