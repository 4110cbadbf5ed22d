//! Foregrounding: finish the activity.
use vstd::prelude::*;

verus! {

/// Finish the current activity and remove its task. Does nothing on this build.
pub fn finish_activity() {
}

} // verus!
