//! Vibration.
use vstd::prelude::*;

verus! {

/// Vibrate for `duration`. Does nothing on this build.
pub fn vibrate(duration: std::time::Duration) {
}

/// Play a vibration pattern of alternating wait/vibrate milliseconds. Does nothing on this build.
pub fn vibrate_pattern(pattern: &[u64]) {
}

/// Cancel any ongoing vibration. Does nothing on this build.
pub fn cancel() {
}

/// Whether the device has a vibrator. Always `false` on this build.
pub fn has_vibrator() -> (r: bool)
    ensures
        !r,
{
    false
}

} // verus!
