//! Accelerometer shake counter and step counter.
use vstd::prelude::*;

verus! {

/// Start the accelerometer for shake detection. Does nothing on this build.
pub fn start_accelerometer() {
}

/// Stop the accelerometer. Does nothing on this build.
pub fn stop_accelerometer() {
}

/// The current shake count: 0 on this build.
pub fn shake_count() -> (r: i32)
    ensures
        r == 0,
{
    0
}

/// Reset the shake count. Does nothing on this build.
pub fn reset_shake_count() {
}

/// Start the step counter. Does nothing on this build.
pub fn start_step_counter() {
}

/// Stop the step counter. Does nothing on this build.
pub fn stop_step_counter() {
}

/// The current step count: 0 on this build.
pub fn step_count() -> (r: i32)
    ensures
        r == 0,
{
    0
}

} // verus!
