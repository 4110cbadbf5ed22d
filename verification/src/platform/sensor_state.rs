//! Sensor state for the accelerometer shake counter and the step counter.
//!
//! The platform's sensor callbacks feed samples in; the consumer polls the
//! counts. A shake is a sample whose motion-only magnitude exceeds the
//! threshold (decided by the caller, which holds the sample), counted only
//! when more than [`SHAKE_COOLDOWN_MS`] have passed since the last counted
//! shake, so one vigorous gesture counts once.
use vstd::prelude::*;

verus! {

/// Minimum time between counted shakes, in milliseconds.
pub const SHAKE_COOLDOWN_MS: u64 = 300;

/// Sensor state: written by the sensor callbacks, read by the consumer UI.
#[derive(Debug, Clone, Copy, PartialEq, Eq)]
pub struct SensorState {
    /// Current shake count.
    pub shake_count: i32,
    /// Current step count (relative to when the step counter was started).
    pub step_count: i32,
    /// Whether the accelerometer is active.
    pub accel_active: bool,
    /// Whether the step counter is active.
    pub steps_active: bool,
    /// Time (unix ms) of the last counted shake.
    pub last_shake_ms: u64,
}

/// `a + 1` wrapping at `i32::MAX`, as an atomic counter does.
pub open spec fn wrapping_inc(a: i32) -> i32 {
    if a == i32::MAX {
        i32::MIN
    } else {
        (a + 1) as i32
    }
}

/// Whether a sample is counted as a shake: the accelerometer is active,
/// the sample is a shake, and more than the cooldown has passed since the
/// last counted shake.
pub open spec fn counts(s: SensorState, is_shake: bool, now_ms: u64) -> bool {
    s.accel_active && is_shake && now_ms - s.last_shake_ms > SHAKE_COOLDOWN_MS
}

/// The state after a sample: a counted shake increments the count and
/// restarts the cooldown; any other sample changes nothing.
pub open spec fn after_sample(s: SensorState, is_shake: bool, now_ms: u64) -> SensorState {
    if counts(s, is_shake, now_ms) {
        SensorState { shake_count: wrapping_inc(s.shake_count), last_shake_ms: now_ms, ..s }
    } else {
        s
    }
}

/// The state right after the accelerometer starts: active, the shake count
/// at zero, everything else as it was.
pub open spec fn accelerometer_started(s: SensorState) -> SensorState {
    SensorState { shake_count: 0, accel_active: true, ..s }
}

/// Starting the accelerometer puts the shake count at zero, and the next
/// sample raises it to one exactly when it is a shake more than the
/// cooldown after the last counted shake.
pub proof fn law_start_then_sample(s: SensorState, is_shake: bool, now_ms: u64)
    ensures
        accelerometer_started(s).shake_count == 0,
        after_sample(accelerometer_started(s), is_shake, now_ms).shake_count == (if is_shake
            && now_ms - s.last_shake_ms > SHAKE_COOLDOWN_MS {
            1i32
        } else {
            0i32
        }),
{
}

/// One vigorous gesture counts once: after a counted shake, no shake
/// within the cooldown is counted.
pub proof fn law_shake_cooldown(s: SensorState, t1: u64, is_shake: bool, t2: u64)
    requires
        counts(s, true, t1),
        t2 - t1 <= SHAKE_COOLDOWN_MS,
    ensures
        !counts(after_sample(s, true, t1), is_shake, t2),
{
}

impl SensorState {
    /// Nothing counted, nothing active.
    pub fn new() -> (r: Self)
        ensures
            r == (SensorState {
                shake_count: 0,
                step_count: 0,
                accel_active: false,
                steps_active: false,
                last_shake_ms: 0,
            }),
    {
        SensorState {
            shake_count: 0,
            step_count: 0,
            accel_active: false,
            steps_active: false,
            last_shake_ms: 0,
        }
    }

    /// Reset the shake count to zero (when a new shake challenge starts).
    pub fn reset_shake_count(&mut self)
        ensures
            *final(self) == (SensorState { shake_count: 0, ..*old(self) }),
    {
        self.shake_count = 0;
    }

    /// The current shake count.
    pub fn get_shake_count(&self) -> (r: i32)
        ensures
            r == self.shake_count,
    {
        self.shake_count
    }

    /// The current step count.
    pub fn get_step_count(&self) -> (r: i32)
        ensures
            r == self.step_count,
    {
        self.step_count
    }

    /// Start the accelerometer: the shake count restarts at zero.
    pub fn start_accelerometer(&mut self)
        ensures
            *final(self) == accelerometer_started(*old(self)),
    {
        self.shake_count = 0;
        self.accel_active = true;
    }

    /// Stop the accelerometer.
    pub fn stop_accelerometer(&mut self)
        ensures
            *final(self) == (SensorState { accel_active: false, ..*old(self) }),
    {
        self.accel_active = false;
    }

    /// Start the step counter: the step count restarts at zero.
    pub fn start_step_counter(&mut self)
        ensures
            *final(self) == (SensorState { step_count: 0, steps_active: true, ..*old(self) }),
    {
        self.step_count = 0;
        self.steps_active = true;
    }

    /// Stop the step counter.
    pub fn stop_step_counter(&mut self)
        ensures
            *final(self) == (SensorState { steps_active: false, ..*old(self) }),
    {
        self.steps_active = false;
    }

    /// An accelerometer sample arrived at `now_ms`; `is_shake` says whether
    /// its motion-only magnitude exceeds the threshold. While the
    /// accelerometer is active, a shake more than the cooldown after the
    /// last counted one is counted. Returns whether it was counted.
    pub fn on_accelerometer_sample(&mut self, is_shake: bool, now_ms: u64) -> (counted: bool)
        ensures
            counted == counts(*old(self), is_shake, now_ms),
            *final(self) == after_sample(*old(self), is_shake, now_ms),
    {
        if !self.accel_active || !is_shake {
            return false;
        }
        if now_ms.saturating_sub(self.last_shake_ms) > SHAKE_COOLDOWN_MS {
            self.last_shake_ms = now_ms;
            self.shake_count = if self.shake_count == i32::MAX {
                i32::MIN
            } else {
                self.shake_count + 1
            };
            true
        } else {
            false
        }
    }

    /// The step counter reported `steps`; recorded while it is active.
    pub fn on_step_count(&mut self, steps: i32)
        ensures
            old(self).steps_active ==> *final(self) == (SensorState {
                step_count: steps,
                ..*old(self)
            }),
            !old(self).steps_active ==> *final(self) == *old(self),
    {
        if self.steps_active {
            self.step_count = steps;
        }
    }
}

} // verus!
