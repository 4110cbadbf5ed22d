//! Display: brightness, keep-screen-on and the requested orientation.
use vstd::prelude::*;

verus! {

/// Force maximum brightness. Does nothing on this build.
pub fn set_max_brightness() {
}

/// Restore brightness to the value before it was changed. Does nothing on this build.
pub fn restore_brightness() {
}

/// Keep the screen on (or release). Does nothing on this build.
pub fn keep_screen_on(enabled: bool) {
}

/// Screen orientation modes, mapping to the Android
/// `ActivityInfo.SCREEN_ORIENTATION_*` constants.
#[derive(Clone, Copy, Debug, PartialEq, Eq, Hash)]
pub enum ScreenOrientation {
    /// Locked portrait.
    Portrait,
    /// Locked landscape.
    Landscape,
    /// Sensor-driven portrait that permits 180° flips.
    SensorPortrait,
    /// Sensor-driven landscape.
    SensorLandscape,
    /// Full sensor freedom.
    FullSensor,
    /// Let the system decide.
    Unspecified,
    /// Ignore the sensor; keep the current orientation.
    Nosensor,
    /// Match the activity behind this one.
    Behind,
    /// Respect the user's rotation preference.
    User,
}

/// The Android constant of an orientation.
pub open spec fn android_constant(o: ScreenOrientation) -> i32 {
    match o {
        ScreenOrientation::Portrait => 1,
        ScreenOrientation::Landscape => 0,
        ScreenOrientation::SensorPortrait => 7,
        ScreenOrientation::SensorLandscape => 6,
        ScreenOrientation::FullSensor => 10,
        ScreenOrientation::Unspecified => -1i32,
        ScreenOrientation::Nosensor => 5,
        ScreenOrientation::Behind => 3,
        ScreenOrientation::User => 2,
    }
}

impl ScreenOrientation {
    /// The Android `SCREEN_ORIENTATION_*` constant.
    pub fn to_android_constant(self) -> (r: i32)
        ensures
            r == android_constant(self),
    {
        match self {
            ScreenOrientation::Portrait => 1,
            ScreenOrientation::Landscape => 0,
            ScreenOrientation::SensorPortrait => 7,
            ScreenOrientation::SensorLandscape => 6,
            ScreenOrientation::FullSensor => 10,
            ScreenOrientation::Unspecified => -1,
            ScreenOrientation::Nosensor => 5,
            ScreenOrientation::Behind => 3,
            ScreenOrientation::User => 2,
        }
    }

    /// The orientation whose constant is `code`, if any.
    pub fn from_android_constant(code: i32) -> (r: Option<ScreenOrientation>)
        ensures
            match r {
                Some(o) => android_constant(o) == code,
                None => forall|o: ScreenOrientation| android_constant(o) != code,
            },
    {
        match code {
            1 => Some(ScreenOrientation::Portrait),
            0 => Some(ScreenOrientation::Landscape),
            7 => Some(ScreenOrientation::SensorPortrait),
            6 => Some(ScreenOrientation::SensorLandscape),
            10 => Some(ScreenOrientation::FullSensor),
            -1 => Some(ScreenOrientation::Unspecified),
            5 => Some(ScreenOrientation::Nosensor),
            3 => Some(ScreenOrientation::Behind),
            2 => Some(ScreenOrientation::User),
            _ => None,
        }
    }
}

/// Request a runtime screen orientation for the current activity. Does
/// nothing on this build.
pub fn set_requested_orientation(orientation: ScreenOrientation) {
}

/// The orientation last requested: none on this build, which has no
/// activity.
pub fn current_requested_orientation() -> (r: Option<ScreenOrientation>)
    ensures
        r is None,
{
    None
}

} // verus!
