//! Battery-optimization exemption.
use vstd::prelude::*;

verus! {

/// Whether the app is exempt from battery optimization. Always `false` on this build.
pub fn is_exempt() -> (r: bool)
    ensures
        !r,
{
    false
}

/// Request battery-optimization exemption (shows the system prompt). Does nothing on this build.
pub fn request_exemption() {
}

/// Open the battery-optimization settings page. Does nothing on this build.
pub fn open_settings() {
}

} // verus!
