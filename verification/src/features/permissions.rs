//! Runtime permissions.
use vstd::prelude::*;
pub use crate::types::PermissionState;

verus! {

/// The state of `permission`: not determined on this build.
pub fn status(permission: &str) -> (r: PermissionState)
    ensures
        r == PermissionState::NotDetermined,
{
    PermissionState::NotDetermined
}

/// Request `permission`: not determined on this build.
pub fn request(permission: &str) -> (r: PermissionState)
    ensures
        r == PermissionState::NotDetermined,
{
    PermissionState::NotDetermined
}

/// Open the app settings page. Does nothing on this build.
pub fn open_app_settings() {
}

/// The state a permission check reports.
pub fn state_from_check(granted: bool) -> (r: PermissionState)
    ensures
        r == (if granted {
            PermissionState::Granted
        } else {
            PermissionState::Denied
        }),
{
    if granted {
        PermissionState::Granted
    } else {
        PermissionState::Denied
    }
}

/// The state a permission request reports: code 0 is granted, any other
/// code (no activity, or denied) is denied.
pub fn state_from_request_code(code: i32) -> (r: PermissionState)
    ensures
        r == (if code == 0 {
            PermissionState::Granted
        } else {
            PermissionState::Denied
        }),
{
    if code == 0 {
        PermissionState::Granted
    } else {
        PermissionState::Denied
    }
}

} // verus!
