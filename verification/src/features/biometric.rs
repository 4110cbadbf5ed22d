//! Biometric authentication.
use vstd::prelude::*;
use crate::error::{unavailable_error, SentinelError};
pub use crate::types::BiometricType;

verus! {

/// Whether biometric authentication is available. Always `false` on this build.
pub fn is_available() -> (r: bool)
    ensures
        !r,
{
    false
}

/// Prompt for biometric authentication with `reason`. Unavailable on this build.
pub fn authenticate(reason: &str) -> (r: Result<(), SentinelError>)
    ensures
        r matches Err(e) && unavailable_error("biometric::authenticate"@, e),
{
    Err(SentinelError::unavailable("biometric::authenticate"))
}

/// The biometric hardware present: none on this build.
pub fn biometric_type() -> (r: BiometricType)
    ensures
        r == BiometricType::NoSensor,
{
    BiometricType::NoSensor
}

/// The platform's hardware code read as a [`BiometricType`]: 1 is a
/// fingerprint sensor, 2 face recognition, anything else none.
pub fn biometric_type_from_code(code: i32) -> (r: BiometricType)
    ensures
        r == (if code == 1 {
            BiometricType::Fingerprint
        } else if code == 2 {
            BiometricType::Face
        } else {
            BiometricType::NoSensor
        }),
{
    match code {
        1 => BiometricType::Fingerprint,
        2 => BiometricType::Face,
        _ => BiometricType::NoSensor,
    }
}

} // verus!
