//! Photo capture through the system camera app.
use vstd::prelude::*;
use crate::error::{unavailable_error, SentinelError};

verus! {

/// Take a photo with the system camera app, returning the path of the saved JPEG. Unavailable on this build.
pub fn capture_photo() -> (r: Result<String, SentinelError>)
    ensures
        r matches Err(e) && unavailable_error("camera::capture_photo"@, e),
{
    Err(SentinelError::unavailable("camera::capture_photo"))
}

/// Whether photo capture is backed on this platform. Always `false` on this build.
pub fn is_available() -> (r: bool)
    ensures
        !r,
{
    false
}

/// What a capture returns: the saved path, or the unavailable error when
/// the platform returned no path (no camera app, or a cancelled capture).
pub fn captured(path: String, feature: &str) -> (r: Result<String, SentinelError>)
    ensures
        path@.len() > 0 ==> r == Ok::<String, SentinelError>(path),
        path@.len() == 0 ==> (r matches Err(e) && unavailable_error(feature@, e)),
{
    if path.as_str().unicode_len() == 0 {
        Err(SentinelError::unavailable(feature))
    } else {
        Ok(path)
    }
}

} // verus!
