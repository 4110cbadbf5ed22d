//! SMS sending.
use vstd::prelude::*;
use crate::error::{unavailable_error, SentinelError};

verus! {

/// Send `message` to `number`. Unavailable on this build.
pub fn send(number: &str, message: &str) -> (r: Result<(), SentinelError>)
    ensures
        r matches Err(e) && unavailable_error("sms::send"@, e),
{
    Err(SentinelError::unavailable("sms::send"))
}

/// Whether SMS sending is available. Always `false` on this build.
pub fn is_available() -> (r: bool)
    ensures
        !r,
{
    false
}

} // verus!
