//! Phone dial and call state.
use vstd::prelude::*;
use crate::error::{unavailable_error, SentinelError};

verus! {

/// Dial `number`. Unavailable on this build.
pub fn dial(number: &str) -> (r: Result<(), SentinelError>)
    ensures
        r matches Err(e) && unavailable_error("phone::dial"@, e),
{
    Err(SentinelError::unavailable("phone::dial"))
}

/// Whether a call is in progress. Always `false` on this build.
pub fn is_in_call() -> (r: bool)
    ensures
        !r,
{
    false
}

} // verus!
