//! Barcode and QR scanning.
use vstd::prelude::*;
use crate::error::{unavailable_error, SentinelError};

verus! {

/// Scan a code, returning its value. Unavailable on this build.
pub fn scan() -> (r: Result<String, SentinelError>)
    ensures
        r matches Err(e) && unavailable_error("scanner::scan"@, e),
{
    Err(SentinelError::unavailable("scanner::scan"))
}

/// Whether scanning is backed on this platform. Always `false` on this build.
pub fn is_available() -> (r: bool)
    ensures
        !r,
{
    false
}

} // verus!
