//! Clipboard.
use vstd::prelude::*;
use crate::error::{unavailable_error, SentinelError};

verus! {

/// Set the clipboard text. Unavailable on this build.
pub fn set_text(text: &str) -> (r: Result<(), SentinelError>)
    ensures
        r matches Err(e) && unavailable_error("clipboard::set_text"@, e),
{
    Err(SentinelError::unavailable("clipboard::set_text"))
}

/// The clipboard text, if any. Unavailable on this build.
pub fn get_text() -> (r: Result<Option<String>, SentinelError>)
    ensures
        r matches Err(e) && unavailable_error("clipboard::get_text"@, e),
{
    Err(SentinelError::unavailable("clipboard::get_text"))
}

/// Whether the clipboard currently holds text. Always `false` on this build.
pub fn has_text() -> (r: bool)
    ensures
        !r,
{
    false
}

} // verus!
