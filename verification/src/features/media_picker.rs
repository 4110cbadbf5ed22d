//! Native media and file picker.
use vstd::prelude::*;
use crate::error::{unavailable_error, SentinelError};

verus! {

/// Pick a file of one of `mime_types`, returning its path. Unavailable on this build.
pub fn pick_file(mime_types: &[&str]) -> (r: Result<String, SentinelError>)
    ensures
        r matches Err(e) && unavailable_error("media_picker::pick_file"@, e),
{
    Err(SentinelError::unavailable("media_picker::pick_file"))
}

/// The MIME type the picker is opened with: the first of `mime_types`, or
/// `*/*` when none is given.
pub fn picker_mime<'a>(mime_types: &[&'a str]) -> (r: &'a str)
    ensures
        mime_types@.len() > 0 ==> r == mime_types@[0],
        mime_types@.len() == 0 ==> r@ == ANY_MIME@,
{
    if mime_types.len() > 0 {
        mime_types[0]
    } else {
        ANY_MIME
    }
}

/// What a pick returns once the platform picker has answered with `path`:
/// the path, or the unavailable error when it is empty (cancelled, timed
/// out, or the picker could not be reached).
pub fn picked(path: String) -> (r: Result<String, SentinelError>)
    ensures
        path@.len() > 0 ==> r == Ok::<String, SentinelError>(path),
        path@.len() == 0 ==> (r matches Err(e) && unavailable_error("media_picker::pick_file"@, e)),
{
    crate::features::camera::captured(path, "media_picker::pick_file")
}

/// Any MIME type.
pub const ANY_MIME: &'static str = "*/*";

} // verus!
