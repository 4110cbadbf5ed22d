//! System share sheet.
use vstd::prelude::*;
use crate::error::{unavailable_error, SentinelError};

verus! {

/// Share the text `content`. Unavailable on this build.
pub fn text(content: &str, title: Option<&str>) -> (r: Result<(), SentinelError>)
    ensures
        r matches Err(e) && unavailable_error("share::text"@, e),
{
    Err(SentinelError::unavailable("share::text"))
}

/// Share the link `link`. Unavailable on this build.
pub fn url(link: &str, title: Option<&str>) -> (r: Result<(), SentinelError>)
    ensures
        r matches Err(e) && unavailable_error("share::url"@, e),
{
    Err(SentinelError::unavailable("share::url"))
}

/// Share the file at `path`. Unavailable on this build.
pub fn file(path: &str, mime_type: &str) -> (r: Result<(), SentinelError>)
    ensures
        r matches Err(e) && unavailable_error("share::file"@, e),
{
    Err(SentinelError::unavailable("share::file"))
}

} // verus!
