//! Non-firing audio preview.
use vstd::prelude::*;
use crate::error::{unavailable_error, SentinelError};
use crate::types::PlaybackHandle;

verus! {

/// Play audio from a file path or URI, returning a handle for later stop. Unavailable on this build.
pub fn play(uri: &str, looping: bool) -> (r: Result<PlaybackHandle, SentinelError>)
    ensures
        r matches Err(e) && unavailable_error("audio::play"@, e),
{
    Err(SentinelError::unavailable("audio::play"))
}

/// Stop a handle returned by [`play`]. Unavailable on this build.
pub fn stop(handle: &PlaybackHandle) -> (r: Result<(), SentinelError>)
    ensures
        r matches Err(e) && unavailable_error("audio::stop"@, e),
{
    Err(SentinelError::unavailable("audio::stop"))
}

/// What `play` makes of the platform's stream id: a handle for a positive
/// id, the unavailable error otherwise.
pub fn playback_from_id(id: i64) -> (r: Result<PlaybackHandle, SentinelError>)
    ensures
        id > 0 ==> (r matches Ok(h) && h.spec_id() == id),
        id <= 0 ==> (r matches Err(e) && unavailable_error("audio::play"@, e)),
{
    if id > 0 {
        Ok(PlaybackHandle::from_id(id as u64))
    } else {
        Err(SentinelError::unavailable("audio::play"))
    }
}

} // verus!
