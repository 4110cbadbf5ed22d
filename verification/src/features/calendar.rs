//! Calendar events.
use vstd::prelude::*;
use crate::error::{unavailable_error, SentinelError};
pub use crate::types::CalendarEvent;

verus! {

/// Events between `start` and `end`. Unavailable on this build.
pub fn get_events(start: std::time::SystemTime, end: std::time::SystemTime) -> (r: Result<Vec<CalendarEvent>, SentinelError>)
    ensures
        r matches Err(e) && unavailable_error("calendar::get_events"@, e),
{
    Err(SentinelError::unavailable("calendar::get_events"))
}

/// Create an event. Unavailable on this build.
pub fn create_event(event: &CalendarEvent) -> (r: Result<(), SentinelError>)
    ensures
        r matches Err(e) && unavailable_error("calendar::create_event"@, e),
{
    Err(SentinelError::unavailable("calendar::create_event"))
}

/// Delete an event by id. Unavailable on this build.
pub fn delete_event(id: &str) -> (r: Result<(), SentinelError>)
    ensures
        r matches Err(e) && unavailable_error("calendar::delete_event"@, e),
{
    Err(SentinelError::unavailable("calendar::delete_event"))
}

} // verus!
