//! General notifications.
use vstd::prelude::*;

verus! {

/// Post a notification; `true` on success. Always `false` on this build.
pub fn post(id: &str, channel_id: &str, title: &str, body: &str, importance: i32, full_screen_intent: bool) -> (r: bool)
    ensures
        !r,
{
    false
}

/// Update a posted notification; `true` on success. Always `false` on this build.
pub fn update(id: &str, title: &str, body: &str) -> (r: bool)
    ensures
        !r,
{
    false
}

/// Cancel a notification. Does nothing on this build.
pub fn cancel(id: &str) {
}

} // verus!
