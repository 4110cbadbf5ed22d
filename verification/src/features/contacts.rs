//! Device contacts.
use vstd::prelude::*;
use crate::error::{unavailable_error, SentinelError};
pub use crate::types::Contact;

verus! {

/// All device contacts. Unavailable on this build.
pub fn get_all() -> (r: Result<Vec<Contact>, SentinelError>)
    ensures
        r matches Err(e) && unavailable_error("contacts::get_all"@, e),
{
    Err(SentinelError::unavailable("contacts::get_all"))
}

/// Contacts matching `query`. Unavailable on this build.
pub fn search(query: &str) -> (r: Result<Vec<Contact>, SentinelError>)
    ensures
        r matches Err(e) && unavailable_error("contacts::search"@, e),
{
    Err(SentinelError::unavailable("contacts::search"))
}

/// Whether the contacts read permission is granted. Always `false` on this build.
pub fn has_permission() -> (r: bool)
    ensures
        !r,
{
    false
}

} // verus!
