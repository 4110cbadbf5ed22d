//! Encrypted key/value storage.
use vstd::prelude::*;
use crate::error::{unavailable_error, SentinelError};

verus! {

/// Store `value` under `key`. Unavailable on this build.
pub fn set(key: &str, value: &str) -> (r: Result<(), SentinelError>)
    ensures
        r matches Err(e) && unavailable_error("secure_storage::set"@, e),
{
    Err(SentinelError::unavailable("secure_storage::set"))
}

/// The value stored under `key`, if any. Unavailable on this build.
pub fn get(key: &str) -> (r: Result<Option<String>, SentinelError>)
    ensures
        r matches Err(e) && unavailable_error("secure_storage::get"@, e),
{
    Err(SentinelError::unavailable("secure_storage::get"))
}

/// Remove `key`. Unavailable on this build.
pub fn delete(key: &str) -> (r: Result<(), SentinelError>)
    ensures
        r matches Err(e) && unavailable_error("secure_storage::delete"@, e),
{
    Err(SentinelError::unavailable("secure_storage::delete"))
}

/// Remove every key. Unavailable on this build.
pub fn clear() -> (r: Result<(), SentinelError>)
    ensures
        r matches Err(e) && unavailable_error("secure_storage::clear"@, e),
{
    Err(SentinelError::unavailable("secure_storage::clear"))
}

} // verus!
