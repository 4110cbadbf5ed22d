//! Bundled-asset file-system helpers.
use vstd::prelude::*;

verus! {

/// Copy a bundled APK asset to a file-system destination; `true` on success. Always `false` on this build.
pub fn copy_asset(asset_path: &str, dest_path: &str) -> (r: bool)
    ensures
        !r,
{
    false
}

/// The bundled APK assets under `path`, as a JSON array: the empty array on
/// this build.
pub fn list_assets(path: &str) -> (r: String)
    ensures
        r@ == EMPTY_JSON_ARRAY@,
{
    EMPTY_JSON_ARRAY.to_owned()
}

/// The empty JSON array.
pub const EMPTY_JSON_ARRAY: &'static str = "[]";

} // verus!
