//! Network connectivity.
use vstd::prelude::*;
pub use crate::types::ConnectionType;

verus! {

/// Whether the device is connected. Always `false` on this build.
pub fn is_connected() -> (r: bool)
    ensures
        !r,
{
    false
}

/// The connection type: offline on this build.
pub fn connection_type() -> (r: ConnectionType)
    ensures
        r == ConnectionType::Offline,
{
    ConnectionType::Offline
}

/// The platform's connection code read as a [`ConnectionType`]: 1 is
/// Wi-Fi, 2 cellular, anything else offline.
pub fn connection_type_from_code(code: i32) -> (r: ConnectionType)
    ensures
        r == (if code == 1 {
            ConnectionType::Wifi
        } else if code == 2 {
            ConnectionType::Cellular
        } else {
            ConnectionType::Offline
        }),
{
    match code {
        1 => ConnectionType::Wifi,
        2 => ConnectionType::Cellular,
        _ => ConnectionType::Offline,
    }
}

} // verus!
