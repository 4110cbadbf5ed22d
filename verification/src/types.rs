//! Value types shared by the capability modules.
use vstd::prelude::*;

verus! {

#[verifier::external_type_specification]
#[verifier::external_body]
pub struct ExSystemTime(std::time::SystemTime);

/// Handle to a playing audio stream, returned by `audio::play`.
#[derive(Debug, Clone, Copy, PartialEq, Eq, Hash)]
pub struct PlaybackHandle {
    id: u64,
}

impl PlaybackHandle {
    /// The handle of the stream with platform id `id`.
    pub fn from_id(id: u64) -> (h: Self)
        ensures
            h.spec_id() == id,
    {
        PlaybackHandle { id }
    }

    /// The platform id of the stream.
    pub closed spec fn spec_id(&self) -> u64 {
        self.id
    }

    /// The platform id of the stream.
    pub fn id(&self) -> (r: u64)
        ensures
            r == self.spec_id(),
    {
        self.id
    }
}

/// The kind of biometric hardware present.
#[derive(Debug, Clone, Copy, PartialEq, Eq, Hash)]
pub enum BiometricType {
    /// No biometric hardware.
    NoSensor,
    Fingerprint,
    Face,
}

/// The kind of network connection.
#[derive(Debug, Clone, Copy, PartialEq, Eq, Hash)]
pub enum ConnectionType {
    /// No connection.
    Offline,
    Wifi,
    Cellular,
}

/// The state of a runtime permission.
#[derive(Debug, Clone, Copy, PartialEq, Eq, Hash)]
pub enum PermissionState {
    Granted,
    Denied,
    NotDetermined,
}

/// A device contact.
#[derive(Debug, Clone, PartialEq, Eq)]
pub struct Contact {
    pub id: String,
    pub display_name: String,
    pub phone_numbers: Vec<String>,
    pub email_addresses: Vec<String>,
}

/// A calendar event.
#[derive(Debug, PartialEq, Eq)]
pub struct CalendarEvent {
    pub id: String,
    pub title: String,
    pub description: Option<String>,
    pub start_time: std::time::SystemTime,
    pub end_time: std::time::SystemTime,
    pub location: Option<String>,
}

/// The id of a record in a state store (its file key).
#[derive(Debug, Clone, PartialEq, Eq, Hash)]
pub struct StateId(pub String);

} // verus!
