//! Stable sound identifiers.
use vstd::prelude::*;

verus! {

/// Stable identifier for a configured sound.
#[derive(Debug, Clone, PartialEq, Eq, Hash)]
pub enum SoundId {
    /// Bundled asset under the consumer's sounds directory, by file stem
    /// (e.g. `"happy"`).
    Bundled(String),
    /// User-imported sound, by an opaque token (typically a UUID).
    Custom(String),
    /// Platform default alarm sound, resolved through the sound backend.
    SystemDefault,
    /// Silent — vibration only.
    Silent,
}

impl SoundId {
    /// True for `Silent` — used to skip audio paths.
    pub fn is_silent(&self) -> (r: bool)
        ensures
            r == (*self is Silent),
    {
        match self {
            SoundId::Silent => true,
            _ => false,
        }
    }
}

} // verus!
