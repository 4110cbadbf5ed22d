//! Sound Library — bundled, custom and system-default sound resolution.
//!
//! A standalone capability: a sound is referenced by [`SoundId`], never by
//! file path, and resolved to a playable URI by the [`SoundLibrary`], which
//! asks its [`SoundBackend`] for the system-default sound.
pub mod library;
pub mod sound_id;

pub use library::{SoundBackend, SoundEntry, SoundError, SoundLibrary};
pub use sound_id::SoundId;
