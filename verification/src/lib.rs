//! mobile-sentinel: the capability registry and build-time wiring of an
//! Android project, the capability modules, the firing surface, and the
//! building blocks (jobs, sound library, state store) of an alarm app.
use vstd::prelude::*;

pub mod build;
pub mod error;
pub mod features;
pub mod firing;
pub mod init;
pub mod platform;
pub mod text;
pub mod types;

pub use build::registry::{assemble, capability, Capability, ManifestInjection};
pub use error::{Platform, SentinelError};
pub use features::jobs::{Job, JobConfig, JobGuardianError, JobStatus};
pub use features::sound::library::{SoundBackend, SoundEntry, SoundError, SoundLibrary};
pub use features::sound::sound_id::SoundId;
pub use features::state_store::revision::Revision as StateRevision;
pub use features::state_store::{StateStore, Stateful};
pub use features::{
    accessibility, audio, battery, biometric, calendar, camera, clipboard, contacts, device_admin,
    dismiss_guard, display, file_system, foregrounding, haptics, jobs, location, media_picker,
    network, notifications, overlay, permissions, phone, scanner, screen_pin, secure_storage,
    sensors, share, sms, sound, state_store, torch,
};
pub use firing::{ExactAlarmRequest, FireRequest, FiringSink, MockFiringSink};
pub use init::InitConfig;
pub use platform::android_firing::AndroidFiringSink;
pub use platform::callbacks;
pub use types::{
    BiometricType, CalendarEvent, ConnectionType, Contact, PermissionState, PlaybackHandle, StateId,
};

verus! {

} // verus!
