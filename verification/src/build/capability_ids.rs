//! The capability id list: the single primitive the registry and the
//! feature-to-capability mapping share.
//!
//! Each entry is a capability id in `lower_snake_case`. The relationship to a
//! consumer's Cargo feature is mechanical: the feature name is the id with
//! `_` written as `-` where the feature is kebab-case, and
//! [`crate::build::registry::cargo_feature_to_capability`] snake-cases a
//! feature name before looking it up in the capability table.
use vstd::prelude::*;

verus! {

/// Every capability id mobile-sentinel knows, as a specification.
pub open spec fn capability_ids_spec() -> Seq<&'static str> {
    seq![
        "scanner", "camera", "haptics", "audio", "overlay", "permissions", "sensors", "torch",
        "display", "battery", "screen_pin", "foregrounding", "media_picker", "clipboard", "share",
        "secure_storage", "sms", "phone", "network", "location", "maps", "biometric",
        "device_admin", "contacts", "calendar", "dismiss_guard", "notifications", "file_system",
        "accessibility", "foreground_service", "firing_audio", "firing_vibration", "wake_lock",
        "exact_alarm", "kiosk", "full_screen_intent", "jobs",
    ]
}

/// The firing sub-feature ids the `firing` convenience bundle expands to.
pub open spec fn firing_bundle_ids_spec() -> Seq<&'static str> {
    seq![
        "foreground_service", "firing_audio", "firing_vibration", "wake_lock", "exact_alarm",
        "kiosk", "full_screen_intent",
    ]
}

/// Every capability id mobile-sentinel knows. Order is irrelevant (callers
/// treat it as a set): leaf capabilities, then the firing sub-features, then
/// the building blocks with a Kotlin surface.
pub fn capability_ids() -> (ids: &'static [&'static str])
    ensures
        ids@ == capability_ids_spec(),
{
    &[
        "scanner",
        "camera",
        "haptics",
        "audio",
        "overlay",
        "permissions",
        "sensors",
        "torch",
        "display",
        "battery",
        "screen_pin",
        "foregrounding",
        "media_picker",
        "clipboard",
        "share",
        "secure_storage",
        "sms",
        "phone",
        "network",
        "location",
        "maps",
        "biometric",
        "device_admin",
        "contacts",
        "calendar",
        "dismiss_guard",
        "notifications",
        "file_system",
        "accessibility",
        "foreground_service",
        "firing_audio",
        "firing_vibration",
        "wake_lock",
        "exact_alarm",
        "kiosk",
        "full_screen_intent",
        "jobs",
    ]
}

/// The firing sub-feature ids the `firing` bundle composes (the complete
/// firing surface). Mirrors the `firing` entry of the crate's feature table.
pub fn firing_bundle_ids() -> (ids: &'static [&'static str])
    ensures
        ids@ == firing_bundle_ids_spec(),
{
    &[
        "foreground_service",
        "firing_audio",
        "firing_vibration",
        "wake_lock",
        "exact_alarm",
        "kiosk",
        "full_screen_intent",
    ]
}

} // verus!
