//! Consumer-facing capabilities, one module each. This build has no
//! platform backing, so each entry point reports the capability as
//! unavailable (or does nothing); the functions that read a platform
//! result (a code, a list) hold the decisions the platform build makes.
pub mod accessibility;
pub mod audio;
pub mod battery;
pub mod biometric;
pub mod calendar;
pub mod camera;
pub mod clipboard;
pub mod contacts;
pub mod device_admin;
pub mod dismiss_guard;
pub mod display;
pub mod file_system;
pub mod foregrounding;
pub mod haptics;
pub mod location;
pub mod media_picker;
pub mod network;
pub mod notifications;
pub mod overlay;
pub mod permissions;
pub mod phone;
pub mod scanner;
pub mod screen_pin;
pub mod secure_storage;
pub mod sensors;
pub mod share;
pub mod sms;
pub mod torch;
pub mod jobs;
pub mod sound;
pub mod state_store;
