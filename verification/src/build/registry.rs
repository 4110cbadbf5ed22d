//! Capability registry — the source of truth for "what a consumer opts
//! into," used at build time to assemble a minimal Android manifest.
//!
//! The library manifest declares only a baseline. Everything optional — and
//! especially everything policy-sensitive (Accessibility service,
//! Device-admin receiver) — is declared only when the consumer enables its
//! Cargo feature. At build time `build_sentinel` calls [`assemble`] with the
//! declared list and injects exactly those permissions and components into
//! the consumer's manifest, and [`enabled_modules`] names the per-capability
//! Gradle modules (`android/caps/<id>` → `:sentinel-<id>`) to wire in.
use vstd::prelude::*;

pub use crate::build::feature_graph::capabilities_for_features;

use crate::text::{
    char_vecs, chars_eq, chars_of, decimal, decimal_chars, map_char, map_char_exec, push_chars,
    push_str_chars, sorted_enumeration, sorted_insert, string_of, strings_of, strs, texts, trim,
    trim_chars, vec_contains, TextLike, strictly_sorted,
};

verus! {

/// An Android `<uses-permission>` a capability requires.
#[derive(Debug, Clone, Copy, PartialEq, Eq)]
pub struct Permission {
    /// Fully-qualified permission string, e.g. `"android.permission.CAMERA"`.
    pub name: &'static str,
    /// Optional `android:maxSdkVersion` — declare only up to this API.
    pub max_sdk: Option<u32>,
}

/// An Android `<uses-feature>` a capability declares (always
/// `required=false` so the app stays installable without the hardware).
#[derive(Debug, Clone, Copy, PartialEq, Eq)]
pub struct Feature {
    /// Feature name, e.g. `"android.hardware.camera"`.
    pub name: &'static str,
}

/// A single opt-in capability: the permissions, hardware features, and
/// `<application>`-level component XML it contributes to the consumer's
/// manifest when declared.
#[derive(Debug, Clone, Copy)]
pub struct Capability {
    /// Stable lower-snake-case id.
    pub id: &'static str,
    /// Human-readable purpose (printed by `build_sentinel`).
    pub description: &'static str,
    /// `<uses-permission>` entries this capability requires.
    pub permissions: &'static [Permission],
    /// `<uses-feature>` entries this capability declares.
    pub features: &'static [Feature],
    /// `<application>`-child component XML (services / receivers /
    /// activities), fully qualified to `com.mobilesentinel`.
    pub components: &'static str,
    /// Whether Google Play review treats this capability as sensitive.
    pub policy_sensitive: bool,
    /// Kotlin source file names that only this capability needs; a non-empty
    /// list marks the capability as having its own Gradle module.
    pub kotlin_sources: &'static [&'static str],
}

/// The scanner uses a translucent theme on purpose: a `singleInstance` host
/// stays in `onPause` (render surface alive) behind it.
pub const SCANNER_COMPONENTS: &'static str = r#"        <activity
            android:name="com.mobilesentinel.SentinelScannerActivity"
            android:theme="@android:style/Theme.Translucent.NoTitleBar"
            android:screenOrientation="portrait"
            android:showWhenLocked="true"
            android:turnScreenOn="true" />"#;

/// A transparent proxy activity delegating to the system camera, plus a
/// `FileProvider` so the captured JPEG can be handed back.
pub const CAMERA_COMPONENTS: &'static str = r#"        <activity
            android:name="com.mobilesentinel.SentinelCameraActivity"
            android:theme="@android:style/Theme.Translucent.NoTitleBar"
            android:excludeFromRecents="true" />
        <provider
            android:name="androidx.core.content.FileProvider"
            android:authorities="${applicationId}.sentinelfileprovider"
            android:exported="false"
            android:grantUriPermissions="true">
            <meta-data
                android:name="android.support.FILE_PROVIDER_PATHS"
                android:resource="@xml/sentinel_camera_paths" />
        </provider>"#;

/// The native file picker activity.
pub const MEDIA_PICKER_COMPONENTS: &'static str = r#"        <activity
            android:name="com.mobilesentinel.SentinelFilePickerActivity"
            android:theme="@android:style/Theme.Translucent.NoTitleBar"
            android:excludeFromRecents="true" />"#;

/// The accessibility service (policy-sensitive).
pub const ACCESSIBILITY_COMPONENTS: &'static str = r#"        <service
            android:name="com.mobilesentinel.SentinelAccessibilityService"
            android:enabled="true"
            android:exported="true"
            android:permission="android.permission.BIND_ACCESSIBILITY_SERVICE">
            <intent-filter>
                <action android:name="android.accessibilityservice.AccessibilityService" />
            </intent-filter>
            <meta-data
                android:name="android.accessibilityservice"
                android:resource="@xml/sentinel_accessibility_config" />
        </service>"#;

/// The device-admin receiver (policy-sensitive).
pub const DEVICE_ADMIN_COMPONENTS: &'static str = r#"        <receiver
            android:name="com.mobilesentinel.SentinelAdminReceiver"
            android:permission="android.permission.BIND_DEVICE_ADMIN"
            android:exported="true">
            <meta-data
                android:name="android.app.device_admin"
                android:resource="@xml/sentinel_device_admin" />
            <intent-filter>
                <action android:name="android.app.action.DEVICE_ADMIN_ENABLED" />
            </intent-filter>
        </receiver>"#;

/// The capability table, as a specification.
pub open spec fn capability_table_spec() -> Seq<Capability> {
    seq![
        Capability {
            id: "overlay",
            description: "Force the firing UI to the foreground while the screen is on/unlocked (SYSTEM_ALERT_WINDOW).",
            permissions: &[Permission { name: "android.permission.SYSTEM_ALERT_WINDOW", max_sdk: None }],
            features: &[],
            components: "",
            policy_sensitive: false,
            kotlin_sources: &["SentinelOverlayPrimitives.kt"],
        },
        Capability {
            id: "battery",
            description: "Request exemption from battery optimization for reliable firing on aggressive OEMs.",
            permissions: &[Permission { name: "android.permission.REQUEST_IGNORE_BATTERY_OPTIMIZATIONS", max_sdk: None }],
            features: &[],
            components: "",
            policy_sensitive: false,
            kotlin_sources: &["SentinelBatteryPrimitives.kt"],
        },
        Capability {
            id: "torch",
            description: "Torch / flashlight (camera flash LED).",
            permissions: &[],
            features: &[],
            components: "",
            policy_sensitive: false,
            kotlin_sources: &["SentinelTorchPrimitives.kt"],
        },
        Capability {
            id: "display",
            description: "Screen brightness control + keep-screen-on.",
            permissions: &[],
            features: &[],
            components: "",
            policy_sensitive: false,
            kotlin_sources: &["SentinelDisplayPrimitives.kt"],
        },
        Capability {
            id: "screen_pin",
            description: "System screen-pinning (lock-task).",
            permissions: &[],
            features: &[],
            components: "",
            policy_sensitive: false,
            kotlin_sources: &["SentinelScreenPinPrimitives.kt"],
        },
        Capability {
            id: "foregrounding",
            description: "Finish the app activity (close after dismiss/snooze).",
            permissions: &[],
            features: &[],
            components: "",
            policy_sensitive: false,
            kotlin_sources: &["SentinelForegroundingPrimitives.kt"],
        },
        Capability {
            id: "scanner",
            description: "Barcode / QR scanning (CAMERA + ZXing + SentinelScannerActivity).",
            permissions: &[Permission { name: "android.permission.CAMERA", max_sdk: None }],
            features: &[Feature { name: "android.hardware.camera" }, Feature { name: "android.hardware.camera.autofocus" }],
            components: SCANNER_COMPONENTS,
            policy_sensitive: false,
            kotlin_sources: &["SentinelScannerActivity.kt", "SentinelScannerHelper.kt"],
        },
        Capability {
            id: "camera",
            description: "Take a photo via the system camera app (ACTION_IMAGE_CAPTURE + FileProvider).",
            permissions: &[],
            features: &[Feature { name: "android.hardware.camera" }],
            components: CAMERA_COMPONENTS,
            policy_sensitive: false,
            kotlin_sources: &["SentinelCameraActivity.kt", "SentinelCameraHelper.kt"],
        },
        Capability {
            id: "sensors",
            description: "Accelerometer shake counter + hardware step counter (ACTIVITY_RECOGNITION + high-rate sensors).",
            permissions: &[Permission { name: "android.permission.ACTIVITY_RECOGNITION", max_sdk: None }, Permission { name: "android.permission.HIGH_SAMPLING_RATE_SENSORS", max_sdk: None }],
            features: &[],
            components: "",
            policy_sensitive: false,
            kotlin_sources: &["SentinelSensorHelper.kt"],
        },
        Capability {
            id: "audio",
            description: "Non-firing audio preview (play/stop/volume of arbitrary URIs).",
            permissions: &[],
            features: &[],
            components: "",
            policy_sensitive: false,
            kotlin_sources: &["SentinelAudioPreviewPrimitives.kt"],
        },
        Capability {
            id: "haptics",
            description: "Vibration / haptic feedback (VIBRATE).",
            permissions: &[Permission { name: "android.permission.VIBRATE", max_sdk: None }],
            features: &[],
            components: "",
            policy_sensitive: false,
            kotlin_sources: &["SentinelHapticPrimitives.kt"],
        },
        Capability {
            id: "permissions",
            description: "Runtime permission status/request + app-settings deep link.",
            permissions: &[],
            features: &[],
            components: "",
            policy_sensitive: false,
            kotlin_sources: &["SentinelPermissionPrimitives.kt"],
        },
        Capability {
            id: "media_picker",
            description: "Native file picker for importing custom sounds (SentinelFilePickerActivity).",
            permissions: &[],
            features: &[],
            components: MEDIA_PICKER_COMPONENTS,
            policy_sensitive: false,
            kotlin_sources: &["SentinelFilePickerHelper.kt"],
        },
        Capability {
            id: "biometric",
            description: "Biometric (fingerprint/face) authentication prompt (BiometricPrompt).",
            permissions: &[],
            features: &[],
            components: "",
            policy_sensitive: false,
            kotlin_sources: &["SentinelBiometricHelper.kt", "SentinelBiometricsPrimitives.kt"],
        },
        Capability {
            id: "accessibility",
            description: "Ultra-protection: relaunch the firing activity if the user reaches Settings/power-menu while a kiosk session is active (SentinelAccessibilityService).",
            permissions: &[],
            features: &[],
            components: ACCESSIBILITY_COMPONENTS,
            policy_sensitive: true,
            kotlin_sources: &["SentinelAccessibilityService.kt"],
        },
        Capability {
            id: "device_admin",
            description: "Device-admin force-lock support (SentinelAdminReceiver).",
            permissions: &[],
            features: &[],
            components: DEVICE_ADMIN_COMPONENTS,
            policy_sensitive: true,
            kotlin_sources: &["SentinelAdminReceiver.kt", "SentinelDeviceAdminPrimitives.kt"],
        },
        Capability {
            id: "clipboard",
            description: "Clipboard get/set.",
            permissions: &[],
            features: &[],
            components: "",
            policy_sensitive: false,
            kotlin_sources: &["SentinelClipboardPrimitives.kt"],
        },
        Capability {
            id: "share",
            description: "System share sheet.",
            permissions: &[],
            features: &[],
            components: "",
            policy_sensitive: false,
            kotlin_sources: &["SentinelSharePrimitives.kt"],
        },
        Capability {
            id: "secure_storage",
            description: "Encrypted key/value storage.",
            permissions: &[],
            features: &[],
            components: "",
            policy_sensitive: false,
            kotlin_sources: &["SentinelSecureStoragePrimitives.kt"],
        },
        Capability {
            id: "sms",
            description: "Send SMS text messages.",
            permissions: &[Permission { name: "android.permission.SEND_SMS", max_sdk: None }],
            features: &[],
            components: "",
            policy_sensitive: true,
            kotlin_sources: &["SentinelSmsPrimitives.kt"],
        },
        Capability {
            id: "phone",
            description: "Dial numbers / query call state.",
            permissions: &[Permission { name: "android.permission.CALL_PHONE", max_sdk: None }],
            features: &[],
            components: "",
            policy_sensitive: true,
            kotlin_sources: &["SentinelPhonePrimitives.kt"],
        },
        Capability {
            id: "network",
            description: "Network connectivity status.",
            permissions: &[Permission { name: "android.permission.ACCESS_NETWORK_STATE", max_sdk: None }],
            features: &[],
            components: "",
            policy_sensitive: false,
            kotlin_sources: &["SentinelNetworkPrimitives.kt"],
        },
        Capability {
            id: "location",
            description: "Current device location.",
            permissions: &[Permission { name: "android.permission.ACCESS_FINE_LOCATION", max_sdk: None }, Permission { name: "android.permission.ACCESS_COARSE_LOCATION", max_sdk: None }],
            features: &[],
            components: "",
            policy_sensitive: true,
            kotlin_sources: &["SentinelLocationPrimitives.kt"],
        },
        Capability {
            id: "maps",
            description: "Geocoding / reverse-geocoding.",
            permissions: &[],
            features: &[],
            components: "",
            policy_sensitive: false,
            kotlin_sources: &["SentinelMapsPrimitives.kt"],
        },
        Capability {
            id: "contacts",
            description: "Read device contacts.",
            permissions: &[Permission { name: "android.permission.READ_CONTACTS", max_sdk: None }],
            features: &[],
            components: "",
            policy_sensitive: true,
            kotlin_sources: &["SentinelContactsPrimitives.kt"],
        },
        Capability {
            id: "calendar",
            description: "Read/create/delete calendar events.",
            permissions: &[Permission { name: "android.permission.READ_CALENDAR", max_sdk: None }, Permission { name: "android.permission.WRITE_CALENDAR", max_sdk: None }],
            features: &[],
            components: "",
            policy_sensitive: true,
            kotlin_sources: &["SentinelCalendarPrimitives.kt"],
        },
        Capability {
            id: "dismiss_guard",
            description: "Block back/swipe dismissal during firing.",
            permissions: &[],
            features: &[],
            components: "",
            policy_sensitive: false,
            kotlin_sources: &["SentinelDismissGuardPrimitives.kt"],
        },
        Capability {
            id: "notifications",
            description: "General notifications (post/update/cancel).",
            permissions: &[],
            features: &[],
            components: "",
            policy_sensitive: false,
            kotlin_sources: &["SentinelNotificationPrimitives.kt"],
        },
        Capability {
            id: "file_system",
            description: "Bundled-asset copy/list helpers.",
            permissions: &[],
            features: &[],
            components: "",
            policy_sensitive: false,
            kotlin_sources: &["SentinelFileSystemPrimitives.kt"],
        },
        Capability {
            id: "foreground_service",
            description: "Alarm foreground service so the process survives a swipe-kill while firing.",
            permissions: &[Permission { name: "android.permission.FOREGROUND_SERVICE", max_sdk: None }, Permission { name: "android.permission.FOREGROUND_SERVICE_MEDIA_PLAYBACK", max_sdk: None }, Permission { name: "android.permission.POST_NOTIFICATIONS", max_sdk: None }],
            features: &[],
            components: "",
            policy_sensitive: false,
            kotlin_sources: &["SentinelForegroundService.kt", "SentinelForegroundServicePrimitives.kt"],
        },
        Capability {
            id: "firing_audio",
            description: "Alarm audio playback during firing.",
            permissions: &[],
            features: &[],
            components: "",
            policy_sensitive: false,
            kotlin_sources: &["SentinelFiringAudioPrimitives.kt"],
        },
        Capability {
            id: "firing_vibration",
            description: "Alarm vibration during firing (looping waveform alongside or instead of audio).",
            permissions: &[Permission { name: "android.permission.VIBRATE", max_sdk: None }],
            features: &[],
            components: "",
            policy_sensitive: false,
            kotlin_sources: &["SentinelFiringVibrationPrimitives.kt"],
        },
        Capability {
            id: "wake_lock",
            description: "Keep the CPU awake while the alarm fires (WAKE_LOCK).",
            permissions: &[Permission { name: "android.permission.WAKE_LOCK", max_sdk: None }],
            features: &[],
            components: "",
            policy_sensitive: false,
            kotlin_sources: &["SentinelWakeLockPrimitives.kt"],
        },
        Capability {
            id: "exact_alarm",
            description: "Schedule OS exact alarms (SCHEDULE_EXACT_ALARM / USE_EXACT_ALARM) + boot/time re-arm.",
            permissions: &[Permission { name: "android.permission.SCHEDULE_EXACT_ALARM", max_sdk: None }, Permission { name: "android.permission.USE_EXACT_ALARM", max_sdk: None }],
            features: &[],
            components: "",
            policy_sensitive: false,
            kotlin_sources: &["SentinelExactAlarmPrimitives.kt", "SentinelAlarmReceiver.kt", "SentinelTimeChangeReceiver.kt", "SentinelBootReceiver.kt", "SentinelBootService.kt"],
        },
        Capability {
            id: "kiosk",
            description: "Kiosk / lock-task takeover while firing (keep the activity in the foreground).",
            permissions: &[],
            features: &[],
            components: "",
            policy_sensitive: false,
            kotlin_sources: &["SentinelKioskController.kt", "SentinelKioskPrimitives.kt", "SentinelKioskInitializer.kt"],
        },
        Capability {
            id: "full_screen_intent",
            description: "Full-screen alarm intent over the lock screen (USE_FULL_SCREEN_INTENT).",
            permissions: &[Permission { name: "android.permission.USE_FULL_SCREEN_INTENT", max_sdk: None }],
            features: &[],
            components: "",
            policy_sensitive: false,
            kotlin_sources: &["SentinelFullScreenIntentPrimitives.kt"],
        },
        Capability {
            id: "jobs",
            description: "Cross-process job guardian (the :sentinel process that keeps MAIN alive / resurrects it).",
            permissions: &[],
            features: &[],
            components: "",
            policy_sensitive: false,
            kotlin_sources: &["SentinelJobGuardian.kt", "SentinelJobsInitializer.kt"],
        },
    ]
}

/// All optional capabilities mobile-sentinel knows how to assemble.
///
/// Anything not in this table is unknown and reported back to the developer
/// rather than silently ignored.
pub fn capabilities() -> (t: &'static [Capability])
    ensures
        t@ == capability_table_spec(),
{
    &[
        Capability {
            id: "overlay",
            description: "Force the firing UI to the foreground while the screen is on/unlocked (SYSTEM_ALERT_WINDOW).",
            permissions: &[Permission { name: "android.permission.SYSTEM_ALERT_WINDOW", max_sdk: None }],
            features: &[],
            components: "",
            policy_sensitive: false,
            kotlin_sources: &["SentinelOverlayPrimitives.kt"],
        },
        Capability {
            id: "battery",
            description: "Request exemption from battery optimization for reliable firing on aggressive OEMs.",
            permissions: &[Permission { name: "android.permission.REQUEST_IGNORE_BATTERY_OPTIMIZATIONS", max_sdk: None }],
            features: &[],
            components: "",
            policy_sensitive: false,
            kotlin_sources: &["SentinelBatteryPrimitives.kt"],
        },
        Capability {
            id: "torch",
            description: "Torch / flashlight (camera flash LED).",
            permissions: &[],
            features: &[],
            components: "",
            policy_sensitive: false,
            kotlin_sources: &["SentinelTorchPrimitives.kt"],
        },
        Capability {
            id: "display",
            description: "Screen brightness control + keep-screen-on.",
            permissions: &[],
            features: &[],
            components: "",
            policy_sensitive: false,
            kotlin_sources: &["SentinelDisplayPrimitives.kt"],
        },
        Capability {
            id: "screen_pin",
            description: "System screen-pinning (lock-task).",
            permissions: &[],
            features: &[],
            components: "",
            policy_sensitive: false,
            kotlin_sources: &["SentinelScreenPinPrimitives.kt"],
        },
        Capability {
            id: "foregrounding",
            description: "Finish the app activity (close after dismiss/snooze).",
            permissions: &[],
            features: &[],
            components: "",
            policy_sensitive: false,
            kotlin_sources: &["SentinelForegroundingPrimitives.kt"],
        },
        Capability {
            id: "scanner",
            description: "Barcode / QR scanning (CAMERA + ZXing + SentinelScannerActivity).",
            permissions: &[Permission { name: "android.permission.CAMERA", max_sdk: None }],
            features: &[Feature { name: "android.hardware.camera" }, Feature { name: "android.hardware.camera.autofocus" }],
            components: SCANNER_COMPONENTS,
            policy_sensitive: false,
            kotlin_sources: &["SentinelScannerActivity.kt", "SentinelScannerHelper.kt"],
        },
        Capability {
            id: "camera",
            description: "Take a photo via the system camera app (ACTION_IMAGE_CAPTURE + FileProvider).",
            permissions: &[],
            features: &[Feature { name: "android.hardware.camera" }],
            components: CAMERA_COMPONENTS,
            policy_sensitive: false,
            kotlin_sources: &["SentinelCameraActivity.kt", "SentinelCameraHelper.kt"],
        },
        Capability {
            id: "sensors",
            description: "Accelerometer shake counter + hardware step counter (ACTIVITY_RECOGNITION + high-rate sensors).",
            permissions: &[Permission { name: "android.permission.ACTIVITY_RECOGNITION", max_sdk: None }, Permission { name: "android.permission.HIGH_SAMPLING_RATE_SENSORS", max_sdk: None }],
            features: &[],
            components: "",
            policy_sensitive: false,
            kotlin_sources: &["SentinelSensorHelper.kt"],
        },
        Capability {
            id: "audio",
            description: "Non-firing audio preview (play/stop/volume of arbitrary URIs).",
            permissions: &[],
            features: &[],
            components: "",
            policy_sensitive: false,
            kotlin_sources: &["SentinelAudioPreviewPrimitives.kt"],
        },
        Capability {
            id: "haptics",
            description: "Vibration / haptic feedback (VIBRATE).",
            permissions: &[Permission { name: "android.permission.VIBRATE", max_sdk: None }],
            features: &[],
            components: "",
            policy_sensitive: false,
            kotlin_sources: &["SentinelHapticPrimitives.kt"],
        },
        Capability {
            id: "permissions",
            description: "Runtime permission status/request + app-settings deep link.",
            permissions: &[],
            features: &[],
            components: "",
            policy_sensitive: false,
            kotlin_sources: &["SentinelPermissionPrimitives.kt"],
        },
        Capability {
            id: "media_picker",
            description: "Native file picker for importing custom sounds (SentinelFilePickerActivity).",
            permissions: &[],
            features: &[],
            components: MEDIA_PICKER_COMPONENTS,
            policy_sensitive: false,
            kotlin_sources: &["SentinelFilePickerHelper.kt"],
        },
        Capability {
            id: "biometric",
            description: "Biometric (fingerprint/face) authentication prompt (BiometricPrompt).",
            permissions: &[],
            features: &[],
            components: "",
            policy_sensitive: false,
            kotlin_sources: &["SentinelBiometricHelper.kt", "SentinelBiometricsPrimitives.kt"],
        },
        Capability {
            id: "accessibility",
            description: "Ultra-protection: relaunch the firing activity if the user reaches Settings/power-menu while a kiosk session is active (SentinelAccessibilityService).",
            permissions: &[],
            features: &[],
            components: ACCESSIBILITY_COMPONENTS,
            policy_sensitive: true,
            kotlin_sources: &["SentinelAccessibilityService.kt"],
        },
        Capability {
            id: "device_admin",
            description: "Device-admin force-lock support (SentinelAdminReceiver).",
            permissions: &[],
            features: &[],
            components: DEVICE_ADMIN_COMPONENTS,
            policy_sensitive: true,
            kotlin_sources: &["SentinelAdminReceiver.kt", "SentinelDeviceAdminPrimitives.kt"],
        },
        Capability {
            id: "clipboard",
            description: "Clipboard get/set.",
            permissions: &[],
            features: &[],
            components: "",
            policy_sensitive: false,
            kotlin_sources: &["SentinelClipboardPrimitives.kt"],
        },
        Capability {
            id: "share",
            description: "System share sheet.",
            permissions: &[],
            features: &[],
            components: "",
            policy_sensitive: false,
            kotlin_sources: &["SentinelSharePrimitives.kt"],
        },
        Capability {
            id: "secure_storage",
            description: "Encrypted key/value storage.",
            permissions: &[],
            features: &[],
            components: "",
            policy_sensitive: false,
            kotlin_sources: &["SentinelSecureStoragePrimitives.kt"],
        },
        Capability {
            id: "sms",
            description: "Send SMS text messages.",
            permissions: &[Permission { name: "android.permission.SEND_SMS", max_sdk: None }],
            features: &[],
            components: "",
            policy_sensitive: true,
            kotlin_sources: &["SentinelSmsPrimitives.kt"],
        },
        Capability {
            id: "phone",
            description: "Dial numbers / query call state.",
            permissions: &[Permission { name: "android.permission.CALL_PHONE", max_sdk: None }],
            features: &[],
            components: "",
            policy_sensitive: true,
            kotlin_sources: &["SentinelPhonePrimitives.kt"],
        },
        Capability {
            id: "network",
            description: "Network connectivity status.",
            permissions: &[Permission { name: "android.permission.ACCESS_NETWORK_STATE", max_sdk: None }],
            features: &[],
            components: "",
            policy_sensitive: false,
            kotlin_sources: &["SentinelNetworkPrimitives.kt"],
        },
        Capability {
            id: "location",
            description: "Current device location.",
            permissions: &[Permission { name: "android.permission.ACCESS_FINE_LOCATION", max_sdk: None }, Permission { name: "android.permission.ACCESS_COARSE_LOCATION", max_sdk: None }],
            features: &[],
            components: "",
            policy_sensitive: true,
            kotlin_sources: &["SentinelLocationPrimitives.kt"],
        },
        Capability {
            id: "maps",
            description: "Geocoding / reverse-geocoding.",
            permissions: &[],
            features: &[],
            components: "",
            policy_sensitive: false,
            kotlin_sources: &["SentinelMapsPrimitives.kt"],
        },
        Capability {
            id: "contacts",
            description: "Read device contacts.",
            permissions: &[Permission { name: "android.permission.READ_CONTACTS", max_sdk: None }],
            features: &[],
            components: "",
            policy_sensitive: true,
            kotlin_sources: &["SentinelContactsPrimitives.kt"],
        },
        Capability {
            id: "calendar",
            description: "Read/create/delete calendar events.",
            permissions: &[Permission { name: "android.permission.READ_CALENDAR", max_sdk: None }, Permission { name: "android.permission.WRITE_CALENDAR", max_sdk: None }],
            features: &[],
            components: "",
            policy_sensitive: true,
            kotlin_sources: &["SentinelCalendarPrimitives.kt"],
        },
        Capability {
            id: "dismiss_guard",
            description: "Block back/swipe dismissal during firing.",
            permissions: &[],
            features: &[],
            components: "",
            policy_sensitive: false,
            kotlin_sources: &["SentinelDismissGuardPrimitives.kt"],
        },
        Capability {
            id: "notifications",
            description: "General notifications (post/update/cancel).",
            permissions: &[],
            features: &[],
            components: "",
            policy_sensitive: false,
            kotlin_sources: &["SentinelNotificationPrimitives.kt"],
        },
        Capability {
            id: "file_system",
            description: "Bundled-asset copy/list helpers.",
            permissions: &[],
            features: &[],
            components: "",
            policy_sensitive: false,
            kotlin_sources: &["SentinelFileSystemPrimitives.kt"],
        },
        Capability {
            id: "foreground_service",
            description: "Alarm foreground service so the process survives a swipe-kill while firing.",
            permissions: &[Permission { name: "android.permission.FOREGROUND_SERVICE", max_sdk: None }, Permission { name: "android.permission.FOREGROUND_SERVICE_MEDIA_PLAYBACK", max_sdk: None }, Permission { name: "android.permission.POST_NOTIFICATIONS", max_sdk: None }],
            features: &[],
            components: "",
            policy_sensitive: false,
            kotlin_sources: &["SentinelForegroundService.kt", "SentinelForegroundServicePrimitives.kt"],
        },
        Capability {
            id: "firing_audio",
            description: "Alarm audio playback during firing.",
            permissions: &[],
            features: &[],
            components: "",
            policy_sensitive: false,
            kotlin_sources: &["SentinelFiringAudioPrimitives.kt"],
        },
        Capability {
            id: "firing_vibration",
            description: "Alarm vibration during firing (looping waveform alongside or instead of audio).",
            permissions: &[Permission { name: "android.permission.VIBRATE", max_sdk: None }],
            features: &[],
            components: "",
            policy_sensitive: false,
            kotlin_sources: &["SentinelFiringVibrationPrimitives.kt"],
        },
        Capability {
            id: "wake_lock",
            description: "Keep the CPU awake while the alarm fires (WAKE_LOCK).",
            permissions: &[Permission { name: "android.permission.WAKE_LOCK", max_sdk: None }],
            features: &[],
            components: "",
            policy_sensitive: false,
            kotlin_sources: &["SentinelWakeLockPrimitives.kt"],
        },
        Capability {
            id: "exact_alarm",
            description: "Schedule OS exact alarms (SCHEDULE_EXACT_ALARM / USE_EXACT_ALARM) + boot/time re-arm.",
            permissions: &[Permission { name: "android.permission.SCHEDULE_EXACT_ALARM", max_sdk: None }, Permission { name: "android.permission.USE_EXACT_ALARM", max_sdk: None }],
            features: &[],
            components: "",
            policy_sensitive: false,
            kotlin_sources: &["SentinelExactAlarmPrimitives.kt", "SentinelAlarmReceiver.kt", "SentinelTimeChangeReceiver.kt", "SentinelBootReceiver.kt", "SentinelBootService.kt"],
        },
        Capability {
            id: "kiosk",
            description: "Kiosk / lock-task takeover while firing (keep the activity in the foreground).",
            permissions: &[],
            features: &[],
            components: "",
            policy_sensitive: false,
            kotlin_sources: &["SentinelKioskController.kt", "SentinelKioskPrimitives.kt", "SentinelKioskInitializer.kt"],
        },
        Capability {
            id: "full_screen_intent",
            description: "Full-screen alarm intent over the lock screen (USE_FULL_SCREEN_INTENT).",
            permissions: &[Permission { name: "android.permission.USE_FULL_SCREEN_INTENT", max_sdk: None }],
            features: &[],
            components: "",
            policy_sensitive: false,
            kotlin_sources: &["SentinelFullScreenIntentPrimitives.kt"],
        },
        Capability {
            id: "jobs",
            description: "Cross-process job guardian (the :sentinel process that keeps MAIN alive / resurrects it).",
            permissions: &[],
            features: &[],
            components: "",
            policy_sensitive: false,
            kotlin_sources: &["SentinelJobGuardian.kt", "SentinelJobsInitializer.kt"],
        },
    ]
}


// ---------------------------------------------------------------------------
// Lookup
// ---------------------------------------------------------------------------

/// The index of the first table row with id `id`, searching from `i`.
pub open spec fn capability_index_from(id: Seq<char>, i: int) -> Option<int>
    decreases capability_table_spec().len() - i,
{
    if i < 0 || i >= capability_table_spec().len() {
        None
    } else if capability_table_spec()[i].id@ == id {
        Some(i)
    } else {
        capability_index_from(id, i + 1)
    }
}

/// The capability with id `id`, if the table has one.
pub open spec fn lookup(id: Seq<char>) -> Option<Capability> {
    match capability_index_from(id, 0) {
        Some(i) => Some(capability_table_spec()[i]),
        None => None,
    }
}

/// Look up a capability by its id.
pub fn capability(id: &str) -> (r: Option<&'static Capability>)
    ensures
        match r {
            Some(c) => lookup(id@) == Some(*c),
            None => lookup(id@) is None,
        },
{
    let idc = chars_of(id);
    lookup_chars(idc.as_slice())
}

/// Look up a capability by its id, given as characters.
pub fn lookup_chars(id: &[char]) -> (r: Option<&'static Capability>)
    ensures
        match r {
            Some(c) => lookup(id@) == Some(*c),
            None => lookup(id@) is None,
        },
{
    let t = capabilities();
    let mut i: usize = 0;
    while i < t.len()
        invariant
            t@ == capability_table_spec(),
            i <= t.len(),
            capability_index_from(id@, i as int) == capability_index_from(id@, 0),
        decreases t.len() - i,
    {
        let cid = chars_of(t[i].id);
        if chars_eq(cid.as_slice(), id) {
            return Some(&t[i]);
        }
        i = i + 1;
    }
    None
}

/// The capability id a Cargo feature name contributes: the trimmed name
/// with `-` written as `_`.
pub open spec fn feature_capability_id(feature: Seq<char>) -> Seq<char> {
    map_char(trim(feature), '-', '_')
}

/// The composite and building-block features, in snake form: they
/// contribute no manifest capability of their own.
pub open spec fn building_block_ids() -> Seq<Seq<char>> {
    seq!["alarm_kit"@, "recipes"@, "firing"@, "sound_library"@, "jobs"@, "state_store"@]
}

/// The capability a Cargo feature name contributes, if any: none for a
/// composite or building-block feature, else the table row of its snake
/// form.
pub open spec fn feature_capability(feature: Seq<char>) -> Option<Capability> {
    if building_block_ids().contains(feature_capability_id(feature)) {
        None
    } else {
        lookup(feature_capability_id(feature))
    }
}

/// Whether `id` is the snake form of a composite or building-block feature.
fn is_building_block(id: &[char]) -> (r: bool)
    ensures
        r == building_block_ids().contains(id@),
{
    let names: [&str; 6] = ["alarm_kit", "recipes", "firing", "sound_library", "jobs", "state_store"];
    let mut k: usize = 0;
    while k < 6
        invariant
            k <= 6,
            names@ == seq!["alarm_kit", "recipes", "firing", "sound_library", "jobs", "state_store"],
            forall|j: int| 0 <= j < k ==> building_block_ids()[j] != id@,
        decreases 6 - k,
    {
        let n = chars_of(names[k]);
        if crate::text::chars_eq(n.as_slice(), id) {
            assert(building_block_ids()[k as int] == id@);
            return true;
        }
        k = k + 1;
    }
    assert forall|x: Seq<char>| building_block_ids().contains(x) implies x != id@ by {
        let j = choose|j: int| 0 <= j < 6 && building_block_ids()[j] == x;
    }
    false
}

/// Map a Cargo **feature name** (kebab-case, e.g. `"full-screen-intent"`) to
/// the capability **id** it contributes (snake_case, e.g.
/// `"full_screen_intent"`): the trimmed name with `-` written as `_`, looked
/// up in the capability table. Composite / building-block features that
/// contribute no manifest capability of their own (`alarm-kit`, `recipes`,
/// `firing`, `sound-library`, `jobs`, `state-store`) map to `None`, as do
/// unknown names.
pub fn cargo_feature_to_capability(feature: &str) -> (r: Option<&'static str>)
    ensures
        match r {
            Some(id) => feature_capability(feature@) is Some && id == feature_capability(
                feature@,
            ).unwrap().id,
            None => feature_capability(feature@) is None,
        },
{
    let t = trim_chars(chars_of(feature).as_slice());
    let snake = map_char_exec(t.as_slice(), '-', '_');
    if is_building_block(snake.as_slice()) {
        return None;
    }
    match lookup_chars(snake.as_slice()) {
        Some(c) => Some(c.id),
        None => None,
    }
}

// ---------------------------------------------------------------------------
// Manifest lines
// ---------------------------------------------------------------------------

/// The manifest line declaring a permission.
pub open spec fn permission_line(p: Permission) -> Seq<char> {
    match p.max_sdk {
        Some(max) => "    <uses-permission android:name=\""@ + p.name@
            + "\" android:maxSdkVersion=\""@ + decimal(max as nat) + "\" />"@,
        None => "    <uses-permission android:name=\""@ + p.name@ + "\" />"@,
    }
}

/// The manifest line declaring a hardware feature.
pub open spec fn feature_line(f: Feature) -> Seq<char> {
    "    <uses-feature android:name=\""@ + f.name@ + "\" android:required=\"false\" />"@
}

impl Permission {
    /// The permission as characters of its manifest line.
    pub fn render_chars(&self) -> (r: Vec<char>)
        ensures
            r@ == permission_line(*self),
    {
        let mut out: Vec<char> = Vec::new();
        push_str_chars(&mut out, "    <uses-permission android:name=\"");
        push_str_chars(&mut out, self.name);
        match self.max_sdk {
            Some(max) => {
                push_str_chars(&mut out, "\" android:maxSdkVersion=\"");
                let d = decimal_chars(max);
                push_chars(&mut out, d.as_slice());
                push_str_chars(&mut out, "\" />");
            },
            None => {
                push_str_chars(&mut out, "\" />");
            },
        }
        out
    }

    /// Render this permission as a manifest line.
    pub fn render(&self) -> (r: String)
        ensures
            r@ == permission_line(*self),
    {
        let cs = self.render_chars();
        string_of(cs.as_slice())
    }
}

impl Feature {
    /// The feature as characters of its manifest line.
    pub fn render_chars(&self) -> (r: Vec<char>)
        ensures
            r@ == feature_line(*self),
    {
        let mut out: Vec<char> = Vec::new();
        push_str_chars(&mut out, "    <uses-feature android:name=\"");
        push_str_chars(&mut out, self.name);
        push_str_chars(&mut out, "\" android:required=\"false\" />");
        out
    }

    /// Render this feature as a manifest line.
    pub fn render(&self) -> (r: String)
        ensures
            r@ == feature_line(*self),
    {
        let cs = self.render_chars();
        string_of(cs.as_slice())
    }
}

/// The warning printed for a declared policy-sensitive capability.
pub open spec fn policy_warning(c: Capability) -> Seq<char> {
    "capability '"@ + c.id@ + "' is POLICY-SENSITIVE on Google Play: "@ + c.description@
}

fn policy_warning_chars(c: &Capability) -> (r: Vec<char>)
    ensures
        r@ == policy_warning(*c),
{
    let mut out: Vec<char> = Vec::new();
    push_str_chars(&mut out, "capability '");
    push_str_chars(&mut out, c.id);
    push_str_chars(&mut out, "' is POLICY-SENSITIVE on Google Play: ");
    push_str_chars(&mut out, c.description);
    out
}

// ---------------------------------------------------------------------------
// Assembly
// ---------------------------------------------------------------------------

/// The result of assembling a set of declared capabilities into manifest
/// fragments. Permissions and features are de-duplicated and sorted for
/// deterministic output.
#[derive(Debug, Clone, Default, PartialEq, Eq)]
pub struct ManifestInjection {
    /// `<uses-permission>` / `<uses-feature>` lines for the `<manifest>` scope.
    pub manifest_lines: Vec<String>,
    /// `<application>`-child component XML blocks.
    pub application_components: Vec<String>,
    /// Declared capability ids that are not recognized.
    pub unknown: Vec<String>,
    /// Human-readable warnings for policy-sensitive capabilities that were
    /// declared. Empty when none are enabled.
    pub policy_warnings: Vec<String>,
}

/// The declared ids, trimmed, with empty ids and repeats of an earlier id
/// dropped; first-seen order.
pub open spec fn distinct_ids(declared: Seq<Seq<char>>) -> Seq<Seq<char>>
    decreases declared.len(),
{
    if declared.len() == 0 {
        seq![]
    } else {
        let prev = distinct_ids(declared.drop_last());
        let id = trim(declared.last());
        if id.len() == 0 || prev.contains(id) {
            prev
        } else {
            prev.push(id)
        }
    }
}

/// The ids of `ids` that name no capability, in order.
pub open spec fn unknown_ids(ids: Seq<Seq<char>>) -> Seq<Seq<char>>
    decreases ids.len(),
{
    if ids.len() == 0 {
        seq![]
    } else {
        let prev = unknown_ids(ids.drop_last());
        if lookup(ids.last()) is None {
            prev.push(ids.last())
        } else {
            prev
        }
    }
}

/// The non-empty component blocks of the capabilities `ids` name, in order.
pub open spec fn component_blocks(ids: Seq<Seq<char>>) -> Seq<Seq<char>>
    decreases ids.len(),
{
    if ids.len() == 0 {
        seq![]
    } else {
        let prev = component_blocks(ids.drop_last());
        match lookup(ids.last()) {
            Some(c) => if c.components@.len() > 0 {
                prev.push(c.components@)
            } else {
                prev
            },
            None => prev,
        }
    }
}

/// The policy warnings of the policy-sensitive capabilities `ids` name, in
/// order.
pub open spec fn policy_warnings_of(ids: Seq<Seq<char>>) -> Seq<Seq<char>>
    decreases ids.len(),
{
    if ids.len() == 0 {
        seq![]
    } else {
        let prev = policy_warnings_of(ids.drop_last());
        match lookup(ids.last()) {
            Some(c) => if c.policy_sensitive {
                prev.push(policy_warning(c))
            } else {
                prev
            },
            None => prev,
        }
    }
}

/// The permission lines of the capabilities `ids` name.
pub open spec fn permission_lines(ids: Seq<Seq<char>>) -> Set<Seq<char>>
    decreases ids.len(),
{
    if ids.len() == 0 {
        Set::empty()
    } else {
        let prev = permission_lines(ids.drop_last());
        match lookup(ids.last()) {
            Some(c) => prev.union(c.permissions@.map_values(|p: Permission| permission_line(p)).to_set()),
            None => prev,
        }
    }
}

/// The feature lines of the capabilities `ids` name.
pub open spec fn feature_lines(ids: Seq<Seq<char>>) -> Set<Seq<char>>
    decreases ids.len(),
{
    if ids.len() == 0 {
        Set::empty()
    } else {
        let prev = feature_lines(ids.drop_last());
        match lookup(ids.last()) {
            Some(c) => prev.union(c.features@.map_values(|f: Feature| feature_line(f)).to_set()),
            None => prev,
        }
    }
}

/// What [`assemble`] produces for the declared ids `declared`.
pub open spec fn assembled(declared: Seq<Seq<char>>, inj: ManifestInjection) -> bool {
    let ids = distinct_ids(declared);
    &&& strs(inj.application_components@) == component_blocks(ids)
    &&& strs(inj.unknown@) == unknown_ids(ids)
    &&& strs(inj.policy_warnings@) == policy_warnings_of(ids)
    &&& exists|k: int|
        0 <= k <= inj.manifest_lines@.len() && sorted_enumeration(
            #[trigger] strs(inj.manifest_lines@).take(k),
            permission_lines(ids),
        ) && sorted_enumeration(strs(inj.manifest_lines@).skip(k), feature_lines(ids))
}

proof fn lemma_set_insert_union(s: Set<Seq<char>>, lines: Seq<Seq<char>>, j: int)
    requires
        0 <= j < lines.len(),
    ensures
        s.union(lines.take(j).to_set()).insert(lines[j]) == s.union(lines.take(j + 1).to_set()),
{
    assert(lines.take(j + 1) =~= lines.take(j).push(lines[j]));
    lines.take(j).lemma_push_to_set_commute(lines[j]);
    assert(s.union(lines.take(j).to_set()).insert(lines[j]) =~= s.union(lines.take(j + 1).to_set()));
}

/// Add the permission lines of `c` to the sorted set `acc`.
fn add_permission_lines(acc: &mut Vec<Vec<char>>, c: &Capability)
    requires
        strictly_sorted(char_vecs(old(acc)@)),
    ensures
        strictly_sorted(char_vecs(final(acc)@)),
        char_vecs(final(acc)@).to_set() == char_vecs(old(acc)@).to_set().union(
            c.permissions@.map_values(|p: Permission| permission_line(p)).to_set(),
        ),
{
    let ghost start = char_vecs(acc@).to_set();
    let ghost lines = c.permissions@.map_values(|p: Permission| permission_line(p));
    let mut j: usize = 0;
    assert(lines.take(0).to_set() =~= Set::<Seq<char>>::empty());
    assert(start.union(lines.take(0).to_set()) =~= start);
    while j < c.permissions.len()
        invariant
            j <= c.permissions.len(),
            lines == c.permissions@.map_values(|p: Permission| permission_line(p)),
            strictly_sorted(char_vecs(acc@)),
            char_vecs(acc@).to_set() == start.union(lines.take(j as int).to_set()),
        decreases c.permissions.len() - j,
    {
        let line = c.permissions[j].render_chars();
        sorted_insert(acc, line);
        proof {
            lemma_set_insert_union(start, lines, j as int);
        }
        j = j + 1;
    }
    assert(lines.take(c.permissions.len() as int) =~= lines);
}

/// Add the feature lines of `c` to the sorted set `acc`.
fn add_feature_lines(acc: &mut Vec<Vec<char>>, c: &Capability)
    requires
        strictly_sorted(char_vecs(old(acc)@)),
    ensures
        strictly_sorted(char_vecs(final(acc)@)),
        char_vecs(final(acc)@).to_set() == char_vecs(old(acc)@).to_set().union(
            c.features@.map_values(|f: Feature| feature_line(f)).to_set(),
        ),
{
    let ghost start = char_vecs(acc@).to_set();
    let ghost lines = c.features@.map_values(|f: Feature| feature_line(f));
    let mut j: usize = 0;
    assert(lines.take(0).to_set() =~= Set::<Seq<char>>::empty());
    assert(start.union(lines.take(0).to_set()) =~= start);
    while j < c.features.len()
        invariant
            j <= c.features.len(),
            lines == c.features@.map_values(|f: Feature| feature_line(f)),
            strictly_sorted(char_vecs(acc@)),
            char_vecs(acc@).to_set() == start.union(lines.take(j as int).to_set()),
        decreases c.features.len() - j,
    {
        let line = c.features[j].render_chars();
        sorted_insert(acc, line);
        proof {
            lemma_set_insert_union(start, lines, j as int);
        }
        j = j + 1;
    }
    assert(lines.take(c.features.len() as int) =~= lines);
}

/// Assemble manifest fragments for the given declared capability ids.
///
/// - Unknown ids are collected in [`ManifestInjection::unknown`] (never
///   silently dropped).
/// - Permissions/features are de-duplicated across capabilities; the
///   manifest lines are the sorted permission lines followed by the sorted
///   feature lines.
/// - Components and policy warnings follow the first-seen order of the
///   distinct declared ids.
pub fn assemble<S: TextLike>(declared: &[S]) -> (inj: ManifestInjection)
    ensures
        assembled(texts(declared@), inj),
{
    let ghost d = texts(declared@);
    let mut perms: Vec<Vec<char>> = Vec::new();
    let mut feats: Vec<Vec<char>> = Vec::new();
    let mut components: Vec<Vec<char>> = Vec::new();
    let mut unknown: Vec<Vec<char>> = Vec::new();
    let mut warnings: Vec<Vec<char>> = Vec::new();
    let mut seen: Vec<Vec<char>> = Vec::new();
    let mut i: usize = 0;
    assert(d.take(0) =~= Seq::<Seq<char>>::empty());
    assert(char_vecs(perms@).to_set() =~= Set::<Seq<char>>::empty());
    assert(char_vecs(feats@).to_set() =~= Set::<Seq<char>>::empty());
    while i < declared.len()
        invariant
            i <= declared.len(),
            d == texts(declared@),
            char_vecs(seen@) == distinct_ids(d.take(i as int)),
            char_vecs(components@) == component_blocks(distinct_ids(d.take(i as int))),
            char_vecs(unknown@) == unknown_ids(distinct_ids(d.take(i as int))),
            char_vecs(warnings@) == policy_warnings_of(distinct_ids(d.take(i as int))),
            strictly_sorted(char_vecs(perms@)),
            char_vecs(perms@).to_set() == permission_lines(distinct_ids(d.take(i as int))),
            strictly_sorted(char_vecs(feats@)),
            char_vecs(feats@).to_set() == feature_lines(distinct_ids(d.take(i as int))),
        decreases declared.len() - i,
    {
        let raw = declared[i].text_chars();
        let id = trim_chars(raw.as_slice());
        let ghost prev_ids = distinct_ids(d.take(i as int));
        proof {
            assert(d.take(i + 1).drop_last() =~= d.take(i as int));
            assert(d.take(i + 1).last() == d[i as int]);
        }
        if id.len() == 0 || vec_contains(&seen, id.as_slice()) {
            i = i + 1;
            continue;
        }
        let ghost new_ids = prev_ids.push(id@);
        assert(new_ids.drop_last() =~= prev_ids);
        match lookup_chars(id.as_slice()) {
            Some(c) => {
                add_permission_lines(&mut perms, c);
                add_feature_lines(&mut feats, c);
                let comp = chars_of(c.components);
                if comp.len() > 0 {
                    let ghost before = components@;
                    components.push(comp);
                    assert(char_vecs(components@) =~= char_vecs(before).push(c.components@));
                }
                if c.policy_sensitive {
                    let ghost before = warnings@;
                    warnings.push(policy_warning_chars(c));
                    assert(char_vecs(warnings@) =~= char_vecs(before).push(policy_warning(*c)));
                }
            },
            None => {
                let ghost before = unknown@;
                unknown.push(id.clone());
                assert(char_vecs(unknown@) =~= char_vecs(before).push(id@));
            },
        }
        let ghost before_seen = seen@;
        seen.push(id);
        assert(char_vecs(seen@) =~= char_vecs(before_seen).push(id@));
        i = i + 1;
    }
    assert(d.take(declared.len() as int) =~= d);
    let np = perms.len();
    let mut lines = perms;
    let mut k: usize = 0;
    let ghost pv = char_vecs(lines@);
    while k < feats.len()
        invariant
            k <= feats.len(),
            np <= lines.len(),
            char_vecs(lines@) == pv + char_vecs(feats@).take(k as int),
            pv.len() == np,
        decreases feats.len() - k,
    {
        let ghost before = lines@;
        lines.push(feats[k].clone());
        k = k + 1;
        assert(char_vecs(lines@) =~= char_vecs(before).push(feats@[k - 1]@));
        assert(char_vecs(feats@).take(k as int) =~= char_vecs(feats@).take(k - 1).push(feats@[k - 1]@));
    }
    let inj = ManifestInjection {
        manifest_lines: strings_of(&lines),
        application_components: strings_of(&components),
        unknown: strings_of(&unknown),
        policy_warnings: strings_of(&warnings),
    };
    proof {
        let ml = strs(inj.manifest_lines@);
        assert(char_vecs(feats@).take(feats.len() as int) =~= char_vecs(feats@));
        assert(ml.take(np as int) =~= pv);
        assert(ml.skip(np as int) =~= char_vecs(feats@));
    }
    inj
}

// ---------------------------------------------------------------------------
// Gradle modules
// ---------------------------------------------------------------------------

/// Gradle module-dependency edges, as a specification.
pub open spec fn module_deps_spec() -> Seq<(&'static str, &'static [&'static str])> {
    let jobs: &'static [&'static str] = &["jobs"];
    let kiosk: &'static [&'static str] = &["kiosk"];
    seq![("exact_alarm", jobs), ("accessibility", kiosk)]
}

/// Gradle module-dependency edges: a `:sentinel-<module>` that declares
/// `implementation(project(":sentinel-<dep>"))`. `exact_alarm` needs the job
/// system (a scheduled OS wake activates a job); the accessibility service
/// is the kiosk enforcer and reads the kiosk controller.
pub fn module_deps() -> (t: &'static [(&'static str, &'static [&'static str])])
    ensures
        t@ == module_deps_spec(),
{
    &[("exact_alarm", &["jobs"]), ("accessibility", &["kiosk"])]
}

/// The module graph in the form of a feature graph.
pub open spec fn module_graph() -> crate::build::feature_graph::Edges {
    module_deps_spec().map_values(
        |e: (&'static str, &'static [&'static str])| (e.0@, e.1@.map_values(|d: &'static str| d@)),
    )
}

/// The ids of the table rows that are declared and have a Gradle module.
pub open spec fn declared_modules(declared: Seq<Seq<char>>) -> Set<Seq<char>> {
    Set::new(
        |id: Seq<char>|
            exists|i: int|
                0 <= i < capability_table_spec().len() && #[trigger] capability_table_spec()[i].id@
                    == id && crate::build::feature_graph::trimmed(declared).contains(id)
                    && capability_table_spec()[i].kotlin_sources@.len() > 0,
    )
}

/// The modules [`enabled_modules`] names: the declared modules closed over
/// the module-dependency edges.
pub open spec fn enabled_modules_spec(declared: Seq<Seq<char>>) -> Set<Seq<char>> {
    Set::new(
        |m: Seq<char>|
            exists|b: Seq<Seq<char>>|
                #[trigger] b.to_set() == declared_modules(declared)
                    && crate::build::feature_graph::feature_closure(module_graph(), b).contains(m),
    )
}

fn module_graph_exec() -> (g: crate::build::feature_graph::FeatureGraph)
    ensures
        g@ == module_graph(),
{
    let t = module_deps();
    let mut entries: Vec<(String, Vec<String>)> = Vec::new();
    let mut i: usize = 0;
    while i < t.len()
        invariant
            t@ == module_deps_spec(),
            i <= t.len(),
            entries@.map_values(|e: (String, Vec<String>)| (e.0@, strs(e.1@))) == module_graph().take(i as int),
        decreases t.len() - i,
    {
        let (m, deps) = t[i];
        let mut ds: Vec<String> = Vec::new();
        let mut k: usize = 0;
        while k < deps.len()
            invariant
                k <= deps.len(),
                strs(ds@) == deps@.map_values(|d: &'static str| d@).take(k as int),
            decreases deps.len() - k,
        {
            let ghost before = ds@;
            ds.push(deps[k].to_owned());
            k = k + 1;
            assert(strs(ds@) =~= strs(before).push(deps@[k - 1]@));
            assert(deps@.map_values(|d: &'static str| d@).take(k as int) =~= deps@.map_values(|d: &'static str| d@).take(k - 1).push(deps@[k - 1]@));
        }
        assert(deps@.map_values(|d: &'static str| d@).take(deps.len() as int) =~= deps@.map_values(|d: &'static str| d@));
        let ghost before = entries@;
        let ghost item = (m@, strs(ds@));
        assert(item == module_graph()[i as int]);
        entries.push((m.to_owned(), ds));
        i = i + 1;
        assert(entries@.map_values(|e: (String, Vec<String>)| (e.0@, strs(e.1@))) =~= before.map_values(|e: (String, Vec<String>)| (e.0@, strs(e.1@))).push(item));
        assert(module_graph().take(i as int) =~= module_graph().take(i - 1).push(item));
    }
    assert(module_graph().take(t.len() as int) =~= module_graph());
    crate::build::feature_graph::FeatureGraph { entries }
}

/// The Gradle capability-module names (`android/caps/<id>` → `:sentinel-<id>`)
/// to include in the consumer build for the declared capabilities: every
/// declared capability with Kotlin sources, closed over the module
/// dependency edges (declaring `exact_alarm` also includes `jobs`;
/// `accessibility` also includes `kiosk`). De-duplicated and sorted.
pub fn enabled_modules<S: TextLike>(declared: &[S]) -> (r: Vec<&'static str>)
    ensures
        sorted_enumeration(texts(r@), enabled_modules_spec(texts(declared@))),
{
    let ghost dt = crate::build::feature_graph::trimmed(texts(declared@));
    let mut ids: Vec<Vec<char>> = Vec::new();
    let mut k: usize = 0;
    while k < declared.len()
        invariant
            k <= declared.len(),
            dt == crate::build::feature_graph::trimmed(texts(declared@)),
            char_vecs(ids@) == dt.take(k as int),
        decreases declared.len() - k,
    {
        let raw = declared[k].text_chars();
        let t = trim_chars(raw.as_slice());
        let ghost before = char_vecs(ids@);
        ids.push(t);
        k = k + 1;
        assert(char_vecs(ids@) =~= before.push(dt[k - 1]));
        assert(dt.take(k as int) =~= dt.take(k - 1).push(dt[k - 1]));
    }
    assert(dt.take(declared.len() as int) =~= dt);
    let table = capabilities();
    let mut base: Vec<Vec<char>> = Vec::new();
    let mut i: usize = 0;
    while i < table.len()
        invariant
            table@ == capability_table_spec(),
            i <= table.len(),
            char_vecs(ids@) == dt,
            dt == crate::build::feature_graph::trimmed(texts(declared@)),
            forall|x: Seq<char>| char_vecs(base@).contains(x) ==> #[trigger] declared_modules(texts(declared@)).contains(x),
            forall|x: Seq<char>| char_vecs(base@).contains(x) ==> exists|j: int| 0 <= j < table@.len() && #[trigger] table@[j].id@ == x,
            forall|j: int| 0 <= j < i && table@[j].kotlin_sources@.len() > 0 && dt.contains(#[trigger] table@[j].id@) ==> char_vecs(base@).contains(table@[j].id@),
        decreases table.len() - i,
    {
        let id = chars_of(table[i].id);
        if table[i].kotlin_sources.len() > 0 && vec_contains(&ids, id.as_slice()) {
            let ghost before = char_vecs(base@);
            base.push(id);
            proof {
                assert(char_vecs(base@) =~= before.push(table@[i as int].id@));
                assert(declared_modules(texts(declared@)).contains(table@[i as int].id@));
                assert forall|x: Seq<char>| char_vecs(base@).contains(x) implies #[trigger] declared_modules(texts(declared@)).contains(x) by {
                    let m = choose|m: int| 0 <= m < char_vecs(base@).len() && char_vecs(base@)[m] == x;
                    if m < before.len() {
                        assert(before[m] == x);
                        assert(before.contains(x));
                    } else {
                        assert(table@[i as int].id@ == x);
                    }
                }
                assert forall|x: Seq<char>| char_vecs(base@).contains(x) implies exists|j: int| 0 <= j < table@.len() && #[trigger] table@[j].id@ == x by {
                    let m = choose|m: int| 0 <= m < char_vecs(base@).len() && char_vecs(base@)[m] == x;
                    if m < before.len() {
                        assert(before[m] == x);
                        assert(before.contains(x));
                    } else {
                        assert(table@[i as int].id@ == x);
                    }
                }
                assert forall|j: int| 0 <= j < i + 1 && table@[j].kotlin_sources@.len() > 0 && dt.contains(#[trigger] table@[j].id@) implies char_vecs(base@).contains(table@[j].id@) by {
                    if j < i {
                        let m = choose|m: int| 0 <= m < before.len() && before[m] == table@[j].id@;
                        assert(char_vecs(base@)[m] == table@[j].id@);
                    } else {
                        assert(char_vecs(base@)[before.len() as int] == table@[j].id@);
                    }
                }
            }
        }
        i = i + 1;
    }
    proof {
        assert(char_vecs(base@).to_set() =~= declared_modules(texts(declared@))) by {
            assert forall|x: Seq<char>| declared_modules(texts(declared@)).contains(x) implies char_vecs(base@).to_set().contains(x) by {
                let j = choose|j: int| 0 <= j < capability_table_spec().len() && #[trigger] capability_table_spec()[j].id@ == x && dt.contains(x) && capability_table_spec()[j].kotlin_sources@.len() > 0;
                assert(char_vecs(base@).contains(table@[j].id@));
            }
        }
    }
    let mg = module_graph_exec();
    let closure = crate::build::feature_graph::expand_feature_closure(&mg, &base);
    let mut sorted: Vec<Vec<char>> = Vec::new();
    let mut c: usize = 0;
    assert(char_vecs(sorted@).to_set() =~= Set::<Seq<char>>::empty());
    while c < closure.len()
        invariant
            c <= closure.len(),
            strictly_sorted(char_vecs(sorted@)),
            char_vecs(sorted@).to_set() == char_vecs(closure@).take(c as int).to_set(),
        decreases closure.len() - c,
    {
        let ghost x = char_vecs(closure@)[c as int];
        sorted_insert(&mut sorted, closure[c].clone());
        c = c + 1;
        assert(char_vecs(closure@).take(c as int) =~= char_vecs(closure@).take(c - 1).push(x));
        proof {
            char_vecs(closure@).take(c - 1).lemma_push_to_set_commute(x);
        }
    }
    assert(char_vecs(closure@).take(closure.len() as int) =~= char_vecs(closure@));
    let ghost bv = char_vecs(base@);
    let ghost spec_set = enabled_modules_spec(texts(declared@));
    proof {
        let cset = crate::build::feature_graph::feature_closure(module_graph(), bv);
        assert forall|m: Seq<char>| spec_set.contains(m) <==> cset.contains(m) by {
            if spec_set.contains(m) {
                let b2 = choose|b2: Seq<Seq<char>>| #[trigger] b2.to_set() == declared_modules(texts(declared@)) && crate::build::feature_graph::feature_closure(module_graph(), b2).contains(m);
                let p = choose|p: Seq<Seq<char>>| #[trigger] crate::build::feature_graph::is_path(module_graph(), p) && b2.contains(p[0]) && p.last() == m;
                assert(b2.to_set().contains(p[0]));
                assert(bv.to_set().contains(p[0]));
                assert(crate::build::feature_graph::reachable(module_graph(), bv, m));
            }
            if cset.contains(m) {
                assert(bv.to_set() == declared_modules(texts(declared@)));
            }
        }
        assert(spec_set =~= cset);
    }
    // Candidate names: every table id, then every module-dependency name.
    let deps_table = module_deps();
    let mut cands: Vec<&'static str> = Vec::new();
    let mut j: usize = 0;
    while j < table.len()
        invariant
            j <= table.len(),
            table@ == capability_table_spec(),
            cands@.len() == j,
            forall|m: int| 0 <= m < j ==> texts(cands@).contains(#[trigger] table@[m].id@),
        decreases table.len() - j,
    {
        let ghost before = cands@;
        cands.push(table[j].id);
        j = j + 1;
        assert(texts(cands@) =~= texts(before).push(table@[j - 1].id@));
        proof {
            assert forall|m: int| 0 <= m < j implies texts(cands@).contains(#[trigger] table@[m].id@) by {
                if m < j - 1 {
                    let q = choose|q: int| 0 <= q < texts(before).len() && texts(before)[q] == table@[m].id@;
                    assert(texts(cands@)[q] == table@[m].id@);
                } else {
                    assert(texts(cands@)[j - 1] == table@[m].id@);
                }
            }
        }
    }
    let mut e: usize = 0;
    while e < deps_table.len()
        invariant
            e <= deps_table.len(),
            deps_table@ == module_deps_spec(),
            table@ == capability_table_spec(),
            forall|m: int| 0 <= m < table@.len() ==> texts(cands@).contains(#[trigger] table@[m].id@),
            forall|x: Seq<char>| crate::build::feature_graph::all_deps(module_graph().take(e as int)).contains(x) ==> #[trigger] texts(cands@).contains(x),
        decreases deps_table.len() - e,
    {
        let (_, ds) = deps_table[e];
        let ghost start = cands@;
        let mut k: usize = 0;
        while k < ds.len()
            invariant
                k <= ds.len(),
                forall|x: Seq<char>| texts(start).contains(x) ==> #[trigger] texts(cands@).contains(x),
                forall|m: int| 0 <= m < k ==> texts(cands@).contains(#[trigger] ds@[m]@),
            decreases ds.len() - k,
        {
            let ghost before = cands@;
            cands.push(ds[k]);
            k = k + 1;
            assert(texts(cands@) =~= texts(before).push(ds@[k - 1]@));
            proof {
                assert forall|x: Seq<char>| texts(before).contains(x) implies texts(cands@).contains(x) by {
                    let q = choose|q: int| 0 <= q < texts(before).len() && texts(before)[q] == x;
                    assert(texts(cands@)[q] == x);
                }
                assert forall|x: Seq<char>| texts(start).contains(x) implies #[trigger] texts(cands@).contains(x) by {
                    assert(texts(before).contains(x));
                    let q = choose|q: int| 0 <= q < texts(before).len() && texts(before)[q] == x;
                    assert(texts(cands@)[q] == x);
                }
                assert(texts(cands@)[texts(before).len() as int] == ds@[k - 1]@);
                assert forall|m: int| 0 <= m < k implies texts(cands@).contains(#[trigger] ds@[m]@) by {
                    if m < k - 1 {
                        let q = choose|q: int| 0 <= q < texts(before).len() && texts(before)[q] == ds@[m]@;
                        assert(texts(cands@)[q] == ds@[m]@);
                    } else {
                        assert(texts(cands@)[texts(before).len() as int] == ds@[m]@);
                    }
                }
            }
        }
        proof {
            let g = module_graph();
            assert(g.take(e + 1).drop_last() =~= g.take(e as int));
            assert(g.take(e + 1).last() == g[e as int]);
            assert forall|x: Seq<char>| crate::build::feature_graph::all_deps(g.take(e + 1)).contains(x) implies #[trigger] texts(cands@).contains(x) by {
                let a = crate::build::feature_graph::all_deps(g.take(e as int));
                let q = choose|q: int| 0 <= q < (a + g[e as int].1).len() && (a + g[e as int].1)[q] == x;
                if q < a.len() {
                    assert(a[q] == x);
                } else {
                    assert(g[e as int].1[q - a.len()] == ds@[q - a.len()]@);
                }
            }
        }
        e = e + 1;
    }
    assert(module_graph().take(deps_table.len() as int) =~= module_graph());
    proof {
        assert forall|x: Seq<char>| char_vecs(closure@).contains(x) implies #[trigger] texts(cands@).contains(x) by {
            if bv.contains(x) {
                let jj = choose|jj: int| 0 <= jj < table@.len() && #[trigger] table@[jj].id@ == x;
                assert(texts(cands@).contains(table@[jj].id@));
            } else {
                assert(crate::build::feature_graph::all_deps(module_graph()).contains(x));
            }
        }
    }
    let mut out: Vec<&'static str> = Vec::new();
    let mut q: usize = 0;
    while q < sorted.len()
        invariant
            q <= sorted.len(),
            texts(out@) == char_vecs(sorted@).take(q as int),
            char_vecs(sorted@).to_set() == char_vecs(closure@).to_set(),
            forall|x: Seq<char>| char_vecs(closure@).contains(x) ==> #[trigger] texts(cands@).contains(x),
        decreases sorted.len() - q,
    {
        let ghost x = char_vecs(sorted@)[q as int];
        match find_text(&cands, sorted[q].as_slice()) {
            Some(name) => {
                let ghost before = out@;
                out.push(name);
                assert(texts(out@) =~= texts(before).push(x));
            },
            None => {
                proof {
                    assert(char_vecs(sorted@).to_set().contains(x));
                    assert(char_vecs(closure@).contains(x));
                }
            },
        }
        q = q + 1;
        assert(char_vecs(sorted@).take(q as int) =~= char_vecs(sorted@).take(q - 1).push(x));
    }
    assert(char_vecs(sorted@).take(sorted.len() as int) =~= char_vecs(sorted@));
    out
}

/// The first name of `names` whose text is `x`.
fn find_text(names: &Vec<&'static str>, x: &[char]) -> (r: Option<&'static str>)
    ensures
        match r {
            Some(s) => s@ == x@,
            None => !texts(names@).contains(x@),
        },
{
    let mut i: usize = 0;
    while i < names.len()
        invariant
            i <= names.len(),
            forall|m: int| 0 <= m < i ==> names@[m]@ != x@,
        decreases names.len() - i,
    {
        let c = chars_of(names[i]);
        if chars_eq(c.as_slice(), x) {
            return Some(names[i]);
        }
        i = i + 1;
    }
    proof {
        if texts(names@).contains(x@) {
            let m = choose|m: int| 0 <= m < texts(names@).len() && texts(names@)[m] == x@;
            assert(names@[m]@ == x@);
        }
    }
    None
}

} // verus!
