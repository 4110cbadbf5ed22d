use mobile_sentinel::accessibility::service_listed;
use mobile_sentinel::audio::playback_from_id;
use mobile_sentinel::biometric::biometric_type_from_code;
use mobile_sentinel::display::ScreenOrientation;
use mobile_sentinel::error::{Platform, SentinelError};
use mobile_sentinel::media_picker::{picked, picker_mime};
use mobile_sentinel::network::connection_type_from_code;
use mobile_sentinel::permissions::{state_from_check, state_from_request_code};
use mobile_sentinel::platform::sensor_state::SensorState;
use mobile_sentinel::{
    camera, clipboard, file_system, haptics, secure_storage, sensors, BiometricType,
    ConnectionType, PermissionState,
};

fn unavailable(feature: &str) -> SentinelError {
    SentinelError::PlatformUnsupported {
        platform: Platform::Unsupported,
        feature: feature.into(),
        fallback_suggestion: None,
    }
}

#[test]
fn host_entry_points_report_unavailable() {
    assert_eq!(camera::capture_photo(), Err(unavailable("camera::capture_photo")));
    assert_eq!(clipboard::get_text(), Err(unavailable("clipboard::get_text")));
    assert_eq!(secure_storage::clear(), Err(unavailable("secure_storage::clear")));
    assert!(!camera::is_available());
    assert_eq!(file_system::list_assets("x"), "[]");
    assert_eq!(sensors::shake_count(), 0);
    haptics::vibrate(std::time::Duration::from_millis(5));
}

#[test]
fn platform_codes_decode() {
    assert_eq!(biometric_type_from_code(1), BiometricType::Fingerprint);
    assert_eq!(biometric_type_from_code(2), BiometricType::Face);
    assert_eq!(biometric_type_from_code(7), BiometricType::NoSensor);
    assert_eq!(connection_type_from_code(1), ConnectionType::Wifi);
    assert_eq!(connection_type_from_code(2), ConnectionType::Cellular);
    assert_eq!(connection_type_from_code(0), ConnectionType::Offline);
    assert_eq!(state_from_check(true), PermissionState::Granted);
    assert_eq!(state_from_request_code(2), PermissionState::Denied);
    assert_eq!(playback_from_id(3).unwrap().id(), 3);
    assert_eq!(playback_from_id(0), Err(unavailable("audio::play")));
}

#[test]
fn orientation_constants_round_trip() {
    for o in [
        ScreenOrientation::Portrait,
        ScreenOrientation::Landscape,
        ScreenOrientation::SensorPortrait,
        ScreenOrientation::SensorLandscape,
        ScreenOrientation::FullSensor,
        ScreenOrientation::Unspecified,
        ScreenOrientation::Nosensor,
        ScreenOrientation::Behind,
        ScreenOrientation::User,
    ] {
        assert_eq!(
            ScreenOrientation::from_android_constant(o.to_android_constant()),
            Some(o)
        );
    }
    assert_eq!(ScreenOrientation::Unspecified.to_android_constant(), -1);
    assert_eq!(ScreenOrientation::from_android_constant(4), None);
}

#[test]
fn accessibility_service_is_found_case_insensitively() {
    let list = "a.b/x.Y:com.app/COM.MOBILESENTINEL.SentinelAccessibilityService";
    assert!(service_listed(Some(list), "com.app"));
    assert!(!service_listed(Some(list), "com.other"));
    assert!(!service_listed(None, "com.app"));
}

#[test]
fn picker_uses_first_mime_or_any() {
    assert_eq!(picker_mime(&["audio/*", "video/*"]), "audio/*");
    assert_eq!(picker_mime(&[]), "*/*");
}

#[test]
fn sensor_state_counts_shakes_with_cooldown() {
    let mut s = SensorState::new();
    assert!(!s.on_accelerometer_sample(true, 1000));
    s.start_accelerometer();
    assert!(s.on_accelerometer_sample(true, 1000));
    assert!(!s.on_accelerometer_sample(true, 1200));
    assert!(!s.on_accelerometer_sample(false, 2000));
    assert!(s.on_accelerometer_sample(true, 1301));
    assert_eq!(s.get_shake_count(), 2);
    s.reset_shake_count();
    assert_eq!(s.get_shake_count(), 0);
    s.on_step_count(5);
    assert_eq!(s.get_step_count(), 0);
    s.start_step_counter();
    s.on_step_count(5);
    assert_eq!(s.get_step_count(), 5);
}

#[test]
fn starting_the_accelerometer_restarts_the_count_and_the_next_shake_counts() {
    let mut s = SensorState::new();
    s.start_accelerometer();
    assert!(s.on_accelerometer_sample(true, 1_000));
    assert_eq!(s.get_shake_count(), 1);
    s.start_accelerometer();
    assert_eq!(s.get_shake_count(), 0);
    assert!(!s.on_accelerometer_sample(true, 1_200));
    assert_eq!(s.get_shake_count(), 0);
    assert!(!s.on_accelerometer_sample(false, 5_000));
    assert!(s.on_accelerometer_sample(true, 5_000));
    assert_eq!(s.get_shake_count(), 1);
}

#[test]
fn a_pick_gives_the_path_or_the_unavailable_error() {
    assert_eq!(picked("/data/x.mp3".to_string()).unwrap(), "/data/x.mp3");
    assert_eq!(
        picked(String::new()).unwrap_err(),
        SentinelError::unavailable("media_picker::pick_file")
    );
}
