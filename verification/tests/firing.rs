use mobile_sentinel::firing::{ExactAlarmRequest, FireRequest, FiringSink, MockFiringSink};
use mobile_sentinel::init::{InitConfig, LogLevel};
use mobile_sentinel::platform::android_firing::{AndroidFiringSink, FiringFeatures, FiringStep};

fn sample_fire() -> FireRequest {
    FireRequest {
        instance_id: "a".into(),
        channel_id: "c".into(),
        channel_name: "C".into(),
        title: "t".into(),
        body: "b".into(),
        importance: 5,
        bypass_dnd: true,
        sound_uri: "file:///a.mp3".into(),
        audio_usage: "alarm".into(),
        audio_content_type: "sonification".into(),
        looping: true,
        vibrate: true,
        vibration_pattern: vec![0, 400, 200, 400],
        kiosk_mode: false,
        kiosk_block_home: true,
        kiosk_block_back: true,
        kiosk_block_recents: true,
        activity_fqcn: None,
        kiosk_debounce_ms: 50,
        kiosk_hide_status_bar: true,
        kiosk_hide_nav_bar: true,
        firing_full_screen: true,
    }
}

#[test]
fn mock_records_firing_calls() {
    let mut sink = MockFiringSink::new();
    assert!(sink.start_firing(&sample_fire()));
    assert_eq!(sink.fire_count(), 1);
    sink.stop_firing("a");
    sink.pause_audio();
    assert_eq!(sink.pauses, 1);
}

#[test]
fn mock_records_exact_alarm_calls() {
    let mut sink = MockFiringSink::new();
    let req = ExactAlarmRequest {
        alarm_id: "x".into(),
        target_unix_ms: 1,
        metadata_json: None,
    };
    assert!(sink.schedule_exact_alarm(&req));
    sink.cancel_exact_alarm("x");
    assert_eq!(sink.schedule_count(), 1);
    assert_eq!(sink.cancel_count(), 1);
}

#[test]
fn default_system_default_sound_uri_is_well_formed() {
    let sink = MockFiringSink::new();
    assert!(sink.system_default_sound_uri().contains("default-alarm"));
}

#[test]
fn init_config_default_values() {
    let config = InitConfig::default();
    assert!(config.logger);
    assert!(config.crash_loop_mitigation);
    assert_eq!(config.log_tag, "MobileSentinel");
    assert_eq!(config.log_level, LogLevel::Debug);
}

// --- further cases ---

#[test]
fn mock_keeps_the_last_requests() {
    let mut sink = MockFiringSink::new();
    assert_eq!(sink.last_fire(), None);
    let mut second = sample_fire();
    second.instance_id = "b".into();
    sink.start_firing(&sample_fire());
    sink.start_firing(&second);
    assert_eq!(sink.last_fire(), Some(second));
    let req = ExactAlarmRequest {
        alarm_id: "y".into(),
        target_unix_ms: 9,
        metadata_json: Some("{}".into()),
    };
    sink.schedule_exact_alarm(&req);
    assert_eq!(sink.last_schedule(), Some(req));
    assert_eq!(sink.stops.len(), 0);
}

fn all_features() -> FiringFeatures {
    FiringFeatures {
        foreground_service: true,
        firing_audio: true,
        firing_vibration: true,
        kiosk: true,
        full_screen_intent: true,
        wake_lock: true,
        exact_alarm: true,
    }
}

#[test]
fn start_plan_runs_the_surfaces_in_order() {
    let sink = AndroidFiringSink::new();
    let mut req = sample_fire();
    req.kiosk_mode = true;
    req.activity_fqcn = Some("a.Main".into());
    req.vibration_pattern = vec![];
    let plan = sink.start_firing_plan(&req, all_features(), false);
    assert_eq!(plan.len(), 6);
    match &plan[0] {
        FiringStep::StartForegroundService { full_screen, .. } => assert!(*full_screen),
        other => panic!("unexpected {other:?}"),
    }
    assert!(matches!(plan[1], FiringStep::PlaySound { .. }));
    assert_eq!(
        plan[2],
        FiringStep::StartVibration {
            pattern: vec![0, 400, 200, 400]
        }
    );
    assert!(matches!(plan[3], FiringStep::EnableKioskMode { .. }));
    assert_eq!(
        plan[4],
        FiringStep::ShowFullScreenIntent {
            activity_fqcn: "a.Main".into(),
            dismiss_keyguard: true
        }
    );
    assert_eq!(
        plan[5],
        FiringStep::AcquireWakeLock {
            tag: "sentinel.firing".into(),
            timeout_ms: 300000
        }
    );
}

#[test]
fn start_plan_skips_silent_sound_and_redundant_full_screen() {
    let sink = AndroidFiringSink::new();
    let mut req = sample_fire();
    req.sound_uri = "silent://".into();
    req.activity_fqcn = Some("a.Main".into());
    let plan = sink.start_firing_plan(&req, all_features(), true);
    assert!(!plan.iter().any(|s| matches!(s, FiringStep::PlaySound { .. })));
    match &plan[0] {
        FiringStep::StartForegroundService { full_screen, .. } => assert!(!*full_screen),
        other => panic!("unexpected {other:?}"),
    }
    assert!(sink.start_firing_result(all_features(), true));
    assert!(!sink.start_firing_result(all_features(), false));
}

#[test]
fn stop_plan_tears_down_in_order() {
    let sink = AndroidFiringSink::new();
    let plan = sink.stop_firing_plan(all_features());
    assert_eq!(
        plan,
        vec![
            FiringStep::StopSound,
            FiringStep::StopVibration,
            FiringStep::ReleaseWakeLock {
                tag: "sentinel.firing".into()
            },
            FiringStep::DisableKioskMode,
            FiringStep::StopForegroundService,
        ]
    );
    let none = FiringFeatures {
        foreground_service: false,
        firing_audio: false,
        firing_vibration: false,
        kiosk: false,
        full_screen_intent: false,
        wake_lock: false,
        exact_alarm: false,
    };
    assert!(sink.stop_firing_plan(none).is_empty());
    assert!(sink.start_firing_result(none, false));
    assert_eq!(
        sink.system_default_sound_uri_fallback(none),
        Some("silent://".to_string())
    );
    assert_eq!(sink.pause_audio_plan(all_features()).len(), 2);
}

#[test]
fn mock_counts_starts_and_keeps_the_last_among_other_calls() {
    let mut sink = MockFiringSink::new();
    assert_eq!(sink.fire_count(), 0);
    assert!(sink.last_fire().is_none());
    let mut second = sample_fire();
    second.instance_id = "b".into();
    assert!(sink.start_firing(&sample_fire()));
    sink.pause_audio();
    sink.stop_firing("a");
    assert!(sink.start_firing(&second));
    sink.cancel_exact_alarm("x");
    assert!(sink.schedule_exact_alarm(&ExactAlarmRequest {
        alarm_id: "x".into(),
        target_unix_ms: 5,
        metadata_json: None,
    }));
    assert_eq!(sink.fire_count(), 2);
    assert_eq!(sink.last_fire().unwrap().instance_id, "b");
}
