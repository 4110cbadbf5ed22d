use std::collections::BTreeSet;

use mobile_sentinel::build::capability_ids::{capability_ids, firing_bundle_ids};
use mobile_sentinel::build::feature_graph::feature_edges;
use mobile_sentinel::build::registry::{
    assemble, capabilities, capabilities_for_features, capability, cargo_feature_to_capability,
    enabled_modules,
};

#[test]
fn baseline_table_does_not_contain_policy_pieces_implicitly() {
    let injection = assemble::<&str>(&[]);
    assert!(injection.manifest_lines.is_empty());
    assert!(injection.application_components.is_empty());
    assert!(injection.policy_warnings.is_empty());
    assert!(injection.unknown.is_empty());
}

#[test]
fn accessibility_is_opt_in_and_flagged() {
    let injection = assemble(&["accessibility"]);
    assert_eq!(injection.application_components.len(), 1);
    assert!(injection.application_components[0]
        .contains("com.mobilesentinel.SentinelAccessibilityService"));
    assert_eq!(injection.policy_warnings.len(), 1);
    assert!(injection.policy_warnings[0].contains("accessibility"));
}

#[test]
fn device_admin_is_opt_in_and_flagged() {
    let injection = assemble(&["device_admin"]);
    assert!(injection.application_components[0].contains("com.mobilesentinel.SentinelAdminReceiver"));
    assert_eq!(injection.policy_warnings.len(), 1);
}

#[test]
fn scanner_brings_permission_feature_and_activity() {
    let injection = assemble(&["scanner"]);
    assert!(injection
        .manifest_lines
        .iter()
        .any(|l| l.contains("android.permission.CAMERA")));
    assert!(injection
        .manifest_lines
        .iter()
        .any(|l| l.contains("android.hardware.camera")));
    assert!(injection.application_components[0]
        .contains("com.mobilesentinel.SentinelScannerActivity"));
    assert!(injection.policy_warnings.is_empty());
}

#[test]
fn camera_brings_capture_proxy_and_fileprovider_no_permission() {
    let injection = assemble(&["camera"]);
    assert!(
        !injection
            .manifest_lines
            .iter()
            .any(|l| l.contains("android.permission.CAMERA")),
        "system-camera capture must not request the CAMERA permission"
    );
    assert!(injection
        .manifest_lines
        .iter()
        .any(|l| l.contains("android.hardware.camera")));
    let components = injection.application_components.join("\n");
    assert!(components.contains("com.mobilesentinel.SentinelCameraActivity"));
    assert!(components.contains("androidx.core.content.FileProvider"));
    assert!(injection.policy_warnings.is_empty());
}

#[test]
fn enabled_modules_includes_only_declared_with_kotlin() {
    let modules = enabled_modules(&["scanner"]);
    assert!(modules.contains(&"scanner"));
    assert!(!modules.contains(&"sms"));
    assert!(!modules.contains(&"contacts"));
    assert!(!modules.contains(&"location"));
}

#[test]
fn enabled_modules_firing_subfeature_is_its_own_module() {
    let modules = enabled_modules(&["wake_lock"]);
    assert_eq!(modules, vec!["wake_lock"]);
}

#[test]
fn enabled_modules_exact_alarm_pulls_jobs() {
    let modules = enabled_modules(&["exact_alarm"]);
    assert!(modules.contains(&"exact_alarm"));
    assert!(modules.contains(&"jobs"));

    let modules = enabled_modules(&["accessibility"]);
    assert!(modules.contains(&"accessibility"));
    assert!(modules.contains(&"kiosk"));
}

#[test]
fn enabled_modules_jobs_is_standalone() {
    let modules = enabled_modules(&["jobs"]);
    assert_eq!(modules, vec!["jobs"]);
    assert!(!modules.contains(&"kiosk"));
}

#[test]
fn enabled_modules_lists_each_declared_kotlin_capability() {
    let modules = enabled_modules(&["sms", "contacts", "camera"]);
    assert!(modules.contains(&"sms"));
    assert!(modules.contains(&"contacts"));
    assert!(modules.contains(&"camera"));
    assert!(!modules.contains(&"kiosk"));
    assert!(!modules.contains(&"jobs"));
    assert_eq!(modules.len(), 3);
}

#[test]
fn enabled_modules_is_deterministic_and_deduped() {
    let a = enabled_modules(&["camera", "sms"]);
    let b = enabled_modules(&["sms", "camera"]);
    assert_eq!(a, b);
    let mut sorted = a.clone();
    sorted.dedup();
    assert_eq!(a.len(), sorted.len());
}

#[test]
fn cargo_feature_maps_kebab_to_snake_capability() {
    assert_eq!(
        cargo_feature_to_capability("full-screen-intent"),
        Some("full_screen_intent")
    );
    assert_eq!(cargo_feature_to_capability("battery"), Some("battery"));
    assert_eq!(cargo_feature_to_capability("camera"), Some("camera"));
    assert_eq!(cargo_feature_to_capability("alarm-kit"), None);
    assert_eq!(cargo_feature_to_capability("sound-library"), None);
    assert_eq!(cargo_feature_to_capability("nonsense"), None);
}

#[test]
fn capability_ids_match_capabilities_table() {
    let ids: BTreeSet<&str> = capability_ids().iter().copied().collect();
    let table: BTreeSet<&str> = capabilities().iter().map(|c| c.id).collect();
    let missing_row: Vec<&&str> = ids.difference(&table).collect();
    let missing_id: Vec<&&str> = table.difference(&ids).collect();
    assert!(
        missing_row.is_empty(),
        "ids with no capabilities row: {missing_row:?}"
    );
    assert!(
        missing_id.is_empty(),
        "capabilities rows missing from the ids: {missing_id:?}"
    );
}

#[test]
fn firing_bundle_ids_are_known_capabilities() {
    let ids: BTreeSet<&str> = capability_ids().iter().copied().collect();
    for id in firing_bundle_ids() {
        assert!(ids.contains(id), "firing bundle has unknown id `{id}`");
    }
}

#[test]
fn capabilities_for_features_expands_alarm_kit_to_firing_surface() {
    let caps = capabilities_for_features(&["alarm-kit"]);
    for id in firing_bundle_ids() {
        assert!(caps.contains(&id.to_string()), "missing {id}");
    }
    assert!(!caps.contains(&"camera".to_string()));
}

#[test]
fn capabilities_for_features_matches_alarmfree_declared_set() {
    let caps = capabilities_for_features(&[
        "alarm-kit",
        "scanner",
        "haptics",
        "audio",
        "overlay",
        "permissions",
        "sensors",
        "foregrounding",
        "media_picker",
    ]);
    for id in [
        "scanner",
        "haptics",
        "audio",
        "overlay",
        "permissions",
        "sensors",
        "foregrounding",
        "media_picker",
    ] {
        assert!(caps.contains(&id.to_string()), "missing leaf {id}");
    }
    for id in firing_bundle_ids() {
        assert!(caps.contains(&id.to_string()), "missing firing {id}");
    }
    for id in ["sms", "contacts", "location", "calendar", "device_admin"] {
        assert!(!caps.contains(&id.to_string()), "leaked {id}");
    }
}

#[test]
fn capabilities_for_features_empty_is_husk() {
    let caps = capabilities_for_features::<&str>(&[]);
    assert!(caps.is_empty());
}

#[test]
fn capabilities_for_features_resolves_transitive_dismiss_guard_edge() {
    let caps = capabilities_for_features(&["dismiss_guard"]);
    assert!(caps.contains(&"dismiss_guard".to_string()));
    assert!(
        caps.contains(&"screen_pin".to_string()),
        "dismiss_guard must transitively pull screen_pin"
    );
    let modules = enabled_modules(&caps);
    assert!(modules.contains(&"screen_pin"));
    assert!(modules.contains(&"dismiss_guard"));
}

#[test]
fn capabilities_for_features_resolves_accessibility_to_kiosk() {
    let caps = capabilities_for_features(&["accessibility"]);
    assert!(caps.contains(&"accessibility".to_string()));
    assert!(caps.contains(&"kiosk".to_string()));
    let modules = enabled_modules(&caps);
    assert!(modules.contains(&"accessibility"));
    assert!(modules.contains(&"kiosk"));
}

#[test]
fn feature_edges_reference_only_known_features() {
    let edges = feature_edges();
    let edge_keys: BTreeSet<&str> = edges.entries.iter().map(|(k, _)| k.as_str()).collect();
    let building_blocks = ["state-store", "sound-library", "jobs", "firing"];
    for (_, deps) in edges.entries.iter() {
        for dep in deps {
            let known = cargo_feature_to_capability(dep).is_some()
                || edge_keys.contains(dep.as_str())
                || building_blocks.contains(&dep.as_str());
            assert!(known, "feature graph references unknown feature `{dep}`");
        }
    }
}

#[test]
fn feature_graph_parsed_from_cargo_toml() {
    let edges = feature_edges();
    let deps_of = |feat: &str| -> Option<Vec<&str>> {
        edges
            .get(feat)
            .map(|d| d.iter().map(String::as_str).collect())
    };
    assert_eq!(
        deps_of("alarm-kit"),
        Some(vec!["recipes", "firing", "sound-library", "jobs"])
    );
    assert_eq!(deps_of("recipes"), Some(vec!["state-store"]));
    assert_eq!(deps_of("dismiss_guard"), Some(vec!["screen_pin"]));
    assert!(deps_of("camera").is_none());
}

#[test]
fn firing_definition_matches_shared_bundle() {
    let from_cargo: BTreeSet<String> = feature_edges()
        .get("firing")
        .expect("firing edge present in Cargo.toml")
        .iter()
        .map(|f| f.replace('-', "_"))
        .collect();
    let from_const: BTreeSet<String> = firing_bundle_ids().iter().map(|s| s.to_string()).collect();
    assert_eq!(
        from_cargo, from_const,
        "the manifest's firing members and the firing bundle must match"
    );
    let got: BTreeSet<String> = capabilities_for_features(&["firing"]).into_iter().collect();
    assert_eq!(got, from_const, "firing must expand to exactly its bundle");
}

#[test]
fn permissions_are_deduped_across_capabilities() {
    let injection = assemble(&["overlay", "camera", "overlay"]);
    let overlay_count = injection
        .manifest_lines
        .iter()
        .filter(|l| l.contains("SYSTEM_ALERT_WINDOW"))
        .count();
    assert_eq!(overlay_count, 1);
}

#[test]
fn unknown_capability_is_reported_not_dropped() {
    let injection = assemble(&["overlay", "telepathy"]);
    assert_eq!(injection.unknown, vec!["telepathy".to_string()]);
}

#[test]
fn typical_alarm_capability_set_excludes_sensitive() {
    let injection = assemble(&["overlay", "battery", "scanner", "sensors", "media_picker"]);
    assert!(injection.unknown.is_empty());
    assert!(
        injection.policy_warnings.is_empty(),
        "a non-sensitive capability set must not enable any policy-sensitive capability"
    );
    for comp in &injection.application_components {
        assert!(!comp.contains("SentinelAccessibilityService"));
        assert!(!comp.contains("SentinelAdminReceiver"));
    }
}

#[test]
fn output_is_deterministic() {
    let a = assemble(&["camera", "overlay", "sensors"]);
    let b = assemble(&["sensors", "overlay", "camera"]);
    assert_eq!(a.manifest_lines, b.manifest_lines);
}

// --- further cases ---

#[test]
fn capability_lookup_finds_rows() {
    assert_eq!(capability("scanner").map(|c| c.id), Some("scanner"));
    assert!(capability("telepathy").is_none());
}

#[test]
fn declared_ids_are_trimmed_and_deduplicated() {
    let injection = assemble(&[" overlay ", "overlay", ""]);
    assert!(injection.unknown.is_empty());
    let count = injection
        .manifest_lines
        .iter()
        .filter(|l| l.contains("SYSTEM_ALERT_WINDOW"))
        .count();
    assert_eq!(count, 1);
}

#[test]
fn permission_with_max_sdk_renders_attribute() {
    // Every rendered permission line is a uses-permission element.
    let injection = assemble(&["scanner"]);
    let perm = injection
        .manifest_lines
        .iter()
        .find(|l| l.contains("android.permission.CAMERA"))
        .unwrap();
    assert!(perm.contains("<uses-permission"));
    let feat = injection
        .manifest_lines
        .iter()
        .find(|l| l.contains("android.hardware.camera"))
        .unwrap();
    assert!(feat.contains("android:required=\"false\""));
}

#[test]
fn enabled_modules_closure_is_closed_under_module_edges() {
    let modules = enabled_modules(&["exact_alarm", "accessibility", "sms"]);
    assert_eq!(
        modules,
        vec!["accessibility", "exact_alarm", "jobs", "kiosk", "sms"]
    );
}

#[test]
fn capabilities_for_features_ignores_order_and_repeats() {
    let a = capabilities_for_features(&["accessibility", "camera"]);
    let b = capabilities_for_features(&["camera", " accessibility", "camera"]);
    assert_eq!(a, b);
    let mut sorted = a.clone();
    sorted.sort();
    sorted.dedup();
    assert_eq!(a, sorted);
}

#[test]
fn building_block_features_contribute_no_capability() {
    for f in ["alarm-kit", "recipes", "firing", "sound-library", "jobs", "state-store", " jobs "] {
        assert_eq!(cargo_feature_to_capability(f), None, "{f}");
    }
    assert!(!capabilities_for_features(&["jobs"]).contains(&"jobs".to_string()));
    assert_eq!(cargo_feature_to_capability("exact-alarm"), Some("exact_alarm"));
}
