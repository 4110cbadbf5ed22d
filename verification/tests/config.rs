use mobile_sentinel::build::config::{
    activity_from_manifest, capability_file_ids, parse_aab_cli, parse_activity_cli, parse_app_cli,
    parse_cli_value, parse_mobile_sentinel_features, parse_release_cli, parse_sentinel_toml,
    parse_string_list, sentinel_build_root, sentinel_build_root_arg, android_project_path,
    app_cargo_candidates, build_target, icon_names, sentinel_toml_candidates,
};

fn args(v: &[&str]) -> Vec<String> {
    v.iter().map(|s| s.to_string()).collect()
}

#[test]
fn string_list_parses_brackets_or_single_value() {
    assert_eq!(
        parse_string_list(r#" ["a/sounds", "b" , ""] "#),
        vec!["a/sounds".to_string(), "b".to_string()]
    );
    assert_eq!(parse_string_list("  one "), vec!["one".to_string()]);
    assert_eq!(parse_string_list("[]"), Vec::<String>::new());
}

#[test]
fn features_come_from_the_dependency_line() {
    let toml = r#"
[dependencies]
# mobile-sentinel = { path = "x", features = ["nope"] }
serde = "1"
mobile-sentinel = { path = "../ms", features = ["alarm-kit", "scanner"] }
"#;
    assert_eq!(
        parse_mobile_sentinel_features(toml),
        vec!["alarm-kit".to_string(), "scanner".to_string()]
    );
    assert!(parse_mobile_sentinel_features("mobile-sentinel = \"1\"\n").is_empty());
    assert!(parse_mobile_sentinel_features("[dependencies]\n").is_empty());
}

#[test]
fn sentinel_toml_reads_the_android_table() {
    let t = parse_sentinel_toml(
        "# c\n[other]\nactivity = \"no\"\n[android]\nactivity = \"com.x.Main\"\nicon = \"\"\nassets = [\"s\"]\n",
    );
    assert_eq!(t.get("activity"), Some("com.x.Main".to_string()));
    assert_eq!(t.get("icon"), None);
    assert_eq!(t.get("assets"), Some("[\"s\"]".to_string()));
    assert!(!t.is_empty());
    assert!(parse_sentinel_toml("activity = \"x\"\n").is_empty());
}

#[test]
fn cli_values_and_flags() {
    let a = args(&["build_sentinel", "--app", "alarmfree", "--activity=com.a.B", "-r"]);
    assert_eq!(parse_app_cli(&a), Some("alarmfree".to_string()));
    assert_eq!(parse_activity_cli(&a), Some("com.a.B".to_string()));
    assert!(parse_release_cli(&a));
    assert!(!parse_aab_cli(&a));
    assert_eq!(parse_cli_value(&args(&["x", "--app"]), "--app"), None);
    assert!(parse_aab_cli(&args(&["x", "--bundle"])));
}

#[test]
fn build_root_is_inside_the_project() {
    assert_eq!(sentinel_build_root("/p/android"), "/p/android/sentinel-build");
    assert_eq!(
        sentinel_build_root_arg("C:\\p"),
        "-PsentinelBuildRoot=C:\\p/sentinel-build".replace('\\', "/")
    );
}

#[test]
fn capability_file_is_trimmed_sorted_and_deduplicated() {
    assert_eq!(
        capability_file_ids("sms\n  camera \n\nsms\r\n"),
        vec!["camera".to_string(), "sms".to_string()]
    );
}

#[test]
fn activity_is_detected_from_the_manifest() {
    let m = "<manifest>\n  <activity android:name=\"com.a.Main\" android:exported=\"true\">\n";
    assert_eq!(activity_from_manifest(m), Some("com.a.Main".to_string()));
    assert_eq!(activity_from_manifest("<manifest>\n"), None);
}

#[test]
fn sentinel_toml_is_looked_for_in_the_app_first() {
    assert_eq!(
        sentinel_toml_candidates(Some("alarm"), &[]),
        vec!["apps/alarm/sentinel.toml".to_string(), "sentinel.toml".to_string()]
    );
    let dirs = vec!["apps/a".to_string(), "apps/b/".to_string(), "apps/b/".to_string()];
    assert_eq!(
        sentinel_toml_candidates(None, &dirs),
        vec![
            "sentinel.toml".to_string(),
            "apps/a/sentinel.toml".to_string(),
            "apps/b/sentinel.toml".to_string(),
        ]
    );
}

#[test]
fn app_cargo_toml_candidates_in_order() {
    assert_eq!(
        app_cargo_candidates("clock"),
        vec![
            "apps/clock/Cargo.toml".to_string(),
            "clock/Cargo.toml".to_string(),
            "Cargo.toml".to_string(),
            "../clock/Cargo.toml".to_string(),
        ]
    );
}

#[test]
fn android_project_path_follows_the_profile() {
    assert_eq!(android_project_path("target/dx/clock", true), "target/dx/clock/release/android/app");
    assert_eq!(android_project_path("target/dx/clock/", false), "target/dx/clock/debug/android/app");
}

#[test]
fn build_target_follows_the_flags() {
    let aab = build_target(true, true);
    assert_eq!(aab.task, ":app:bundleRelease");
    assert_eq!(aab.label, "AAB");
    assert_eq!(aab.output, "app/build/outputs/bundle/release/app-release.aab");
    assert_eq!(build_target(false, true), aab);
    let release = build_target(true, false);
    assert_eq!(release.task, ":app:assembleRelease");
    assert_eq!(release.output, "app/build/outputs/apk/release/app-release-unsigned.apk");
    let debug = build_target(false, false);
    assert_eq!(debug.task, ":app:assembleDebug");
    assert_eq!(debug.label, "APK");
    assert_eq!(debug.output, "app/build/outputs/apk/debug/app-debug.apk");
}

#[test]
fn icon_names_follow_the_extension() {
    assert_eq!(icon_names(Some("png")), ("ic_launcher.png".to_string(), "ic_launcher.webp".to_string()));
    assert_eq!(icon_names(Some("webp")), ("ic_launcher.webp".to_string(), "ic_launcher.png".to_string()));
    assert_eq!(icon_names(None), ("ic_launcher.webp".to_string(), "ic_launcher.png".to_string()));
}

#[test]
fn joining_an_absolute_path_replaces_the_base() {
    assert_eq!(mobile_sentinel::build::config::join_path("/data/app", "/etc/x"), "/etc/x");
    assert_eq!(mobile_sentinel::build::config::join_path("/data/app", "x.json"), "/data/app/x.json");
    assert_eq!(mobile_sentinel::build::config::join_path("/data/app/", "x.json"), "/data/app/x.json");
}
