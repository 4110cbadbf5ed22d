use mobile_sentinel::build::helper::{
    activity_flags_edit, find_activity_tag, insert_attr_before_close, module_dependencies_edit,
    remove_attr, render_manifest_block, screen_orientation_edit, settings_gradle_edit,
    splice_injection, strip_injection_block, strip_marker_block, GRADLE_MARKER, INJECTION_MARKER,
};
use mobile_sentinel::build::registry::assemble;

const BASELINE: &str = r#"<?xml version="1.0" encoding="utf-8"?>
<manifest xmlns:android="http://schemas.android.com/apk/res/android">
    <uses-permission android:name="android.permission.WAKE_LOCK" />
    <application>
        <service android:name=".SentinelForegroundService" />
    </application>
</manifest>
"#;

#[test]
fn empty_injection_leaves_no_marker() {
    let injection = assemble::<&str>(&[]);
    let out = splice_injection(BASELINE, &injection);
    assert!(!out.contains(INJECTION_MARKER));
    assert!(out.contains("SentinelForegroundService"));
}

#[test]
fn scanner_injection_adds_permission_and_activity() {
    let injection = assemble(&["scanner"]);
    let out = splice_injection(BASELINE, &injection);
    assert!(out.contains("android.permission.CAMERA"));
    assert!(out.contains("com.mobilesentinel.SentinelScannerActivity"));
    let cam = out.find("android.permission.CAMERA").unwrap();
    let app = out.find("<application").unwrap();
    assert!(cam < app, "permission must precede <application>");
    let act = out.find("SentinelScannerActivity").unwrap();
    let close = out.find("</application>").unwrap();
    assert!(act < close, "component must precede </application>");
}

#[test]
fn injection_is_idempotent() {
    let injection = assemble(&["scanner", "overlay"]);
    let once = splice_injection(&strip_injection_block(BASELINE), &injection);
    let twice = splice_injection(&strip_injection_block(&once), &injection);
    let count_once = once.matches("android.permission.CAMERA").count();
    let count_twice = twice.matches("android.permission.CAMERA").count();
    assert_eq!(count_once, 1);
    assert_eq!(count_twice, 1);
}

#[test]
fn stripping_restores_baseline() {
    let injection = assemble(&["scanner", "accessibility"]);
    let injected = splice_injection(&strip_injection_block(BASELINE), &injection);
    assert!(injected.contains("SentinelAccessibilityService"));
    let stripped = strip_injection_block(&injected);
    assert!(!stripped.contains("SentinelAccessibilityService"));
    assert!(!stripped.contains("android.permission.CAMERA"));
    assert!(!stripped.contains(INJECTION_MARKER));
    assert!(stripped.contains("SentinelForegroundService"));
}

#[test]
fn remove_and_insert_attr_helpers() {
    let tag = r#"<activity android:name="dev.example.Main" android:configChanges="foo" android:exported="true">"#;
    let cleaned = remove_attr(tag, "android:screenOrientation");
    assert_eq!(cleaned, tag);

    let with_existing = r#"<activity android:name="dev.example.Main" android:screenOrientation="landscape" android:exported="true">"#;
    let cleaned2 = remove_attr(with_existing, "android:screenOrientation");
    assert!(!cleaned2.contains("screenOrientation"));

    let inserted = insert_attr_before_close(&cleaned2, r#"android:screenOrientation="portrait""#);
    assert!(inserted.contains(r#"android:screenOrientation="portrait""#));
    assert!(inserted.contains("android:exported"));

    let tag3 = r#"<activity android:name="x" android:screenOrientation="foo" >"#;
    let c3 = remove_attr(tag3, "android:screenOrientation");
    let u3 = insert_attr_before_close(&c3, r#"android:screenOrientation="bar""#);
    assert!(u3.contains(r#"="bar""#));
    assert!(!u3.contains(r#"="foo""#));
}

// --- further cases ---

const ORIENT_BASELINE: &str = r#"<?xml version="1.0"?>
<manifest>
    <application>
        <activity android:name="dev.dioxus.main.MainActivity"
            android:configChanges="orientation|screenLayout|screenSize"
            android:exported="true"
            android:launchMode="singleInstance">
        </activity>
    </application>
</manifest>"#;

#[test]
fn orientation_edit_injects_overwrites_and_is_a_no_op_when_set() {
    let fqcn = "dev.dioxus.main.MainActivity";
    let after = screen_orientation_edit(ORIENT_BASELINE, fqcn, "portrait").unwrap();
    assert!(after.contains(r#"android:screenOrientation="portrait""#));
    assert!(after.contains("configChanges"));

    let after2 = screen_orientation_edit(&after, fqcn, "landscape").unwrap();
    assert!(after2.contains(r#"android:screenOrientation="landscape""#));
    assert!(!after2.contains(r#"="portrait""#));
    assert_eq!(after2.matches("screenOrientation").count(), 1);

    assert_eq!(screen_orientation_edit(&after2, fqcn, "landscape"), None);
    assert_eq!(screen_orientation_edit(ORIENT_BASELINE, "no.such.Activity", "portrait"), None);
}

#[test]
fn activity_tag_is_found_from_name_to_close() {
    let tag = find_activity_tag(ORIENT_BASELINE, "dev.dioxus.main.MainActivity").unwrap();
    assert!(tag.starts_with("android:name=\"dev.dioxus.main.MainActivity\""));
    assert!(tag.ends_with('>'));
    assert!(find_activity_tag(ORIENT_BASELINE, "x.Y").is_none());
}

#[test]
fn insert_attr_keeps_existing_space_and_handles_missing_close() {
    assert_eq!(insert_attr_before_close("<a b=\"c\" >", "d=\"e\""), "<a b=\"c\" d=\"e\">");
    assert_eq!(insert_attr_before_close("<a>", "d=\"e\""), "<a d=\"e\">");
    assert_eq!(insert_attr_before_close("no close", "d=\"e\""), "no close");
}

#[test]
fn remove_attr_drops_trailing_whitespace() {
    assert_eq!(
        remove_attr("<a x=\"1\"   y=\"2\">", "x"),
        "<a y=\"2\">"
    );
}

#[test]
fn activity_flags_are_added_once() {
    let manifest = "<manifest>\n<application>\n<activity android:name=\"a.B\">\n</activity>\n</application>\n</manifest>\n";
    let out = activity_flags_edit(manifest, "a.B").unwrap();
    assert!(out.contains("android:launchMode=\"singleInstance\""));
    assert!(out.contains("android:showWhenLocked=\"true\""));
    assert!(out.contains("android:turnScreenOn=\"true\""));
    assert!(out.contains("<application android:enableOnBackInvokedCallback=\"true\""));
    assert_eq!(activity_flags_edit(&out, "a.B"), None);
}

#[test]
fn strip_marker_block_removes_span_and_markers() {
    let text = "a\n// m\nb\n// m\nc";
    assert_eq!(strip_marker_block(text, "// m"), "a\nc\n");
    assert_eq!(strip_marker_block("x\r\ny", "zz"), "x\ny\n");
}

#[test]
fn render_manifest_block_is_empty_without_lines() {
    let empty = assemble::<&str>(&[]);
    assert_eq!(render_manifest_block(&empty), "");
    let scanner = assemble(&["scanner"]);
    let block = render_manifest_block(&scanner);
    assert!(block.starts_with(&format!("    {}\n", INJECTION_MARKER)));
    assert!(block.ends_with(&format!("    {}\n", INJECTION_MARKER)));
}

#[test]
fn settings_block_includes_core_and_modules_and_is_rewritten() {
    let content = "rootProject.name = 'app'\ninclude ':app'\n";
    let once = settings_gradle_edit(content, "/p/android", &["camera", "sms"]);
    assert!(once.contains("include ':sentinel-core'"));
    assert!(once.contains("project(':sentinel-core').projectDir = new File('/p/android/core')"));
    assert!(once.contains("include ':sentinel-camera'"));
    assert!(once.contains("project(':sentinel-sms').projectDir = new File('/p/android/caps/sms')"));
    let twice = settings_gradle_edit(&once, "/p/android", &["camera"]);
    assert!(!twice.contains("sentinel-sms"));
    assert_eq!(twice.matches(GRADLE_MARKER).count(), 2);
    assert!(twice.starts_with("rootProject.name = 'app'\ninclude ':app'\n// "));
}

#[test]
fn dependencies_are_inserted_after_the_dependencies_opening() {
    let content = "plugins {}\ndependencies {\n    implementation(\"x\")\n}\n";
    let out = module_dependencies_edit(content, &["jobs"]);
    assert!(out.contains("dependencies {\n    // mobile-sentinel:modules\n    implementation(project(\":sentinel-core\"))\n    implementation(project(\":sentinel-jobs\"))\n"));
    let again = module_dependencies_edit(&out, &[]);
    assert!(!again.contains("sentinel-jobs"));
    let bare = module_dependencies_edit("plugins {}\n", &[]);
    assert!(bare.ends_with("dependencies {\n    // mobile-sentinel:modules\n    implementation(project(\":sentinel-core\"))\n    // mobile-sentinel:modules\n}\n"));
}

#[test]
fn reinjection_writes_the_same_manifest() {
    let injection = assemble(&["scanner", "accessibility", "overlay"]);
    let base = strip_injection_block(BASELINE);
    let once = splice_injection(&base, &injection);
    assert_eq!(strip_injection_block(&once), base);
    let twice = splice_injection(&strip_injection_block(&once), &injection);
    assert_eq!(once, twice);
}

#[test]
fn settings_rewrite_leaves_no_trace_of_the_previous_block() {
    let content = "rootProject.name = 'app'\n\ninclude ':app'\n\n";
    let first = settings_gradle_edit(content, "/p", &["sms", "camera"]);
    let second = settings_gradle_edit(&first, "/p", &["jobs"]);
    assert_eq!(second, settings_gradle_edit(content, "/p", &["jobs"]));
}

#[test]
fn dependencies_rewrite_twice_is_rewrite_once() {
    for content in [
        "plugins {}\ndependencies {\n    implementation(\"x\")\n}\n",
        "plugins {}\ndependencies {}\n",
        "plugins {}\n",
        "",
    ] {
        let once = module_dependencies_edit(content, &["jobs", "sms"]);
        let twice = module_dependencies_edit(&once, &["jobs", "sms"]);
        assert_eq!(once, twice);
    }
}

#[test]
fn stripping_an_unclosed_block_leaves_no_marker() {
    let content = format!("a\n    {}\nb\n", INJECTION_MARKER);
    let out = strip_injection_block(&content);
    assert_eq!(out, "a\n");
    assert!(!out.contains(INJECTION_MARKER));
}

#[test]
fn orientation_set_twice_writes_once() {
    let content = "<activity android:name=\"a.B\" android:screenOrientation=\"landscape\"  android:exported=\"true\">";
    let once = screen_orientation_edit(content, "a.B", "portrait").unwrap();
    assert_eq!(once, "<activity android:name=\"a.B\" android:exported=\"true\" android:screenOrientation=\"portrait\">");
    assert_eq!(screen_orientation_edit(&once, "a.B", "portrait"), None);
}

#[test]
fn activity_flags_without_application_tag_write_the_same_text_again() {
    let manifest = "<activity android:name=\"a.B\">";
    let once = activity_flags_edit(manifest, "a.B").unwrap();
    assert!(once.contains("android:showWhenLocked=\"true\""));
    assert_eq!(activity_flags_edit(&once, "a.B"), Some(once.clone()));
}
