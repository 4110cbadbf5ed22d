use std::io::Write;

use mobile_sentinel::features::sound::library::{
    check_import, entries_from_names, file_uri, first_found, import_file_name, plan_import, SoundBackend,
    SoundError, SoundLibrary,
};
use mobile_sentinel::features::sound::SoundId;
use tempfile::TempDir;

#[test]
fn is_silent_only_for_silent_variant() {
    assert!(SoundId::Silent.is_silent());
    assert!(!SoundId::SystemDefault.is_silent());
    assert!(!SoundId::Bundled("a".into()).is_silent());
    assert!(!SoundId::Custom("u".into()).is_silent());
}

struct MockBackend;
impl SoundBackend for MockBackend {
    fn system_default_uri(&self) -> String {
        "system://default-alarm".to_owned()
    }
}

struct Dirs {
    _bundled: TempDir,
    _custom: TempDir,
}

fn lib(dir: &std::path::Path) -> (SoundLibrary<MockBackend>, Dirs) {
    let bundled = tempfile::Builder::new().prefix("bundled").tempdir_in(dir).unwrap();
    let custom = tempfile::Builder::new().prefix("custom").tempdir_in(dir).unwrap();
    let l = SoundLibrary::new(
        bundled.path().to_string_lossy().to_string(),
        custom.path().to_string_lossy().to_string(),
        MockBackend,
    );
    (l, Dirs { _bundled: bundled, _custom: custom })
}

fn make_file(dir: &str, stem: &str, ext: &str) -> tempfile::NamedTempFile {
    let mut f = tempfile::Builder::new()
        .prefix(stem)
        .suffix(ext)
        .rand_bytes(0)
        .tempfile_in(dir)
        .unwrap();
    f.write_all(b"not real audio").unwrap();
    f
}

#[test]
fn silent_resolves_to_silent_uri() {
    let dir = TempDir::new().unwrap();
    let (l, _dirs) = lib(dir.path());
    assert_eq!(l.resolve(&SoundId::Silent), "silent://");
}

#[test]
fn system_default_resolves_via_backend() {
    let dir = TempDir::new().unwrap();
    let (l, _dirs) = lib(dir.path());
    assert_eq!(l.resolve(&SoundId::SystemDefault), "system://default-alarm");
}

#[test]
fn bundled_resolves_to_file_uri_when_present() {
    let dir = TempDir::new().unwrap();
    let (l, _dirs) = lib(dir.path());
    let _f = make_file(l.bundled_dir(), "happy", ".mp3");
    let uri = l.resolve(&SoundId::Bundled("happy".into()));
    assert!(uri.starts_with("file://"));
    assert!(uri.contains("happy.mp3"));
}

#[test]
fn missing_bundled_falls_back_to_system_default() {
    let dir = TempDir::new().unwrap();
    let (l, _dirs) = lib(dir.path());
    let uri = l.resolve(&SoundId::Bundled("ghost".into()));
    assert_eq!(uri, "system://default-alarm");
}

#[test]
fn missing_custom_falls_back_to_system_default() {
    let dir = TempDir::new().unwrap();
    let (l, _dirs) = lib(dir.path());
    let uri = l.resolve(&SoundId::Custom("uuid-1".into()));
    assert_eq!(uri, "system://default-alarm");
}

#[test]
fn enumerate_bundled_lists_supported_files_only() {
    let names: Vec<String> = vec![
        "samba.mp3".into(),
        "readme.txt".into(),
        "happy.mp3".into(),
        "lofi.MP3".into(),
    ];
    let entries = entries_from_names("/b", &names, false);
    let labels: Vec<_> = entries.iter().map(|e| e.label.clone()).collect();
    assert_eq!(labels, vec!["happy", "lofi", "samba"]);
    for entry in &entries {
        assert!(matches!(entry.id, SoundId::Bundled(_)));
    }
    assert_eq!(entries[1].path, "/b/lofi.MP3");
}

// --- further cases ---

#[test]
fn custom_token_with_extension_resolves_directly() {
    let dir = TempDir::new().unwrap();
    let (l, _dirs) = lib(dir.path());
    let _f = make_file(l.custom_dir(), "tok", ".wav");
    let uri = l.resolve(&SoundId::Custom("tok.wav".into()));
    assert!(uri.ends_with("/tok.wav"));
    let uri2 = l.resolve(&SoundId::Custom("tok".into()));
    assert_eq!(uri, uri2);
}

#[test]
fn file_uri_forms() {
    assert_eq!(file_uri("/a/b.mp3"), "file:///a/b.mp3");
    assert_eq!(file_uri("C:\\s\\b.mp3"), "file:///C:/s/b.mp3");
}

#[test]
fn import_checks_emptiness_and_extension() {
    assert!(matches!(check_import(0, "a.mp3"), Err(SoundError::EmptyImport)));
    match check_import(3, "a.TXT") {
        Err(SoundError::UnsupportedExtension(e)) => assert_eq!(e, "txt"),
        other => panic!("unexpected {other:?}"),
    }
    assert_eq!(check_import(3, "a.M4A").unwrap(), "m4a");
    assert!(matches!(check_import(3, ".mp3"), Err(SoundError::UnsupportedExtension(_))));
    assert_eq!(import_file_name("tok", "ogg"), "tok.ogg");
}

#[test]
fn equal_labels_keep_listing_order() {
    let names: Vec<String> = vec!["a.wav".into(), "b.mp3".into(), "a.mp3".into()];
    let entries = entries_from_names("d", &names, true);
    let paths: Vec<_> = entries.iter().map(|e| e.path.clone()).collect();
    assert_eq!(paths, vec!["d/a.wav", "d/a.mp3", "d/b.mp3"]);
    assert!(matches!(entries[0].id, SoundId::Custom(_)));
}

#[test]
fn planned_import_gets_a_fresh_v4_token_and_the_lowercase_extension() {
    let (token, name) = plan_import(10, "Ring.MP3").unwrap();
    assert_eq!(token.len(), 36);
    for (i, c) in token.chars().enumerate() {
        if i == 8 || i == 13 || i == 18 || i == 23 {
            assert_eq!(c, '-');
        } else {
            assert!(c.is_ascii_hexdigit() && !c.is_ascii_uppercase());
        }
    }
    assert_eq!(token.as_bytes()[14], b'4');
    assert!(matches!(token.as_bytes()[19], b'8' | b'9' | b'a' | b'b'));
    assert_eq!(name, format!("{}.mp3", token));
    let (other, _) = plan_import(10, "Ring.mp3").unwrap();
    assert_ne!(token, other);
    assert!(matches!(plan_import(0, "a.mp3"), Err(SoundError::EmptyImport)));
    match plan_import(4, "notes.txt") {
        Err(SoundError::UnsupportedExtension(e)) => assert_eq!(e, "txt"),
        _ => panic!("a text file is not a sound"),
    }
}

#[test]
fn the_first_probe_that_found_its_file_wins() {
    assert_eq!(first_found(&[false, true, true, false, false]), Some(1));
    assert_eq!(first_found(&[true, false, false, false, false]), Some(0));
    assert_eq!(first_found(&[false; 5]), None);
    assert_eq!(first_found(&[]), None);
}
