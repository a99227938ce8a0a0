use rustup_mirror::error::SyncError;
use rustup_mirror::names::NameSet;
use rustup_mirror::selfupdate::{
    installer_path, installer_paths, note_targets, on_fetch_failure, os_family,
    tool_manifest_name, OsFamily, Purpose, ToolManifest,
};
use rustup_mirror::transfer::{expected_length, plan_download, Progress};

#[test]
fn tool_manifest_is_read() {
    let m = ToolManifest::load("schema-version = \"1\"\nversion = \"1.26.0\"\n").unwrap();
    assert_eq!(m.version().unwrap(), "1.26.0");
}

#[test]
fn tool_manifest_of_other_schema_is_rejected() {
    assert!(matches!(
        ToolManifest::load("schema-version = \"2\"\nversion = \"1.26.0\"\n"),
        Err(SyncError::Schema)
    ));
    assert!(matches!(ToolManifest::load("version = \"1.26.0\"\n"), Err(SyncError::Schema)));
    assert!(matches!(ToolManifest::load("schema-version = "), Err(SyncError::Parse)));
}

#[test]
fn tool_manifest_without_version_is_rejected_late() {
    let m = ToolManifest::load("schema-version = \"1\"\n").unwrap();
    assert!(matches!(m.version(), Err(SyncError::Schema)));
}

#[test]
fn tool_manifest_path() {
    assert_eq!(tool_manifest_name(), "rustup/release-stable.toml");
}

#[test]
fn windows_targets_get_an_exe() {
    assert_eq!(os_family("x86_64-pc-windows-msvc"), OsFamily::Windows);
    assert_eq!(os_family("x86_64-unknown-linux-gnu"), OsFamily::Other);
    assert_eq!(
        installer_path("1.26.0", "x86_64-pc-windows-msvc"),
        "rustup/archive/1.26.0/x86_64-pc-windows-msvc/rustup-init.exe"
    );
    assert_eq!(
        installer_path("1.26.0", "x86_64-unknown-linux-gnu"),
        "rustup/archive/1.26.0/x86_64-unknown-linux-gnu/rustup-init"
    );
}

#[test]
fn installers_for_all_targets_seen() {
    let mut seen = NameSet::new();
    note_targets(&mut seen, &vec!["a-linux".to_string(), "b-windows".to_string()]);
    note_targets(&mut seen, &vec!["a-linux".to_string(), "c-darwin".to_string()]);
    assert_eq!(seen.len(), 3);
    let paths = installer_paths("9", &seen);
    assert_eq!(
        paths,
        [
            "rustup/archive/9/a-linux/rustup-init",
            "rustup/archive/9/b-windows/rustup-init.exe",
            "rustup/archive/9/c-darwin/rustup-init",
        ]
    );
}

#[test]
fn only_a_missing_installer_is_passed_over() {
    assert_eq!(on_fetch_failure(Purpose::Installer), Ok(()));
    assert_eq!(on_fetch_failure(Purpose::ChannelManifest), Err(SyncError::Transfer));
    assert_eq!(on_fetch_failure(Purpose::Artifact), Err(SyncError::Transfer));
    assert_eq!(on_fetch_failure(Purpose::ToolManifest), Err(SyncError::Transfer));
}

#[test]
fn download_source_and_destination() {
    let d = plan_download("https://static.rust-lang.org/", "./orig", "dist/channel-rust-stable.toml");
    assert_eq!(d.url, "https://static.rust-lang.org/dist/channel-rust-stable.toml");
    assert_eq!(d.file, "./orig/dist/channel-rust-stable.toml");
}

#[test]
fn response_without_length_is_a_failed_transfer() {
    assert_eq!(expected_length(200, Some(12)), Ok(12));
    assert_eq!(expected_length(200, Some(0)), Ok(0));
    assert_eq!(expected_length(200, None), Err(SyncError::Transfer));
}

#[test]
fn response_with_other_status_is_a_failed_transfer() {
    assert_eq!(expected_length(404, Some(12)), Err(SyncError::Transfer));
    assert_eq!(expected_length(206, Some(12)), Err(SyncError::Transfer));
    assert_eq!(expected_length(500, None), Err(SyncError::Transfer));
}

#[test]
fn transfer_is_complete_when_all_bytes_came() {
    let mut p = Progress::start(10);
    assert!(!p.is_complete());
    p.record(4);
    assert_eq!(p.received, 4);
    assert!(!p.is_complete());
    p.record(6);
    assert!(p.is_complete());
    assert!(Progress::start(0).is_complete());
}

#[test]
fn transfer_count_does_not_wrap() {
    let mut p = Progress { received: u64::MAX - 1, expected: u64::MAX };
    p.record(5);
    assert_eq!(p.received, u64::MAX);
    assert!(p.is_complete());
}
