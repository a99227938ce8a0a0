use rustup_mirror::error::{on_file_failure, FileAccess, SyncError};
use rustup_mirror::planner::{Action, ArtifactSync, Event, State};

fn is_write_of(action: &Action, content: &str) -> bool {
    match action {
        Action::WriteSidecar(s) => s == content,
        _ => false,
    }
}

#[test]
fn absent_file_and_sidecar_are_fetched_and_recorded() {
    let mut sync = ArtifactSync::begin("H1");
    assert!(matches!(sync.action(), Action::ReadSidecar));
    assert!(matches!(sync.step(&Event::Sidecar(None)), Action::HashFile));
    assert!(matches!(sync.step(&Event::FileHash(None)), Action::Fetch));
    let write = sync.step(&Event::Fetched(Some("H1".to_string())));
    assert!(is_write_of(&write, "H1"));
    assert!(matches!(sync.step(&Event::SidecarWritten), Action::Done));
    assert_eq!(sync.current(), State::Finished);
}

#[test]
fn matching_sidecar_means_nothing_to_do() {
    let mut sync = ArtifactSync::begin("H1");
    assert!(matches!(sync.step(&Event::Sidecar(Some("H1".to_string()))), Action::Done));
    assert_eq!(sync.current(), State::Finished);
}

#[test]
fn stale_sidecar_means_fetch() {
    let mut sync = ArtifactSync::begin("H1");
    assert!(matches!(sync.step(&Event::Sidecar(Some("H0".to_string()))), Action::Fetch));
    assert_eq!(sync.current(), State::Fetching);
}

#[test]
fn lost_sidecar_is_restored_without_fetch() {
    let mut sync = ArtifactSync::begin("H1");
    sync.step(&Event::Sidecar(None));
    let write = sync.step(&Event::FileHash(Some("H1".to_string())));
    assert!(is_write_of(&write, "H1"));
    assert!(matches!(sync.step(&Event::SidecarWritten), Action::Done));
}

#[test]
fn lost_sidecar_and_wrong_file_mean_fetch() {
    let mut sync = ArtifactSync::begin("H1");
    sync.step(&Event::Sidecar(None));
    assert!(matches!(sync.step(&Event::FileHash(Some("H0".to_string()))), Action::Fetch));
}

#[test]
fn corrupted_fetch_is_an_integrity_error() {
    let mut sync = ArtifactSync::begin("H1");
    sync.step(&Event::Sidecar(None));
    sync.step(&Event::FileHash(None));
    let a = sync.step(&Event::Fetched(Some("H9".to_string())));
    assert!(matches!(a, Action::Abort(SyncError::Integrity)));
    assert_eq!(sync.current(), State::Failed(SyncError::Integrity));
}

#[test]
fn fetch_that_leaves_no_file_is_an_integrity_error() {
    let mut sync = ArtifactSync::begin("H1");
    sync.step(&Event::Sidecar(Some("old".to_string())));
    let a = sync.step(&Event::Fetched(None));
    assert!(matches!(a, Action::Abort(SyncError::Integrity)));
}

#[test]
fn failed_fetch_is_a_transfer_error() {
    let mut sync = ArtifactSync::begin("H1");
    sync.step(&Event::Sidecar(Some("old".to_string())));
    let a = sync.step(&Event::FetchFailed);
    assert!(matches!(a, Action::Abort(SyncError::Transfer)));
}

#[test]
fn stray_event_changes_nothing() {
    let mut sync = ArtifactSync::begin("H1");
    assert!(matches!(sync.step(&Event::SidecarWritten), Action::ReadSidecar));
    assert!(matches!(sync.step(&Event::Fetched(Some("H1".to_string()))), Action::ReadSidecar));
    assert_eq!(sync.current(), State::ReadingSidecar);
}

#[test]
fn finished_and_failed_stay_as_they_are() {
    let mut sync = ArtifactSync::begin("H1");
    sync.step(&Event::Sidecar(Some("H1".to_string())));
    assert!(matches!(sync.step(&Event::Sidecar(None)), Action::Done));
    let mut bad = ArtifactSync::begin("H1");
    bad.step(&Event::Sidecar(Some("x".to_string())));
    bad.step(&Event::FetchFailed);
    assert!(matches!(bad.step(&Event::Fetched(Some("H1".to_string()))), Action::Abort(SyncError::Transfer)));
}

#[test]
fn second_run_after_success_fetches_nothing() {
    let mut first = ArtifactSync::begin("H1");
    first.step(&Event::Sidecar(None));
    first.step(&Event::FileHash(None));
    first.step(&Event::Fetched(Some("H1".to_string())));
    first.step(&Event::SidecarWritten);
    let mut second = ArtifactSync::begin("H1");
    assert!(matches!(second.step(&Event::Sidecar(Some("H1".to_string()))), Action::Done));
}

#[test]
fn error_descriptions() {
    assert_eq!(SyncError::Transfer.describe(), "transfer failed");
    assert_eq!(SyncError::Parse.describe(), "malformed document");
    assert_eq!(SyncError::Schema.describe(), "unsupported document");
    assert_eq!(SyncError::Integrity.describe(), "checksum mismatch");
    assert_eq!(SyncError::Filesystem.describe(), "file access failed");
}

#[test]
fn only_sidecar_reads_and_deletes_may_fail() {
    assert_eq!(on_file_failure(FileAccess::SidecarRead), Ok(()));
    assert_eq!(on_file_failure(FileAccess::SidecarDelete), Ok(()));
    assert_eq!(on_file_failure(FileAccess::Other), Err(SyncError::Filesystem));
}
