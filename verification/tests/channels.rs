use rustup_mirror::channel::{
    advance, checksum_agrees, checksum_line, checksum_name, dated_checksum_name,
    dated_manifest_name, first_stage, manifest_name, reference_artifacts, rewritten_checksum_line,
    verify_manifest_checksum, Stage,
};
use rustup_mirror::error::SyncError;
use rustup_mirror::hash::content_hash;
use rustup_mirror::mirror::{locate, Settings};
use rustup_mirror::refs::ReferenceSet;

#[test]
fn channel_file_names() {
    assert_eq!(manifest_name("stable"), "dist/channel-rust-stable.toml");
    assert_eq!(checksum_name("beta"), "dist/channel-rust-beta.toml.sha256");
    assert_eq!(
        dated_manifest_name("2023-10-05", "nightly"),
        "dist/2023-10-05/channel-rust-nightly.toml"
    );
    assert_eq!(
        dated_checksum_name("2023-10-05", "nightly"),
        "dist/2023-10-05/channel-rust-nightly.toml.sha256"
    );
}

#[test]
fn checksum_file_content() {
    assert_eq!(checksum_line("abc", "stable"), "abc  channel-rust-stable.toml");
}

#[test]
fn checksum_is_the_first_sixty_four_characters() {
    let h = content_hash(b"manifest");
    assert!(checksum_agrees(&h, &h));
    assert!(checksum_agrees(&h, &format!("{}  channel-rust-stable.toml\n", h)));
    assert!(!checksum_agrees(&h, &h[..63]));
    assert!(!checksum_agrees(&h, &format!(" {}", h)));
    assert!(!checksum_agrees(&h[..63], &h));
    assert!(!checksum_agrees("", ""));
}

#[test]
fn fetched_manifest_is_checked_against_its_checksum_file() {
    let data = b"manifest-version = \"2\"\n";
    let good = format!("{}  channel-rust-stable.toml\n", content_hash(data));
    assert_eq!(verify_manifest_checksum(data, &good), Ok(()));
    let bad = format!("{}  channel-rust-stable.toml\n", content_hash(b"other"));
    assert_eq!(verify_manifest_checksum(data, &bad), Err(SyncError::Integrity));
    assert_eq!(verify_manifest_checksum(data, "short"), Err(SyncError::Integrity));
}

#[test]
fn stages_follow_in_order() {
    let expected = [
        Stage::VerifyManifestChecksum,
        Stage::ParseManifest,
        Stage::SyncArtifacts,
        Stage::SerializeManifest,
        Stage::PersistCanonical,
        Stage::PersistDatedSnapshot,
        Stage::PersistSidecars,
        Stage::Done,
    ];
    let mut stage = first_stage();
    assert_eq!(stage, Stage::FetchManifest);
    for next in expected {
        stage = advance(stage, Ok(())).unwrap();
        assert_eq!(stage, next);
    }
    assert_eq!(advance(Stage::Done, Ok(())), Ok(Stage::Done));
}

#[test]
fn any_failure_ends_the_channel() {
    assert_eq!(advance(Stage::FetchManifest, Err(SyncError::Transfer)), Err(SyncError::Transfer));
    assert_eq!(
        advance(Stage::VerifyManifestChecksum, Err(SyncError::Integrity)),
        Err(SyncError::Integrity)
    );
    assert_eq!(advance(Stage::ParseManifest, Err(SyncError::Parse)), Err(SyncError::Parse));
    assert_eq!(advance(Stage::SyncArtifacts, Err(SyncError::Schema)), Err(SyncError::Schema));
}

#[test]
fn artifacts_are_referenced_by_their_normalized_files() {
    let cfg = Settings {
        allowed: vec![],
        mirror_url: "http://m".to_string(),
        mirror_path: "./mirror".to_string(),
    };
    let artifacts = vec![
        locate(&cfg, "/dist/2023-10-05/a.tar.gz", "A").unwrap(),
        locate(&cfg, "/dist/2023-10-05/b.tar.gz", "B").unwrap(),
        locate(&cfg, "/dist/2023-10-05/./a.tar.gz", "A").unwrap(),
    ];
    let mut refs = ReferenceSet::new();
    refs.insert("kept/before");
    reference_artifacts(&mut refs, &artifacts);
    assert_eq!(refs.len(), 3);
    assert!(refs.contains("kept/before"));
    assert!(refs.contains("mirror/dist/2023-10-05/a.tar.gz"));
    assert!(refs.contains("mirror/dist/2023-10-05/b.tar.gz"));
    assert!(!refs.contains("mirror/dist/2023-10-05/c.tar.gz"));
}

#[test]
fn checksum_file_of_rewritten_manifest() {
    assert_eq!(
        rewritten_checksum_line("abc", "beta"),
        "ba7816bf8f01cfea414140de5dae2223b00361a396177a9cb410ff61f20015ad  channel-rust-beta.toml"
    );
    let line = rewritten_checksum_line("manifest-version = \"2\"\n", "stable");
    assert!(verify_manifest_checksum(b"manifest-version = \"2\"\n", &line).is_ok());
}
