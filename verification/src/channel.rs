//! One channel from end to end: the names of its files, the check of the
//! fetched manifest, the order of the steps, and the references that its
//! artifacts add.

use vstd::prelude::*;
use vstd::string::{StringExecFns, StringSliceAdditionalSpecFns};
use crate::error::SyncError;
use crate::hash::{content_hash, content_hash_of};
use crate::mirror::ArtifactRef;
use crate::path::normalized;
use crate::refs::ReferenceSet;
use crate::text::{chars_of, matches_at};

verus! {

/// The steps of a channel's synchronisation, in their order.
#[derive(Clone, Copy, Debug, PartialEq, Eq, Structural)]
pub enum Stage {
    FetchManifest,
    VerifyManifestChecksum,
    ParseManifest,
    SyncArtifacts,
    SerializeManifest,
    PersistCanonical,
    PersistDatedSnapshot,
    PersistSidecars,
    Done,
}

/// The place of a stage in the order of the steps.
pub open spec fn rank(stage: Stage) -> nat {
    match stage {
        Stage::FetchManifest => 0,
        Stage::VerifyManifestChecksum => 1,
        Stage::ParseManifest => 2,
        Stage::SyncArtifacts => 3,
        Stage::SerializeManifest => 4,
        Stage::PersistCanonical => 5,
        Stage::PersistDatedSnapshot => 6,
        Stage::PersistSidecars => 7,
        Stage::Done => 8,
    }
}

/// The stage that follows `stage`. Nothing follows `Done`.
pub open spec fn successor(stage: Stage) -> Stage {
    match stage {
        Stage::FetchManifest => Stage::VerifyManifestChecksum,
        Stage::VerifyManifestChecksum => Stage::ParseManifest,
        Stage::ParseManifest => Stage::SyncArtifacts,
        Stage::SyncArtifacts => Stage::SerializeManifest,
        Stage::SerializeManifest => Stage::PersistCanonical,
        Stage::PersistCanonical => Stage::PersistDatedSnapshot,
        Stage::PersistDatedSnapshot => Stage::PersistSidecars,
        Stage::PersistSidecars => Stage::Done,
        Stage::Done => Stage::Done,
    }
}

/// What follows a stage that ended with `outcome`: the next stage, or, the
/// run being over, the error that ended it.
pub open spec fn after_stage(stage: Stage, outcome: Result<(), SyncError>) -> Result<
    Stage,
    SyncError,
> {
    match outcome {
        Ok(_) => Ok(successor(stage)),
        Err(e) => Err(e),
    }
}

/// The first stage.
pub fn first_stage() -> (s: Stage)
    ensures
        s == Stage::FetchManifest,
{
    Stage::FetchManifest
}

/// What follows a stage that ended with `outcome`. Every failure is fatal:
/// no stage is tried again and none is passed over.
pub fn advance(stage: Stage, outcome: Result<(), SyncError>) -> (r: Result<Stage, SyncError>)
    ensures
        r == after_stage(stage, outcome),
{
    match outcome {
        Ok(_) => Ok(
            match stage {
                Stage::FetchManifest => Stage::VerifyManifestChecksum,
                Stage::VerifyManifestChecksum => Stage::ParseManifest,
                Stage::ParseManifest => Stage::SyncArtifacts,
                Stage::SyncArtifacts => Stage::SerializeManifest,
                Stage::SerializeManifest => Stage::PersistCanonical,
                Stage::PersistCanonical => Stage::PersistDatedSnapshot,
                Stage::PersistDatedSnapshot => Stage::PersistSidecars,
                Stage::PersistSidecars => Stage::Done,
                Stage::Done => Stage::Done,
            },
        ),
        Err(e) => Err(e),
    }
}

/// The steps follow one another without a branch: each stage but the last
/// leads to the one that is next in rank.
pub proof fn lemma_stages_are_sequential(stage: Stage)
    ensures
        stage != Stage::Done ==> rank(successor(stage)) == rank(stage) + 1,
        rank(stage) <= 8,
        rank(stage) == 8 <==> stage == Stage::Done,
{
}

/// The path of a channel's manifest below upstream and below the mirror.
pub open spec fn manifest_name_of(channel: Seq<char>) -> Seq<char> {
    "dist/channel-rust-"@ + channel + ".toml"@
}

/// The path of the checksum file of a channel's manifest.
pub open spec fn checksum_name_of(channel: Seq<char>) -> Seq<char> {
    manifest_name_of(channel) + ".sha256"@
}

/// The path of the dated copy of a channel's manifest.
pub open spec fn dated_manifest_name_of(date: Seq<char>, channel: Seq<char>) -> Seq<char> {
    "dist/"@ + date + "/channel-rust-"@ + channel + ".toml"@
}

/// The path of the dated copy of the checksum file.
pub open spec fn dated_checksum_name_of(date: Seq<char>, channel: Seq<char>) -> Seq<char> {
    dated_manifest_name_of(date, channel) + ".sha256"@
}

/// What the checksum file of a rewritten manifest holds: the checksum, two
/// spaces, and the manifest's file name.
pub open spec fn checksum_line_of(hash: Seq<char>, channel: Seq<char>) -> Seq<char> {
    hash + "  channel-rust-"@ + channel + ".toml"@
}

/// A checksum file agrees with a checksum when its first 64 characters are
/// that checksum.
pub open spec fn agrees(hash: Seq<char>, signature: Seq<char>) -> bool {
    signature.len() >= 64 && signature.take(64) == hash
}

/// The path of a channel's manifest below upstream and below the mirror.
pub fn manifest_name(channel: &str) -> (r: String)
    ensures
        r@ == manifest_name_of(channel@),
{
    "dist/channel-rust-".to_owned().concat(channel).concat(".toml")
}

/// The path of the checksum file of a channel's manifest.
pub fn checksum_name(channel: &str) -> (r: String)
    ensures
        r@ == checksum_name_of(channel@),
{
    manifest_name(channel).concat(".sha256")
}

/// The path of the dated copy of a channel's manifest. The date is the one
/// that the manifest states.
pub fn dated_manifest_name(date: &str, channel: &str) -> (r: String)
    ensures
        r@ == dated_manifest_name_of(date@, channel@),
{
    "dist/".to_owned().concat(date).concat("/channel-rust-").concat(channel).concat(".toml")
}

/// The path of the dated copy of the checksum file.
pub fn dated_checksum_name(date: &str, channel: &str) -> (r: String)
    ensures
        r@ == dated_checksum_name_of(date@, channel@),
{
    dated_manifest_name(date, channel).concat(".sha256")
}

/// What the checksum file of a rewritten manifest holds.
pub fn checksum_line(hash: &str, channel: &str) -> (r: String)
    ensures
        r@ == checksum_line_of(hash@, channel@),
{
    hash.to_owned().concat("  channel-rust-").concat(channel).concat(".toml")
}

/// What the checksum file of the rewritten manifest `output` holds: the
/// checksum of the text as it is written to disk.
pub fn rewritten_checksum_line(output: &str, channel: &str) -> (r: String)
    requires
        output.spec_bytes().len() < 0x2000_0000_0000_0000,
    ensures
        r@ == checksum_line_of(content_hash_of(output.spec_bytes()), channel@),
{
    let hash = content_hash(output.as_bytes());
    checksum_line(hash.as_str(), channel)
}

/// Whether the checksum file `signature` agrees with the checksum `hash`.
pub fn checksum_agrees(hash: &str, signature: &str) -> (r: bool)
    ensures
        r == agrees(hash@, signature@),
{
    let h = chars_of(hash);
    let s = chars_of(signature);
    if h.len() != 64 || s.len() < 64 {
        return false;
    }
    let r = matches_at(s.as_slice(), h.as_slice(), 0);
    assert(s@.subrange(0, 64) =~= s@.take(64));
    r
}

/// Checks a fetched manifest against the checksum file that came with it.
/// Fails with `Integrity` where the two do not agree.
pub fn verify_manifest_checksum(manifest: &[u8], signature: &str) -> (r: Result<(), SyncError>)
    requires
        manifest@.len() < 0x2000_0000_0000_0000,
    ensures
        agrees(content_hash_of(manifest@), signature@) ==> r is Ok,
        !agrees(content_hash_of(manifest@), signature@) ==> r == Err::<(), SyncError>(
            SyncError::Integrity,
        ),
{
    let hash = content_hash(manifest);
    if checksum_agrees(hash.as_str(), signature) {
        Ok(())
    } else {
        Err(SyncError::Integrity)
    }
}

/// `refs` with the normalized forms of `files` added.
pub open spec fn with_files(refs: Set<Seq<char>>, files: Seq<Seq<char>>) -> Set<Seq<char>>
    decreases files.len(),
{
    if files.len() == 0 {
        refs
    } else {
        with_files(refs, files.drop_last()).insert(normalized(files.last()))
    }
}

/// The local files of a sequence of artifacts.
pub open spec fn files_of(artifacts: Seq<ArtifactRef>) -> Seq<Seq<char>> {
    artifacts.map_values(|a: ArtifactRef| a.file@)
}

/// Records the local files of `artifacts` as referenced. An artifact is
/// referenced from the moment the manifest names it, whatever becomes of
/// its synchronisation.
pub fn reference_artifacts(refs: &mut ReferenceSet, artifacts: &Vec<ArtifactRef>)
    ensures
        final(refs)@ == with_files(old(refs)@, files_of(artifacts@)),
{
    let mut i: usize = 0;
    assert(files_of(artifacts@).take(0) =~= Seq::<Seq<char>>::empty());
    while i < artifacts.len()
        invariant
            i <= artifacts.len(),
            refs@ == with_files(old(refs)@, files_of(artifacts@).take(i as int)),
        decreases artifacts.len() - i,
    {
        proof {
            let next = files_of(artifacts@).take(i + 1);
            assert(next.drop_last() =~= files_of(artifacts@).take(i as int));
            assert(next.last() == artifacts@[i as int].file@);
        }
        refs.insert(artifacts[i].file.as_str());
        i += 1;
    }
    assert(files_of(artifacts@).take(artifacts.len() as int) =~= files_of(artifacts@));
}

/// Recording references loses none and adds exactly the files: a path is
/// referenced afterwards if and only if it was before or is the normalized
/// form of one of the files.
pub proof fn lemma_with_files(refs: Set<Seq<char>>, files: Seq<Seq<char>>, p: Seq<char>)
    ensures
        with_files(refs, files).contains(p) <==> refs.contains(p) || exists|i: int|
            0 <= i < files.len() && normalized(#[trigger] files[i]) == p,
    decreases files.len(),
{
    if files.len() > 0 {
        let front = files.drop_last();
        lemma_with_files(refs, front, p);
        if exists|i: int| 0 <= i < front.len() && normalized(#[trigger] front[i]) == p {
            let i = choose|i: int| 0 <= i < front.len() && normalized(#[trigger] front[i]) == p;
            assert(files[i] == front[i]);
        }
        if exists|i: int| 0 <= i < files.len() && normalized(#[trigger] files[i]) == p {
            let i = choose|i: int| 0 <= i < files.len() && normalized(#[trigger] files[i]) == p;
            if i < files.len() - 1 {
                assert(front[i] == files[i]);
            }
        }
        assert(files[files.len() - 1] == files.last());
    }
}

} // verus!
