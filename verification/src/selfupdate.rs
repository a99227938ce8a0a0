//! The update tool's own manifest and the installers that go with it.

use vstd::prelude::*;
use vstd::string::StringExecFns;
use crate::error::SyncError;
use crate::manifest::{read_document, reading, tagged, text_at, top_text};
use crate::names::{held, NameSet};
use crate::text::{chars_of, contains, occurs_in, texts};
use crate::tree::{Node, NodeView};

verus! {

/// What a fetch is for.
#[derive(Clone, Copy, Debug, PartialEq, Eq, Structural)]
pub enum Purpose {
    /// A channel's manifest or its checksum file.
    ChannelManifest,
    /// An artifact of a channel.
    Artifact,
    /// The update tool's manifest.
    ToolManifest,
    /// An installer of the update tool.
    Installer,
}

/// The family of operating systems that a target belongs to, as far as the
/// installer's file name depends on it.
#[derive(Clone, Copy, Debug, PartialEq, Eq, Structural)]
pub enum OsFamily {
    Windows,
    Other,
}

/// What a failed fetch means for the run: only a missing installer is
/// passed over; every other failure ends the run with `Transfer`.
pub open spec fn failure_of(purpose: Purpose) -> Result<(), SyncError> {
    match purpose {
        Purpose::Installer => Ok(()),
        _ => Err(SyncError::Transfer),
    }
}

/// The family of the target `target`: Windows where the name holds
/// `windows`.
pub open spec fn family_of(target: Seq<char>) -> OsFamily {
    if occurs_in(target, "windows"@) {
        OsFamily::Windows
    } else {
        OsFamily::Other
    }
}

/// The ending of an installer's file name.
pub open spec fn extension_of(family: OsFamily) -> Seq<char> {
    match family {
        OsFamily::Windows => ".exe"@,
        OsFamily::Other => ""@,
    }
}

/// The path of the installer of version `version` for `target`, below
/// upstream and below the mirror.
pub open spec fn installer_path_of(version: Seq<char>, target: Seq<char>) -> Seq<char> {
    "rustup/archive/"@ + version + "/"@ + target + "/rustup-init"@ + extension_of(
        family_of(target),
    )
}

/// The installer paths for `targets`, in their order.
pub open spec fn installer_paths_of(version: Seq<char>, targets: Seq<Seq<char>>) -> Seq<Seq<char>> {
    targets.map_values(|t: Seq<char>| installer_path_of(version, t))
}

/// What a failed fetch means for the run.
pub fn on_fetch_failure(purpose: Purpose) -> (r: Result<(), SyncError>)
    ensures
        r == failure_of(purpose),
{
    match purpose {
        Purpose::Installer => Ok(()),
        _ => Err(SyncError::Transfer),
    }
}

/// The family of operating systems that `target` belongs to.
pub fn os_family(target: &str) -> (f: OsFamily)
    ensures
        f == family_of(target@),
{
    let t = chars_of(target);
    let w = chars_of("windows");
    if contains(t.as_slice(), w.as_slice()) {
        OsFamily::Windows
    } else {
        OsFamily::Other
    }
}

/// The path of the update tool's manifest, below upstream and below the
/// mirror.
pub fn tool_manifest_name() -> (r: String)
    ensures
        r@ == "rustup/release-stable.toml"@,
{
    "rustup/release-stable.toml".to_owned()
}

/// The path of the installer of version `version` for `target`.
pub fn installer_path(version: &str, target: &str) -> (r: String)
    ensures
        r@ == installer_path_of(version@, target@),
{
    let ext = match os_family(target) {
        OsFamily::Windows => ".exe",
        OsFamily::Other => "",
    };
    "rustup/archive/".to_owned().concat(version).concat("/").concat(target).concat(
        "/rustup-init",
    ).concat(ext)
}

/// The installer paths for all of `targets`, in the order in which the
/// targets were first seen.
pub fn installer_paths(version: &str, targets: &NameSet) -> (r: Vec<String>)
    ensures
        texts(r@) == installer_paths_of(version@, texts(targets.listed())),
{
    let mut out: Vec<String> = Vec::new();
    let n = targets.len();
    let mut i: usize = 0;
    while i < n
        invariant
            i <= n,
            n == targets.listed().len(),
            out@.len() == i,
            forall|j: int|
                0 <= j < i ==> (#[trigger] out@[j])@ == installer_path_of(
                    version@,
                    targets.listed()[j]@,
                ),
        decreases n - i,
    {
        let p = installer_path(version, targets.get(i).as_str());
        out.push(p);
        i += 1;
    }
    assert(texts(out@) =~= installer_paths_of(version@, texts(targets.listed())));
    out
}

/// `seen` with `names` added.
pub open spec fn with_names(seen: Set<Seq<char>>, names: Seq<String>) -> Set<Seq<char>> {
    seen.union(held(names))
}

/// Adds the targets `names` to the targets seen so far.
pub fn note_targets(seen: &mut NameSet, names: &Vec<String>)
    ensures
        final(seen)@ == with_names(old(seen)@, names@),
{
    let mut i: usize = 0;
    assert(old(seen)@.union(held(names@.take(0))) =~= old(seen)@);
    while i < names.len()
        invariant
            i <= names.len(),
            seen@ == old(seen)@.union(held(names@.take(i as int))),
        decreases names.len() - i,
    {
        let ghost before = seen@;
        seen.insert(names[i].clone());
        proof {
            let a = names@.take(i as int);
            let b = names@.take(i + 1);
            assert forall|t: Seq<char>| held(b).contains(t) <==> held(a).insert(
                names@[i as int]@,
            ).contains(t) by {
                if held(b).contains(t) {
                    let j = choose|j: int| 0 <= j < b.len() && #[trigger] b[j]@ == t;
                    if j < i {
                        assert(a[j]@ == t);
                    }
                }
                if held(a).contains(t) {
                    let j = choose|j: int| 0 <= j < a.len() && #[trigger] a[j]@ == t;
                    assert(b[j]@ == t);
                }
                if t == names@[i as int]@ {
                    assert(b[i as int]@ == t);
                }
            }
            assert(held(b) =~= held(a).insert(names@[i as int]@));
            assert(seen@ =~= old(seen)@.union(held(b)));
        }
        i += 1;
    }
    assert(names@.take(names.len() as int) =~= names@);
}

/// The update tool's manifest, of the supported schema.
pub struct ToolManifest {
    root: Node,
}

impl View for ToolManifest {
    type V = NodeView;

    closed spec fn view(&self) -> NodeView {
        self.root@
    }
}

impl ToolManifest {
    /// The manifest is of the supported schema.
    #[verifier::type_invariant]
    pub closed spec fn wf(&self) -> bool {
        tagged(self.root@, "schema-version"@, "1"@)
    }

    /// A manifest says that its schema is 1.
    pub proof fn lemma_schema(&self)
        requires
            self.wf(),
        ensures
            tagged(self@, "schema-version"@, "1"@),
    {
    }

    /// What [`ToolManifest::load`] returns for `text`.
    pub open spec fn loading(text: Seq<char>) -> Result<NodeView, SyncError> {
        reading(text, "schema-version"@, "1"@)
    }

    /// The version of the update tool that `root` states.
    pub open spec fn version_of(root: NodeView) -> Result<Seq<char>, SyncError> {
        match top_text(root, "version"@) {
            Some(v) => Ok(v),
            None => Err(SyncError::Schema),
        }
    }

    /// Reads the manifest. Fails with `Parse` on malformed text, and with
    /// `Schema` where the text does not say that its schema is 1.
    pub fn load(text: &str) -> (r: Result<ToolManifest, SyncError>)
        ensures
            r matches Ok(m) ==> Self::loading(text@) == Ok::<NodeView, SyncError>(m@) && m.wf(),
            r matches Err(e) ==> Self::loading(text@) == Err::<NodeView, SyncError>(e),
    {
        match read_document(text, "schema-version", "1") {
            Ok(root) => Ok(ToolManifest { root }),
            Err(e) => Err(e),
        }
    }

    /// The version of the update tool, as the manifest states it.
    pub fn version(&self) -> (r: Result<String, SyncError>)
        ensures
            r matches Ok(v) ==> Self::version_of(self@) == Ok::<Seq<char>, SyncError>(v@),
            r matches Err(e) ==> Self::version_of(self@) == Err::<Seq<char>, SyncError>(e),
    {
        match text_at(&self.root, "version") {
            Some(v) => Ok(v.clone()),
            None => Err(SyncError::Schema),
        }
    }
}

} // verus!
