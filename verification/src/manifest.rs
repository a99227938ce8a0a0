//! Release manifests: reading, the schema check, and writing.

use vstd::prelude::*;
use crate::bindings::{parse_document, render_document, toml_document, toml_text};
use crate::error::SyncError;
use crate::tree::{child, lift, lower, tree_of, value_of, Node, NodeView, LEVELS};

verus! {

/// The text under `key` at the top of `root`, if there is one.
pub open spec fn top_text(root: NodeView, key: Seq<char>) -> Option<Seq<char>> {
    match child(root, key) {
        Some(NodeView::Text(s)) => Some(s),
        _ => None,
    }
}

/// The document says, under `key`, that its schema is `version`.
pub open spec fn tagged(root: NodeView, key: Seq<char>, version: Seq<char>) -> bool {
    top_text(root, key) == Some(version)
}

/// What [`read_document`] returns for `text` where the schema is to be
/// `version` under `key`: the document, or the reason for refusing it.
pub open spec fn reading(text: Seq<char>, key: Seq<char>, version: Seq<char>) -> Result<
    NodeView,
    SyncError,
> {
    match toml_document(text) {
        None => Err(SyncError::Parse),
        Some(v) => check(tree_of(v, LEVELS as nat), key, version),
    }
}

/// A document passes the schema check when it says, under `key`, that its
/// schema is `version`.
pub open spec fn check(root: NodeView, key: Seq<char>, version: Seq<char>) -> Result<
    NodeView,
    SyncError,
> {
    if tagged(root, key, version) {
        Ok(root)
    } else {
        Err(SyncError::Schema)
    }
}

/// The text that a document is written as, or the reason why it cannot be
/// written.
pub open spec fn writing(root: NodeView) -> Result<Seq<char>, SyncError> {
    match toml_text(value_of(root)) {
        Some(t) => Ok(t),
        None => Err(SyncError::Schema),
    }
}

/// The text under `key` at the top of `root`.
pub fn text_at<'a>(root: &'a Node, key: &str) -> (r: Option<&'a String>)
    ensures
        r matches Some(s) ==> top_text(root@, key@) == Some(s@),
        r is None ==> top_text(root@, key@) is None,
{
    match root.get(key) {
        Some(n) => n.as_text(),
        None => None,
    }
}

/// Checks that `root` says, under `key`, that its schema is `version`.
pub fn check_schema(root: Node, key: &str, version: &str) -> (r: Result<Node, SyncError>)
    ensures
        r matches Ok(n) ==> check(root@, key@, version@) == Ok::<NodeView, SyncError>(n@) && n == root,
        r matches Err(e) ==> check(root@, key@, version@) == Err::<NodeView, SyncError>(e),
{
    let ok = match text_at(&root, key) {
        Some(s) => {
            let v = version.to_owned();
            *s == v
        },
        None => false,
    };
    if ok {
        Ok(root)
    } else {
        Err(SyncError::Schema)
    }
}

/// Reads a document from `text` and checks its schema.
pub fn read_document(text: &str, key: &str, version: &str) -> (r: Result<Node, SyncError>)
    ensures
        r matches Ok(n) ==> reading(text@, key@, version@) == Ok::<NodeView, SyncError>(n@),
        r matches Err(e) ==> reading(text@, key@, version@) == Err::<NodeView, SyncError>(e),
{
    match parse_document(text) {
        Ok(v) => check_schema(lift(v, LEVELS), key, version),
        Err(_) => Err(SyncError::Parse),
    }
}

/// Writes a document as text.
pub fn write_document(root: &Node) -> (r: Result<String, SyncError>)
    ensures
        r matches Ok(s) ==> writing(root@) == Ok::<Seq<char>, SyncError>(s@),
        r matches Err(e) ==> writing(root@) == Err::<Seq<char>, SyncError>(e),
{
    let v = lower(root);
    match render_document(&v) {
        Ok(s) => Ok(s),
        Err(_) => Err(SyncError::Schema),
    }
}

/// Reading and writing are functions of the text: whatever is read from the
/// same text is written as the same text, or fails to be written for the
/// same reason, every time.
pub proof fn lemma_round_trip_is_deterministic(
    text: Seq<char>,
    key: Seq<char>,
    version: Seq<char>,
    first: NodeView,
    second: NodeView,
)
    requires
        reading(text, key, version) == Ok::<NodeView, SyncError>(first),
        reading(text, key, version) == Ok::<NodeView, SyncError>(second),
    ensures
        writing(first) == writing(second),
{
}

/// A channel's release manifest of the supported version.
pub struct Manifest {
    root: Node,
}

impl View for Manifest {
    type V = NodeView;

    closed spec fn view(&self) -> NodeView {
        self.root@
    }
}

impl Manifest {
    /// The manifest is of the supported version.
    #[verifier::type_invariant]
    pub closed spec fn wf(&self) -> bool {
        tagged(self.root@, "manifest-version"@, "2"@)
    }

    /// A manifest says that it is of version 2.
    pub proof fn lemma_version(&self)
        requires
            self.wf(),
        ensures
            tagged(self@, "manifest-version"@, "2"@),
    {
    }

    /// What [`Manifest::load`] returns for `text`.
    pub open spec fn loading(text: Seq<char>) -> Result<NodeView, SyncError> {
        reading(text, "manifest-version"@, "2"@)
    }

    /// The release date that `root` states.
    pub open spec fn date_of(root: NodeView) -> Result<Seq<char>, SyncError> {
        match top_text(root, "date"@) {
            Some(d) => Ok(d),
            None => Err(SyncError::Schema),
        }
    }

    /// Reads a manifest. Fails with `Parse` on malformed text, and with
    /// `Schema` where the text does not say that it is of version 2.
    pub fn load(text: &str) -> (r: Result<Manifest, SyncError>)
        ensures
            r matches Ok(m) ==> Self::loading(text@) == Ok::<NodeView, SyncError>(m@) && m.wf(),
            r matches Err(e) ==> Self::loading(text@) == Err::<NodeView, SyncError>(e),
    {
        match read_document(text, "manifest-version", "2") {
            Ok(root) => Ok(Manifest { root }),
            Err(e) => Err(e),
        }
    }

    /// Takes a document as a manifest, if it is of the supported version.
    pub fn from_root(root: Node) -> (r: Result<Manifest, SyncError>)
        ensures
            r matches Ok(m) ==> m@ == root@ && m.wf(),
            r matches Err(e) ==> e == SyncError::Schema && !tagged(root@, "manifest-version"@, "2"@),
    {
        match check_schema(root, "manifest-version", "2") {
            Ok(root) => Ok(Manifest { root }),
            Err(e) => Err(e),
        }
    }

    /// Takes as a manifest a document that is known to be of the supported
    /// version.
    pub(crate) fn assemble(root: Node) -> (m: Manifest)
        requires
            tagged(root@, "manifest-version"@, "2"@),
        ensures
            m@ == root@,
            m.wf(),
    {
        Manifest { root }
    }

    /// The document.
    pub fn root(&self) -> (r: &Node)
        ensures
            r@ == self@,
    {
        &self.root
    }

    /// Gives the document back.
    pub fn into_root(self) -> (r: Node)
        ensures
            r@ == self@,
    {
        self.root
    }

    /// The release date, as the manifest states it.
    pub fn date(&self) -> (r: Result<String, SyncError>)
        ensures
            r matches Ok(d) ==> Self::date_of(self@) == Ok::<Seq<char>, SyncError>(d@),
            r matches Err(e) ==> Self::date_of(self@) == Err::<Seq<char>, SyncError>(e),
    {
        match text_at(&self.root, "date") {
            Some(d) => Ok(d.clone()),
            None => Err(SyncError::Schema),
        }
    }

    /// The manifest as text. The text is a function of the document: the
    /// same document is always written the same way.
    pub fn serialize(&self) -> (r: Result<String, SyncError>)
        ensures
            r matches Ok(s) ==> writing(self@) == Ok::<Seq<char>, SyncError>(s@),
            r matches Err(e) ==> writing(self@) == Err::<Seq<char>, SyncError>(e),
    {
        write_document(&self.root)
    }
}

} // verus!
