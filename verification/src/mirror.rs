//! Mirroring a channel's manifest: which targets stay available, which
//! artifacts they refer to, and where the rewritten manifest points.

use vstd::prelude::*;
use vstd::string::StringExecFns;
use crate::bindings::{parse_url_path, url_path};
use crate::error::SyncError;
use crate::manifest::{top_text, Manifest};
use crate::names::{held, position};
use crate::path::{join_of, join_path};
use crate::text::{chars_of, replace_all, replaced, string_of, texts};
use crate::tree::{
    find, index_of, lemma_index_of, lemma_with_value_keeps_index, lookup, rows,
    with_child, with_value, Entry, Node, NodeView,
};

verus! {

/// What a run is configured with.
pub struct Settings {
    /// The targets to mirror. Every other target is marked unavailable.
    pub allowed: Vec<String>,
    /// The URL under which the mirror is served.
    pub mirror_url: String,
    /// The local directory that holds the mirror.
    pub mirror_path: String,
}

/// The mathematical value of [`Settings`].
pub struct SettingsView {
    pub allowed: Set<Seq<char>>,
    pub mirror_url: Seq<char>,
    pub mirror_path: Seq<char>,
}

impl View for Settings {
    type V = SettingsView;

    open spec fn view(&self) -> SettingsView {
        SettingsView {
            allowed: held(self.allowed@),
            mirror_url: self.mirror_url@,
            mirror_path: self.mirror_path@,
        }
    }
}

/// One artifact that a manifest refers to.
pub struct ArtifactRef {
    /// The artifact's path below upstream and below the mirror, with `%20`
    /// decoded.
    pub relative: String,
    /// The local file.
    pub file: String,
    /// The local sidecar that holds the file's checksum.
    pub sidecar: String,
    /// The checksum that the manifest declares.
    pub hash: String,
    /// The URL that the rewritten manifest gives.
    pub mirrored_url: String,
}

/// The mathematical value of an [`ArtifactRef`].
pub struct ArtifactView {
    pub relative: Seq<char>,
    pub file: Seq<char>,
    pub sidecar: Seq<char>,
    pub hash: Seq<char>,
    pub mirrored_url: Seq<char>,
}

impl View for ArtifactRef {
    type V = ArtifactView;

    open spec fn view(&self) -> ArtifactView {
        ArtifactView {
            relative: self.relative@,
            file: self.file@,
            sidecar: self.sidecar@,
            hash: self.hash@,
            mirrored_url: self.mirrored_url@,
        }
    }
}

/// The views of a sequence of artifacts.
pub open spec fn artifact_views(v: Seq<ArtifactRef>) -> Seq<ArtifactView> {
    v.map_values(|a: ArtifactRef| a@)
}

/// A target is mirrored when it is on the list, or is the wildcard `*`.
pub open spec fn selected(cfg: SettingsView, target: Seq<char>) -> bool {
    cfg.allowed.contains(target) || target == "*"@
}

/// The artifact that the URL path `path` and the checksum `hash` stand for.
/// The local path is the URL path with `%20` decoded and without its first
/// character; the mirrored URL keeps the path as it is. An empty path
/// stands for no artifact.
pub open spec fn artifact_at(cfg: SettingsView, path: Seq<char>, hash: Seq<char>) -> Option<
    ArtifactView,
> {
    let decoded = replaced(path, "%20"@, " "@);
    if decoded.len() == 0 {
        None
    } else {
        let relative = decoded.skip(1);
        Some(
            ArtifactView {
                relative,
                file: join_of(cfg.mirror_path, relative),
                sidecar: join_of(cfg.mirror_path, relative + ".sha256"@),
                hash,
                mirrored_url: cfg.mirror_url + path,
            },
        )
    }
}

/// The artifact that `url` and `hash` stand for; `None` where `url` is no
/// URL or has an empty path.
pub open spec fn artifact_of(cfg: SettingsView, url: Seq<char>, hash: Seq<char>) -> Option<
    ArtifactView,
> {
    match url_path(url) {
        Some(path) => artifact_at(cfg, path, hash),
        None => None,
    }
}

/// Whether `target` is mirrored.
pub fn is_selected(cfg: &Settings, target: &String) -> (r: bool)
    ensures
        r == selected(cfg@, target@),
{
    if position(&cfg.allowed, target).is_some() {
        return true;
    }
    let star = "*".to_owned();
    *target == star
}

/// The artifact that the URL path `path` and the checksum `hash` stand for.
pub fn locate(cfg: &Settings, path: &str, hash: &str) -> (r: Option<ArtifactRef>)
    ensures
        r matches Some(a) ==> artifact_at(cfg@, path@, hash@) == Some(a@),
        r is None ==> artifact_at(cfg@, path@, hash@) is None,
{
    let p = chars_of(path);
    let from = chars_of("%20");
    let to = chars_of(" ");
    let decoded = replace_all(p.as_slice(), from.as_slice(), to.as_slice());
    if decoded.len() == 0 {
        return None;
    }
    let mut rel: Vec<char> = Vec::new();
    let mut i: usize = 1;
    while i < decoded.len()
        invariant
            1 <= i <= decoded.len(),
            rel@ == decoded@.subrange(1, i as int),
        decreases decoded.len() - i,
    {
        rel.push(decoded[i]);
        assert(decoded@.subrange(1, i + 1) =~= decoded@.subrange(1, i as int).push(decoded@[i as int]));
        i += 1;
    }
    assert(rel@ =~= decoded@.skip(1));
    let relative = string_of(rel.as_slice());
    let file = join_path(cfg.mirror_path.as_str(), relative.as_str());
    let side = relative.clone().concat(".sha256");
    let sidecar = join_path(cfg.mirror_path.as_str(), side.as_str());
    let mirrored_url = cfg.mirror_url.clone().concat(path);
    Some(ArtifactRef { relative, file, sidecar, hash: hash.to_owned(), mirrored_url })
}

/// The artifact that `url` and `hash` stand for.
pub fn artifact_for(cfg: &Settings, url: &str, hash: &str) -> (r: Option<ArtifactRef>)
    ensures
        r matches Some(a) ==> artifact_of(cfg@, url@, hash@) == Some(a@),
        r is None ==> artifact_of(cfg@, url@, hash@) is None,
{
    match parse_url_path(url) {
        Ok(path) => locate(cfg, path.as_str(), hash),
        Err(_) => None,
    }
}

/// The text under `key` in `table`, if there is one.
pub open spec fn text_in(table: Seq<(Seq<char>, NodeView)>, key: Seq<char>) -> Option<Seq<char>> {
    match lookup(table, key) {
        Some(NodeView::Text(s)) => Some(s),
        _ => None,
    }
}

/// The artifact that a target's table gives under `url_key` and `hash_key`;
/// `None` where one of the two is no text or the URL stands for no
/// artifact.
pub open spec fn variant(
    cfg: SettingsView,
    table: Seq<(Seq<char>, NodeView)>,
    url_key: Seq<char>,
    hash_key: Seq<char>,
) -> Option<ArtifactView> {
    match (text_in(table, url_key), text_in(table, hash_key)) {
        (Some(url), Some(hash)) => artifact_of(cfg, url, hash),
        _ => None,
    }
}

/// What mirroring makes of one target.
pub struct TargetOutcome {
    /// The target's entry in the rewritten manifest.
    pub entry: NodeView,
    /// The artifacts to synchronise for it.
    pub artifacts: Seq<ArtifactView>,
    /// Whether the target is mirrored and available.
    pub available: bool,
}

/// What mirroring makes of the target `name` with the entry `entry`.
///
/// A target that is not selected is marked unavailable and otherwise kept
/// as it is. A selected target that is unavailable stays as it is. For a
/// selected target that is available, both of its artifacts (plain and
/// compressed) are to be synchronised, and their URLs point at the mirror.
/// `None` where the entry does not have the shape that this needs.
pub open spec fn target_outcome(cfg: SettingsView, name: Seq<char>, entry: NodeView) -> Option<
    TargetOutcome,
> {
    match entry {
        NodeView::Table(t) => if !selected(cfg, name) {
            match index_of(t, "available"@) {
                Some(i) => Some(
                    TargetOutcome {
                        entry: NodeView::Table(with_value(t, i, NodeView::Flag(false))),
                        artifacts: Seq::empty(),
                        available: false,
                    },
                ),
                None => None,
            }
        } else {
            match lookup(t, "available"@) {
                Some(NodeView::Flag(false)) => Some(
                    TargetOutcome { entry, artifacts: Seq::empty(), available: false },
                ),
                Some(NodeView::Flag(true)) => match (
                    variant(cfg, t, "url"@, "hash"@),
                    variant(cfg, t, "xz_url"@, "xz_hash"@),
                ) {
                    (Some(plain), Some(packed)) => Some(
                        TargetOutcome {
                            entry: NodeView::Table(
                                with_child(
                                    with_child(t, "url"@, NodeView::Text(plain.mirrored_url)),
                                    "xz_url"@,
                                    NodeView::Text(packed.mirrored_url),
                                ),
                            ),
                            artifacts: seq![plain, packed],
                            available: true,
                        },
                    ),
                    _ => None,
                },
                _ => None,
            }
        },
        _ => None,
    }
}

/// A target that is not selected is only marked unavailable: nothing is
/// fetched for it, and its entry keeps every key, and every value but the
/// one under `available`, as it was.
pub proof fn lemma_unselected_target_is_only_disabled(
    cfg: SettingsView,
    name: Seq<char>,
    entry: NodeView,
)
    requires
        !selected(cfg, name),
        target_outcome(cfg, name, entry) is Some,
    ensures
        ({
            let o = target_outcome(cfg, name, entry)->0;
            let before = entry->Table_0;
            let after = o.entry->Table_0;
            &&& entry is Table
            &&& o.entry is Table
            &&& o.artifacts.len() == 0
            &&& !o.available
            &&& after.len() == before.len()
            &&& lookup(after, "available"@) == Some(NodeView::Flag(false))
            &&& forall|i: int|
                0 <= i < before.len() ==> (#[trigger] after[i]).0 == before[i].0 && (Some(i)
                    != index_of(before, "available"@) ==> after[i] == before[i])
        }),
{
    let before = entry->Table_0;
    let i = index_of(before, "available"@)->0;
    lemma_index_of(before, "available"@);
    lemma_with_value_keeps_index(before, i, NodeView::Flag(false), "available"@);
}

/// A selected target that is unavailable is passed over: nothing is
/// fetched for it and its entry stays as it is.
pub proof fn lemma_unavailable_target_is_kept(cfg: SettingsView, name: Seq<char>, entry: NodeView)
    requires
        selected(cfg, name),
        entry matches NodeView::Table(t) && lookup(t, "available"@) == Some(NodeView::Flag(false)),
    ensures
        target_outcome(cfg, name, entry) == Some(
            TargetOutcome { entry, artifacts: Seq::empty(), available: false },
        ),
{
}

/// The text under `key` in `entries`, with the index of its entry.
fn text_entry<'a>(entries: &'a Vec<Entry>, key: &str) -> (r: Option<(usize, &'a String)>)
    ensures
        r matches Some((i, s)) ==> index_of(rows(entries@), key@) == Some(i as int) && i
            < entries.len() && text_in(rows(entries@), key@) == Some(s@),
        r is None ==> text_in(rows(entries@), key@) is None,
{
    let k = key.to_owned();
    match find(entries, &k) {
        Some(i) => match &entries[i].value {
            Node::Text(s) => Some((i, s)),
            _ => None,
        },
        None => None,
    }
}

/// The artifact that a target's entries give under `url_key` and
/// `hash_key`, with the index of the entry that holds the URL.
fn variant_of(cfg: &Settings, entries: &Vec<Entry>, url_key: &str, hash_key: &str) -> (r: Option<
    (usize, ArtifactRef),
>)
    ensures
        r matches Some((i, a)) ==> index_of(rows(entries@), url_key@) == Some(i as int) && i
            < entries.len() && variant(cfg@, rows(entries@), url_key@, hash_key@) == Some(a@),
        r is None ==> variant(cfg@, rows(entries@), url_key@, hash_key@) is None,
{
    match text_entry(entries, url_key) {
        Some((i, url)) => match text_entry(entries, hash_key) {
            Some((_, hash)) => match artifact_for(cfg, url.as_str(), hash.as_str()) {
                Some(a) => Some((i, a)),
                None => None,
            },
            None => None,
        },
        None => None,
    }
}

/// Replaces the value of entry `i`.
fn set_value(entries: &mut Vec<Entry>, i: usize, value: Node)
    requires
        i < old(entries).len(),
    ensures
        rows(final(entries)@) == with_value(rows(old(entries)@), i as int, value@),
        final(entries).len() == old(entries).len(),
{
    entries[i].value = value;
    assert(rows(entries@) =~= with_value(rows(old(entries)@), i as int, value@));
}

/// Mirrors one target: rewrites its entry in place and adds its artifacts
/// and, where it is available, its name to the lists.
fn mirror_target(
    cfg: &Settings,
    name: &String,
    entry: &mut Node,
    artifacts: &mut Vec<ArtifactRef>,
    available: &mut Vec<String>,
) -> (r: Result<(), SyncError>)
    ensures
        target_outcome(cfg@, name@, old(entry)@) matches Some(o) ==> {
            &&& r is Ok
            &&& final(entry)@ == o.entry
            &&& artifact_views(final(artifacts)@) == artifact_views(old(artifacts)@) + o.artifacts
            &&& final(available)@.len() == old(available)@.len() + (if o.available {
                1int
            } else {
                0int
            })
            &&& o.available ==> final(available)@ == old(available)@.push(*name)
            &&& !o.available ==> final(available)@ == old(available)@
        },
        target_outcome(cfg@, name@, old(entry)@) is None ==> r == Err::<(), SyncError>(
            SyncError::Schema,
        ),
{
    match entry {
        Node::Table(es) => {
            let ghost t = rows(es@);
            let key = "available".to_owned();
            if !is_selected(cfg, name) {
                match find(es, &key) {
                    Some(i) => {
                        set_value(es, i, Node::Flag(false));
                        proof {
                            assert(artifact_views(artifacts@) + Seq::<ArtifactView>::empty()
                                =~= artifact_views(artifacts@));
                        }
                        Ok(())
                    },
                    None => Err(SyncError::Schema),
                }
            } else {
                let flag = match find(es, &key) {
                    Some(i) => es[i].value.as_flag(),
                    None => None,
                };
                match flag {
                    Some(false) => {
                        proof {
                            assert(artifact_views(artifacts@) + Seq::<ArtifactView>::empty()
                                =~= artifact_views(artifacts@));
                        }
                        Ok(())
                    },
                    Some(true) => {
                        let plain = variant_of(cfg, es, "url", "hash");
                        let packed = variant_of(cfg, es, "xz_url", "xz_hash");
                        match (plain, packed) {
                            (Some((i, a)), Some((j, b))) => {
                                proof {
                                    lemma_with_value_keeps_index(
                                        t,
                                        i as int,
                                        NodeView::Text(a.mirrored_url@),
                                        "xz_url"@,
                                    );
                                }
                                set_value(es, i, Node::Text(a.mirrored_url.clone()));
                                set_value(es, j, Node::Text(b.mirrored_url.clone()));
                                proof {
                                    assert(artifact_views(artifacts@.push(a).push(b))
                                        =~= artifact_views(artifacts@) + seq![a@, b@]);
                                }
                                artifacts.push(a);
                                artifacts.push(b);
                                available.push(name.clone());
                                Ok(())
                            },
                            _ => Err(SyncError::Schema),
                        }
                    },
                    None => Err(SyncError::Schema),
                }
            }
        },
        _ => Err(SyncError::Schema),
    }
}

/// What mirroring makes of a table of targets, of a package, of a table of
/// packages, or of a whole manifest.
pub struct Outcome {
    /// The rewritten node.
    pub node: NodeView,
    /// The artifacts to synchronise, in the order of the manifest.
    pub artifacts: Seq<ArtifactView>,
    /// The names of the targets that are mirrored and available, once for
    /// each package that has them, in the order of the manifest.
    pub available: Seq<Seq<char>>,
}

/// What mirroring makes of the targets `targets` of one package: each is
/// rewritten by [`target_outcome`]. `None` where one of them has none.
pub open spec fn targets_outcome(cfg: SettingsView, targets: Seq<(Seq<char>, NodeView)>) -> Option<
    Outcome,
>
    decreases targets.len(),
{
    if targets.len() == 0 {
        Some(
            Outcome {
                node: NodeView::Table(Seq::empty()),
                artifacts: Seq::empty(),
                available: Seq::empty(),
            },
        )
    } else {
        let last = targets.last();
        match (targets_outcome(cfg, targets.drop_last()), target_outcome(cfg, last.0, last.1)) {
            (Some(before), Some(o)) => Some(
                Outcome {
                    node: NodeView::Table(before.node->Table_0.push((last.0, o.entry))),
                    artifacts: before.artifacts + o.artifacts,
                    available: if o.available {
                        before.available.push(last.0)
                    } else {
                        before.available
                    },
                },
            ),
            _ => None,
        }
    }
}

/// What mirroring makes of one package: its table of targets, under
/// `target`, is rewritten by [`targets_outcome`]. `None` where the package
/// has no such table.
pub open spec fn package_outcome(cfg: SettingsView, package: NodeView) -> Option<Outcome> {
    match package {
        NodeView::Table(p) => match lookup(p, "target"@) {
            Some(NodeView::Table(targets)) => match targets_outcome(cfg, targets) {
                Some(o) => Some(
                    Outcome { node: NodeView::Table(with_child(p, "target"@, o.node)), ..o },
                ),
                None => None,
            },
            _ => None,
        },
        _ => None,
    }
}

/// What mirroring makes of the packages `packages`: each is rewritten by
/// [`package_outcome`]. `None` where one of them has none.
pub open spec fn packages_outcome(cfg: SettingsView, packages: Seq<(Seq<char>, NodeView)>) -> Option<
    Outcome,
>
    decreases packages.len(),
{
    if packages.len() == 0 {
        Some(
            Outcome {
                node: NodeView::Table(Seq::empty()),
                artifacts: Seq::empty(),
                available: Seq::empty(),
            },
        )
    } else {
        let last = packages.last();
        match (packages_outcome(cfg, packages.drop_last()), package_outcome(cfg, last.1)) {
            (Some(before), Some(o)) => Some(
                Outcome {
                    node: NodeView::Table(before.node->Table_0.push((last.0, o.node))),
                    artifacts: before.artifacts + o.artifacts,
                    available: before.available + o.available,
                },
            ),
            _ => None,
        }
    }
}

/// What mirroring makes of the manifest `root`: its table of packages,
/// under `pkg`, is rewritten by [`packages_outcome`], and everything else
/// stays as it is. `None` where the manifest has no such table or one of
/// its entries does not have the shape that mirroring needs.
pub open spec fn mirrored(cfg: SettingsView, root: NodeView) -> Option<Outcome> {
    match root {
        NodeView::Table(t) => match lookup(t, "pkg"@) {
            Some(NodeView::Table(packages)) => match packages_outcome(cfg, packages) {
                Some(o) => Some(Outcome { node: NodeView::Table(with_child(t, "pkg"@, o.node)), ..o }),
                None => None,
            },
            _ => None,
        },
        _ => None,
    }
}

/// A table of targets is rewritten row by row: the rewritten table has the
/// same keys in the same places.
pub proof fn lemma_targets_outcome_shape(cfg: SettingsView, targets: Seq<(Seq<char>, NodeView)>)
    requires
        targets_outcome(cfg, targets) is Some,
    ensures
        targets_outcome(cfg, targets)->0.node is Table,
        targets_outcome(cfg, targets)->0.node->Table_0.len() == targets.len(),
        forall|i: int|
            0 <= i < targets.len() ==> target_outcome(
                cfg,
                (#[trigger] targets[i]).0,
                targets[i].1,
            ) is Some,
        forall|i: int|
            0 <= i < targets.len() ==> (#[trigger] targets_outcome(cfg, targets)->0.node->Table_0[i])
                == (targets[i].0, target_outcome(cfg, targets[i].0, targets[i].1)->0.entry),
    decreases targets.len(),
{
    if targets.len() > 0 {
        let front = targets.drop_last();
        lemma_targets_outcome_shape(cfg, front);
        let before = targets_outcome(cfg, front)->0.node->Table_0;
        let whole = targets_outcome(cfg, targets)->0.node->Table_0;
        assert forall|i: int| 0 <= i < targets.len() implies target_outcome(
            cfg,
            (#[trigger] targets[i]).0,
            targets[i].1,
        ) is Some by {
            if i < targets.len() - 1 {
                assert(front[i] == targets[i]);
            }
        }
        assert forall|i: int| 0 <= i < targets.len() implies (#[trigger] whole[i]) == (
            targets[i].0,
            target_outcome(cfg, targets[i].0, targets[i].1)->0.entry,
        ) by {
            if i < targets.len() - 1 {
                assert(front[i] == targets[i]);
                assert(whole[i] == before[i]);
            }
        }
    }
}

/// Where a prefix of the targets cannot be mirrored, the whole cannot.
pub proof fn lemma_targets_outcome_prefix(
    cfg: SettingsView,
    targets: Seq<(Seq<char>, NodeView)>,
    n: int,
)
    requires
        0 <= n <= targets.len(),
        targets_outcome(cfg, targets.take(n)) is None,
    ensures
        targets_outcome(cfg, targets) is None,
    decreases targets.len() - n,
{
    if n < targets.len() {
        assert(targets.take(n + 1).drop_last() =~= targets.take(n));
        lemma_targets_outcome_prefix(cfg, targets, n + 1);
    } else {
        assert(targets.take(n) =~= targets);
    }
}

/// Where a prefix of the packages cannot be mirrored, the whole cannot.
pub proof fn lemma_packages_outcome_prefix(
    cfg: SettingsView,
    packages: Seq<(Seq<char>, NodeView)>,
    n: int,
)
    requires
        0 <= n <= packages.len(),
        packages_outcome(cfg, packages.take(n)) is None,
    ensures
        packages_outcome(cfg, packages) is None,
    decreases packages.len() - n,
{
    if n < packages.len() {
        assert(packages.take(n + 1).drop_last() =~= packages.take(n));
        lemma_packages_outcome_prefix(cfg, packages, n + 1);
    } else {
        assert(packages.take(n) =~= packages);
    }
}

/// Mirrors the targets of one package in place.
fn mirror_targets(
    cfg: &Settings,
    targets: &mut Vec<Entry>,
    artifacts: &mut Vec<ArtifactRef>,
    available: &mut Vec<String>,
) -> (r: Result<(), SyncError>)
    ensures
        targets_outcome(cfg@, rows(old(targets)@)) matches Some(o) ==> {
            &&& r is Ok
            &&& NodeView::Table(rows(final(targets)@)) == o.node
            &&& artifact_views(final(artifacts)@) == artifact_views(old(artifacts)@) + o.artifacts
            &&& texts(final(available)@) == texts(old(available)@) + o.available
        },
        targets_outcome(cfg@, rows(old(targets)@)) is None ==> r == Err::<(), SyncError>(
            SyncError::Schema,
        ),
{
    let ghost t0 = rows(targets@);
    let mut i: usize = 0;
    proof {
        assert(rows(targets@).take(0) =~= Seq::<(Seq<char>, NodeView)>::empty());
        assert(artifact_views(artifacts@) + Seq::<ArtifactView>::empty() =~= artifact_views(
            artifacts@,
        ));
        assert(texts(available@) + Seq::<Seq<char>>::empty() =~= texts(available@));
    }
    while i < targets.len()
        invariant
            i <= targets.len(),
            targets.len() == t0.len(),
            t0 == rows(old(targets)@),
            forall|j: int| i <= j < t0.len() ==> rows(targets@)[j] == t0[j],
            targets_outcome(cfg@, t0.take(i as int)) matches Some(o) && {
                &&& o.node == NodeView::Table(rows(targets@).take(i as int))
                &&& artifact_views(artifacts@) == artifact_views(old(artifacts)@) + o.artifacts
                &&& texts(available@) == texts(old(available)@) + o.available
            },
        decreases targets.len() - i,
    {
        let ghost before = targets_outcome(cfg@, t0.take(i as int))->0;
        let ghost rows_before = rows(targets@);
        let ghost arts_before = artifact_views(artifacts@);
        let ghost avail_before = texts(available@);
        proof {
            assert(t0.take(i + 1).drop_last() =~= t0.take(i as int));
            assert(t0.take(i + 1).last() == t0[i as int]);
            assert(rows(targets@)[i as int] == t0[i as int]);
        }
        let name = targets[i].key.clone();
        let r = mirror_target(cfg, &name, &mut targets[i].value, artifacts, available);
        match r {
            Ok(()) => {},
            Err(e) => {
                proof {
                    lemma_targets_outcome_prefix(cfg@, t0, i + 1);
                }
                return Err(e);
            },
        }
        proof {
            let o = target_outcome(cfg@, t0[i as int].0, t0[i as int].1)->0;
            assert(rows(targets@).take(i + 1) =~= rows_before.take(i as int).push(
                (t0[i as int].0, o.entry),
            ));
            assert(artifact_views(artifacts@) =~= artifact_views(old(artifacts)@) + (
            before.artifacts + o.artifacts));
            if o.available {
                assert(texts(available@) =~= avail_before.push(name@));
                assert(texts(available@) =~= texts(old(available)@) + before.available.push(
                    t0[i as int].0,
                ));
            } else {
                assert(texts(available@) =~= avail_before);
            }
            assert forall|j: int| i + 1 <= j < t0.len() implies rows(targets@)[j] == t0[j] by {
                assert(rows_before[j] == t0[j]);
            }
        }
        i += 1;
    }
    proof {
        assert(t0.take(i as int) =~= t0);
        assert(rows(targets@).take(i as int) =~= rows(targets@));
    }
    Ok(())
}

/// Mirrors one package in place.
fn mirror_package(
    cfg: &Settings,
    package: &mut Node,
    artifacts: &mut Vec<ArtifactRef>,
    available: &mut Vec<String>,
) -> (r: Result<(), SyncError>)
    ensures
        package_outcome(cfg@, old(package)@) matches Some(o) ==> {
            &&& r is Ok
            &&& final(package)@ == o.node
            &&& artifact_views(final(artifacts)@) == artifact_views(old(artifacts)@) + o.artifacts
            &&& texts(final(available)@) == texts(old(available)@) + o.available
        },
        package_outcome(cfg@, old(package)@) is None ==> r == Err::<(), SyncError>(SyncError::Schema),
{
    match package {
        Node::Table(p) => {
            let ghost rows_before = rows(p@);
            let key = "target".to_owned();
            match find(p, &key) {
                Some(i) => {
                    let ghost before = p@;
                    let r = match &mut p[i].value {
                        Node::Table(targets) => mirror_targets(cfg, targets, artifacts, available),
                        _ => Err(SyncError::Schema),
                    };
                    proof {
                        if r is Ok {
                            assert(p@.len() == before.len());
                            assert forall|j: int| 0 <= j < p@.len() && j != i implies p@[j]
                                == before[j] by {}
                            assert(p@[i as int].key == before[i as int].key);
                            assert(rows(p@) =~= with_value(rows_before, i as int, p@[i as int].value@));
                        }
                    }
                    r
                },
                None => Err(SyncError::Schema),
            }
        },
        _ => Err(SyncError::Schema),
    }
}

/// Mirrors the packages of a manifest in place.
fn mirror_packages(
    cfg: &Settings,
    packages: &mut Vec<Entry>,
    artifacts: &mut Vec<ArtifactRef>,
    available: &mut Vec<String>,
) -> (r: Result<(), SyncError>)
    ensures
        packages_outcome(cfg@, rows(old(packages)@)) matches Some(o) ==> {
            &&& r is Ok
            &&& NodeView::Table(rows(final(packages)@)) == o.node
            &&& artifact_views(final(artifacts)@) == artifact_views(old(artifacts)@) + o.artifacts
            &&& texts(final(available)@) == texts(old(available)@) + o.available
        },
        packages_outcome(cfg@, rows(old(packages)@)) is None ==> r == Err::<(), SyncError>(
            SyncError::Schema,
        ),
{
    let ghost t0 = rows(packages@);
    let mut i: usize = 0;
    proof {
        assert(rows(packages@).take(0) =~= Seq::<(Seq<char>, NodeView)>::empty());
        assert(artifact_views(artifacts@) + Seq::<ArtifactView>::empty() =~= artifact_views(
            artifacts@,
        ));
        assert(texts(available@) + Seq::<Seq<char>>::empty() =~= texts(available@));
    }
    while i < packages.len()
        invariant
            i <= packages.len(),
            packages.len() == t0.len(),
            t0 == rows(old(packages)@),
            forall|j: int| i <= j < t0.len() ==> rows(packages@)[j] == t0[j],
            packages_outcome(cfg@, t0.take(i as int)) matches Some(o) && {
                &&& o.node == NodeView::Table(rows(packages@).take(i as int))
                &&& artifact_views(artifacts@) == artifact_views(old(artifacts)@) + o.artifacts
                &&& texts(available@) == texts(old(available)@) + o.available
            },
        decreases packages.len() - i,
    {
        let ghost before = packages_outcome(cfg@, t0.take(i as int))->0;
        let ghost rows_before = rows(packages@);
        proof {
            assert(t0.take(i + 1).drop_last() =~= t0.take(i as int));
            assert(t0.take(i + 1).last() == t0[i as int]);
            assert(rows(packages@)[i as int] == t0[i as int]);
        }
        let r = mirror_package(cfg, &mut packages[i].value, artifacts, available);
        match r {
            Ok(()) => {},
            Err(e) => {
                proof {
                    lemma_packages_outcome_prefix(cfg@, t0, i + 1);
                }
                return Err(e);
            },
        }
        proof {
            let o = package_outcome(cfg@, t0[i as int].1)->0;
            assert(rows(packages@).take(i + 1) =~= rows_before.take(i as int).push(
                (t0[i as int].0, o.node),
            ));
            assert(artifact_views(artifacts@) =~= artifact_views(old(artifacts)@) + (
            before.artifacts + o.artifacts));
            assert(texts(available@) =~= texts(old(available)@) + (before.available + o.available));
            assert forall|j: int| i + 1 <= j < t0.len() implies rows(packages@)[j] == t0[j] by {
                assert(rows_before[j] == t0[j]);
            }
        }
        i += 1;
    }
    proof {
        assert(t0.take(i as int) =~= t0);
        assert(rows(packages@).take(i as int) =~= rows(packages@));
    }
    Ok(())
}

/// What [`mirror_manifest`] hands back.
pub struct Mirrored {
    /// The rewritten manifest.
    pub manifest: Manifest,
    /// The artifacts to synchronise, in the order of the manifest.
    pub artifacts: Vec<ArtifactRef>,
    /// The names of the targets that are mirrored and available, once for
    /// each package that has them, in the order of the manifest.
    pub available: Vec<String>,
}

/// Rewriting the packages leaves the manifest's version as it is.
pub proof fn lemma_mirrored_keeps_version(cfg: SettingsView, root: NodeView)
    requires
        mirrored(cfg, root) is Some,
    ensures
        top_text(mirrored(cfg, root)->0.node, "manifest-version"@) == top_text(
            root,
            "manifest-version"@,
        ),
        top_text(mirrored(cfg, root)->0.node, "date"@) == top_text(root, "date"@),
{
    reveal_strlit("manifest-version");
    reveal_strlit("date");
    reveal_strlit("pkg");
    let t = root->Table_0;
    let i = index_of(t, "pkg"@)->0;
    lemma_index_of(t, "pkg"@);
    lemma_index_of(t, "manifest-version"@);
    lemma_index_of(t, "date"@);
    let node = mirrored(cfg, root)->0.node;
    lemma_with_value_keeps_index(t, i, packages_outcome(cfg, t[i].1->Table_0)->0.node, "manifest-version"@);
    lemma_with_value_keeps_index(t, i, packages_outcome(cfg, t[i].1->Table_0)->0.node, "date"@);
    assert("pkg"@.len() != "manifest-version"@.len());
    assert("pkg"@.len() != "date"@.len());
}

/// Mirrors a manifest: marks the targets that are not selected as
/// unavailable, points the URLs of the others at the mirror, and lists the
/// artifacts to synchronise. Fails with `Schema` where the manifest does
/// not have the shape that this needs; nothing is rewritten then.
pub fn mirror_manifest(cfg: &Settings, manifest: Manifest) -> (r: Result<Mirrored, SyncError>)
    ensures
        mirrored(cfg@, manifest@) matches Some(o) ==> (r matches Ok(m) && {
            &&& m.manifest@ == o.node
            &&& m.manifest.wf()
            &&& artifact_views(m.artifacts@) == o.artifacts
            &&& texts(m.available@) == o.available
        }),
        mirrored(cfg@, manifest@) is None ==> (r matches Err(e) && e == SyncError::Schema),
{
    let ghost root0 = manifest@;
    proof {
        use_type_invariant(&manifest);
        manifest.lemma_version();
    }
    let mut root = manifest.into_root();
    let mut artifacts: Vec<ArtifactRef> = Vec::new();
    let mut available: Vec<String> = Vec::new();
    let r = match &mut root {
        Node::Table(t) => {
            let ghost t0 = rows(t@);
            let key = "pkg".to_owned();
            match find(t, &key) {
                Some(i) => {
                    let ghost before = t@;
                    let r = match &mut t[i].value {
                        Node::Table(packages) => mirror_packages(
                            cfg,
                            packages,
                            &mut artifacts,
                            &mut available,
                        ),
                        _ => Err(SyncError::Schema),
                    };
                    proof {
                        if r is Ok {
                            assert(t@.len() == before.len());
                            assert forall|j: int| 0 <= j < t@.len() && j != i implies t@[j]
                                == before[j] by {}
                            assert(t@[i as int].key == before[i as int].key);
                            assert(rows(t@) =~= with_value(t0, i as int, t@[i as int].value@));
                        }
                    }
                    r
                },
                None => Err(SyncError::Schema),
            }
        },
        _ => Err(SyncError::Schema),
    };
    match r {
        Ok(()) => {
            proof {
                lemma_mirrored_keeps_version(cfg@, root0);
                assert(artifact_views(artifacts@) =~= mirrored(cfg@, root0)->0.artifacts);
                assert(texts(available@) =~= mirrored(cfg@, root0)->0.available);
            }
            Ok(Mirrored { manifest: Manifest::assemble(root), artifacts, available })
        },
        Err(e) => Err(e),
    }
}

} // verus!
