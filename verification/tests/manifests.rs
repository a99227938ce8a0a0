use rustup_mirror::error::SyncError;
use rustup_mirror::manifest::{check_schema, read_document, write_document, Manifest};
use rustup_mirror::mirror::{artifact_for, locate, mirror_manifest, is_selected, Settings};
use rustup_mirror::tree::{find, Entry, Node};

const SAMPLE: &str = r#"manifest-version = "2"
date = "2023-10-05"
note = 7

[pkg.rust]
version = "1.73.0 (cc66ad468 2023-10-03)"

[pkg.rust.target.t1]
available = true
url = "https://static.rust-lang.org/dist/2023-10-05/rust-1.73.0-t1.tar.gz"
hash = "H1"
xz_url = "https://static.rust-lang.org/dist/2023-10-05/rust-1.73.0-t1.tar.xz"
xz_hash = "H1X"
extra = [1, 2, 3]

[pkg.rust.target.t2]
available = true
url = "https://static.rust-lang.org/dist/2023-10-05/rust-1.73.0-t2.tar.gz"
hash = "H2"
xz_url = "https://static.rust-lang.org/dist/2023-10-05/rust-1.73.0-t2.tar.xz"
xz_hash = "H2X"

[pkg.rust.target.t3]
available = false

[pkg.rust-src]
version = "1.73.0"

[pkg.rust-src.target."*"]
available = true
url = "https://static.rust-lang.org/dist/2023-10-05/rust%20src-1.73.0.tar.gz"
hash = "S"
xz_url = "https://static.rust-lang.org/dist/2023-10-05/rust-src-1.73.0.tar.xz"
xz_hash = "SX"
"#;

fn settings(allowed: &[&str]) -> Settings {
    Settings {
        allowed: allowed.iter().map(|s| s.to_string()).collect(),
        mirror_url: "http://127.0.0.1:8000".to_string(),
        mirror_path: "./mirror".to_string(),
    }
}

fn at<'a>(node: &'a Node, path: &[&str]) -> &'a Node {
    let mut n = node;
    for key in path {
        n = n.get(key).unwrap();
    }
    n
}

fn text<'a>(node: &'a Node, path: &[&str]) -> &'a str {
    at(node, path).as_text().unwrap().as_str()
}

fn flag(node: &Node, path: &[&str]) -> bool {
    at(node, path).as_flag().unwrap()
}

fn is_schema_error<T>(r: Result<T, SyncError>) -> bool {
    matches!(r, Err(SyncError::Schema))
}

#[test]
fn load_reads_version_two() {
    let m = Manifest::load(SAMPLE).unwrap();
    assert_eq!(m.date().unwrap(), "2023-10-05");
    assert_eq!(text(m.root(), &["pkg", "rust", "target", "t1", "hash"]), "H1");
    assert!(flag(m.root(), &["pkg", "rust", "target", "t1", "available"]));
    assert!(!flag(m.root(), &["pkg", "rust", "target", "t3", "available"]));
}

#[test]
fn load_rejects_malformed_text() {
    assert!(matches!(Manifest::load("manifest-version = "), Err(SyncError::Parse)));
    assert!(matches!(Manifest::load("[a\nb = 1"), Err(SyncError::Parse)));
}

#[test]
fn load_rejects_other_versions() {
    assert!(is_schema_error(Manifest::load("manifest-version = \"1\"\n")));
    assert!(is_schema_error(Manifest::load("manifest-version = 2\n")));
    assert!(is_schema_error(Manifest::load("date = \"2023-10-05\"\n")));
    assert!(is_schema_error(Manifest::load("")));
}

#[test]
fn date_must_be_a_text() {
    let m = Manifest::load("manifest-version = \"2\"\n").unwrap();
    assert!(is_schema_error(m.date()));
    let m = Manifest::load("manifest-version = \"2\"\ndate = 2023-10-05\n").unwrap();
    assert!(is_schema_error(m.date()));
}

#[test]
fn serialization_is_deterministic() {
    let a = Manifest::load(SAMPLE).unwrap().serialize().unwrap();
    let b = Manifest::load(SAMPLE).unwrap().serialize().unwrap();
    assert_eq!(a, b);
    let again = Manifest::load(&a).unwrap().serialize().unwrap();
    assert_eq!(again, a);
}

#[test]
fn serialization_keeps_the_document() {
    let out = Manifest::load(SAMPLE).unwrap().serialize().unwrap();
    let before: toml::Value = SAMPLE.parse().unwrap();
    let after: toml::Value = out.parse().unwrap();
    assert_eq!(before, after);
}

#[test]
fn serialization_of_what_is_no_table_fails() {
    assert!(is_schema_error(write_document(&Node::Text("x".to_string()))));
}

#[test]
fn duplicate_keys_resolve_to_the_last_entry() {
    let entries = vec![
        Entry { key: "a".to_string(), value: Node::Flag(false) },
        Entry { key: "b".to_string(), value: Node::Flag(false) },
        Entry { key: "a".to_string(), value: Node::Flag(true) },
    ];
    assert_eq!(find(&entries, &"a".to_string()), Some(2));
    assert_eq!(find(&entries, &"b".to_string()), Some(1));
    assert_eq!(find(&entries, &"c".to_string()), None);
    let table = Node::Table(entries);
    assert_eq!(table.get("a").unwrap().as_flag(), Some(true));
    let out = write_document(&table).unwrap();
    let v: toml::Value = out.parse().unwrap();
    assert_eq!(v.get("a").and_then(|x| x.as_bool()), Some(true));
}

#[test]
fn node_accessors_tell_kinds_apart() {
    let t = Node::Text("x".to_string());
    assert!(t.as_text().is_some() && t.as_flag().is_none() && t.as_table().is_none());
    assert!(t.get("k").is_none());
    let f = Node::Flag(true);
    assert!(f.as_text().is_none() && f.as_flag() == Some(true));
    let doc = read_document("n = 1\ns = \"v\"\n", "s", "v").unwrap();
    assert!(doc.as_table().is_some());
    assert!(doc.get("n").unwrap().as_text().is_none());
    assert!(doc.get("n").unwrap().as_flag().is_none());
}

#[test]
fn schema_check_compares_the_whole_text() {
    let doc = read_document("v = \"12\"\n", "v", "12").unwrap();
    assert!(is_schema_error(check_schema(doc, "v", "1")));
    assert!(is_schema_error(read_document("v = \"1\"\n", "w", "1")));
}

#[test]
fn target_selection() {
    let cfg = settings(&["t1"]);
    assert!(is_selected(&cfg, &"t1".to_string()));
    assert!(is_selected(&cfg, &"*".to_string()));
    assert!(!is_selected(&cfg, &"t2".to_string()));
    assert!(!is_selected(&cfg, &"t".to_string()));
}

#[test]
fn artifact_paths_from_url() {
    let cfg = settings(&[]);
    let a = artifact_for(&cfg, "https://static.rust-lang.org/dist/2023-10-05/a%20b.tar.gz?x=1#f", "H")
        .unwrap();
    assert_eq!(a.relative, "dist/2023-10-05/a b.tar.gz");
    assert_eq!(a.file, "./mirror/dist/2023-10-05/a b.tar.gz");
    assert_eq!(a.sidecar, "./mirror/dist/2023-10-05/a b.tar.gz.sha256");
    assert_eq!(a.hash, "H");
    assert_eq!(a.mirrored_url, "http://127.0.0.1:8000/dist/2023-10-05/a%20b.tar.gz");
}

#[test]
fn artifact_of_bare_host_is_the_root_path() {
    let cfg = settings(&[]);
    let a = artifact_for(&cfg, "https://example.com", "H").unwrap();
    assert_eq!(a.relative, "");
    assert_eq!(a.mirrored_url, "http://127.0.0.1:8000/");
}

#[test]
fn artifact_needs_a_url_with_a_path() {
    let cfg = settings(&[]);
    assert!(artifact_for(&cfg, "not a url", "H").is_none());
    assert!(artifact_for(&cfg, "mailto:", "H").is_none());
    assert!(locate(&cfg, "", "H").is_none());
}

#[test]
fn locate_decodes_only_spaces() {
    let cfg = settings(&[]);
    let a = locate(&cfg, "/a%20b%2Fc%20", "H").unwrap();
    assert_eq!(a.relative, "a b%2Fc ");
    assert_eq!(a.mirrored_url, "http://127.0.0.1:8000/a%20b%2Fc%20");
}

#[test]
fn available_target_is_fetched_and_rewritten() {
    let cfg = settings(&["t1"]);
    let m = mirror_manifest(&cfg, Manifest::load(SAMPLE).unwrap()).unwrap();
    let first = &m.artifacts[0];
    assert_eq!(first.hash, "H1");
    assert_eq!(first.relative, "dist/2023-10-05/rust-1.73.0-t1.tar.gz");
    assert_eq!(first.file, "./mirror/dist/2023-10-05/rust-1.73.0-t1.tar.gz");
    assert_eq!(first.sidecar, "./mirror/dist/2023-10-05/rust-1.73.0-t1.tar.gz.sha256");
    let root = m.manifest.root();
    assert_eq!(
        text(root, &["pkg", "rust", "target", "t1", "url"]),
        "http://127.0.0.1:8000/dist/2023-10-05/rust-1.73.0-t1.tar.gz"
    );
    assert_eq!(
        text(root, &["pkg", "rust", "target", "t1", "xz_url"]),
        "http://127.0.0.1:8000/dist/2023-10-05/rust-1.73.0-t1.tar.xz"
    );
    assert_eq!(text(root, &["pkg", "rust", "target", "t1", "hash"]), "H1");
    assert!(flag(root, &["pkg", "rust", "target", "t1", "available"]));
}

#[test]
fn target_outside_allow_list_is_disabled_and_kept() {
    let cfg = settings(&["t1"]);
    let m = mirror_manifest(&cfg, Manifest::load(SAMPLE).unwrap()).unwrap();
    let root = m.manifest.root();
    assert!(!flag(root, &["pkg", "rust", "target", "t2", "available"]));
    assert_eq!(
        text(root, &["pkg", "rust", "target", "t2", "url"]),
        "https://static.rust-lang.org/dist/2023-10-05/rust-1.73.0-t2.tar.gz"
    );
    assert_eq!(text(root, &["pkg", "rust", "target", "t2", "hash"]), "H2");
    assert_eq!(text(root, &["pkg", "rust", "target", "t2", "xz_hash"]), "H2X");
    assert!(m.artifacts.iter().all(|a| !a.relative.contains("t2")));
    let out: toml::Value = m.manifest.serialize().unwrap().parse().unwrap();
    let mut expected: toml::Value = SAMPLE.parse().unwrap();
    expected["pkg"]["rust"]["target"]["t2"]["available"] = toml::Value::Boolean(false);
    assert_eq!(out["pkg"]["rust"]["target"]["t2"], expected["pkg"]["rust"]["target"]["t2"]);
}

#[test]
fn mirror_lists_artifacts_and_targets_in_order() {
    let cfg = settings(&["t1", "t2", "t3"]);
    let m = mirror_manifest(&cfg, Manifest::load(SAMPLE).unwrap()).unwrap();
    let hashes: Vec<&str> = m.artifacts.iter().map(|a| a.hash.as_str()).collect();
    assert_eq!(hashes, ["H1", "H1X", "H2", "H2X", "S", "SX"]);
    assert_eq!(m.available, ["t1", "t2", "*"]);
    assert_eq!(m.artifacts[4].relative, "dist/2023-10-05/rust src-1.73.0.tar.gz");
    assert_eq!(
        m.artifacts[4].mirrored_url,
        "http://127.0.0.1:8000/dist/2023-10-05/rust%20src-1.73.0.tar.gz"
    );
}

#[test]
fn mirror_with_empty_allow_list_keeps_only_the_wildcard() {
    let cfg = settings(&[]);
    let m = mirror_manifest(&cfg, Manifest::load(SAMPLE).unwrap()).unwrap();
    assert_eq!(m.available, ["*"]);
    assert_eq!(m.artifacts.len(), 2);
    let root = m.manifest.root();
    assert!(!flag(root, &["pkg", "rust", "target", "t1", "available"]));
    assert!(!flag(root, &["pkg", "rust", "target", "t3", "available"]));
    assert!(flag(root, &["pkg", "rust-src", "target", "*", "available"]));
}

#[test]
fn mirror_keeps_everything_else() {
    let cfg = settings(&["t1", "t2", "t3"]);
    let m = mirror_manifest(&cfg, Manifest::load(SAMPLE).unwrap()).unwrap();
    assert_eq!(m.manifest.date().unwrap(), "2023-10-05");
    let out: toml::Value = m.manifest.serialize().unwrap().parse().unwrap();
    let before: toml::Value = SAMPLE.parse().unwrap();
    assert_eq!(out["note"], before["note"]);
    assert_eq!(out["manifest-version"], before["manifest-version"]);
    assert_eq!(out["pkg"]["rust"]["version"], before["pkg"]["rust"]["version"]);
    assert_eq!(
        out["pkg"]["rust"]["target"]["t1"]["extra"],
        before["pkg"]["rust"]["target"]["t1"]["extra"]
    );
    assert_eq!(out["pkg"]["rust"]["target"]["t3"], before["pkg"]["rust"]["target"]["t3"]);
    assert_eq!(
        out["pkg"]["rust"]["target"]["t1"]["url"].as_str(),
        Some("http://127.0.0.1:8000/dist/2023-10-05/rust-1.73.0-t1.tar.gz")
    );
}

#[test]
fn mirror_twice_gives_the_same_text() {
    let cfg = settings(&["t1"]);
    let a = mirror_manifest(&cfg, Manifest::load(SAMPLE).unwrap()).unwrap();
    let b = mirror_manifest(&cfg, Manifest::load(SAMPLE).unwrap()).unwrap();
    assert_eq!(a.manifest.serialize().unwrap(), b.manifest.serialize().unwrap());
}

#[test]
fn mirror_rejects_manifest_without_packages() {
    let cfg = settings(&["t1"]);
    let m = Manifest::load("manifest-version = \"2\"\n").unwrap();
    assert!(is_schema_error(mirror_manifest(&cfg, m)));
    let m = Manifest::load("manifest-version = \"2\"\npkg = 1\n").unwrap();
    assert!(is_schema_error(mirror_manifest(&cfg, m)));
}

#[test]
fn mirror_rejects_package_without_targets() {
    let cfg = settings(&["t1"]);
    let m = Manifest::load("manifest-version = \"2\"\n[pkg.rust]\nversion = \"1\"\n").unwrap();
    assert!(is_schema_error(mirror_manifest(&cfg, m)));
}

#[test]
fn mirror_rejects_target_without_availability() {
    let cfg = settings(&["t1"]);
    let m = Manifest::load("manifest-version = \"2\"\n[pkg.rust.target.t1]\nurl = \"x\"\n").unwrap();
    assert!(is_schema_error(mirror_manifest(&cfg, m)));
    let m = Manifest::load("manifest-version = \"2\"\n[pkg.rust.target.t9]\nurl = \"x\"\n").unwrap();
    assert!(is_schema_error(mirror_manifest(&cfg, m)));
}

#[test]
fn mirror_rejects_available_target_without_artifacts() {
    let cfg = settings(&["t1"]);
    let text = "manifest-version = \"2\"\n[pkg.rust.target.t1]\navailable = true\nurl = \"https://h/a\"\nhash = \"H\"\n";
    let m = Manifest::load(text).unwrap();
    assert!(is_schema_error(mirror_manifest(&cfg, m)));
    let text = "manifest-version = \"2\"\n[pkg.rust.target.t1]\navailable = true\nurl = \"nonsense\"\nhash = \"H\"\nxz_url = \"https://h/a\"\nxz_hash = \"X\"\n";
    let m = Manifest::load(text).unwrap();
    assert!(is_schema_error(mirror_manifest(&cfg, m)));
}

#[test]
fn mirror_of_manifest_without_any_package_is_empty() {
    let cfg = settings(&["t1"]);
    let m = Manifest::load("manifest-version = \"2\"\n[pkg]\n").unwrap();
    let out = mirror_manifest(&cfg, m).unwrap();
    assert!(out.artifacts.is_empty());
    assert!(out.available.is_empty());
}

#[test]
fn from_root_checks_the_version() {
    let good = read_document("manifest-version = \"2\"\n", "manifest-version", "2").unwrap();
    assert!(Manifest::from_root(good).is_ok());
    assert!(is_schema_error(Manifest::from_root(Node::Table(vec![]))));
    assert!(is_schema_error(Manifest::from_root(Node::Flag(true))));
}

#[test]
fn deeply_nested_tables_are_read_and_written_back() {
    let mut text = String::from("manifest-version = \"2\"\n[a");
    for i in 0..70 {
        text.push_str(&format!(".t{}", i));
    }
    text.push_str("]\nleaf = \"x\"\n");
    let m = Manifest::load(&text).unwrap();
    assert_eq!(text_of_path(m.root(), 10), None);
    let out = m.serialize().unwrap();
    let before: toml::Value = text.parse().unwrap();
    let after: toml::Value = out.parse().unwrap();
    assert_eq!(before, after);
}

fn text_of_path(root: &Node, levels: usize) -> Option<String> {
    let mut n = root.get("a")?;
    for i in 0..levels {
        n = n.get(&format!("t{}", i))?;
    }
    n.as_text().cloned()
}

#[test]
fn tables_are_opened_level_by_level() {
    let text = "manifest-version = \"2\"\n[a.t0.t1.t2]\nleaf = \"x\"\n";
    let m = Manifest::load(text).unwrap();
    let inner = m.root().get("a").unwrap().get("t0").unwrap().get("t1").unwrap().get("t2").unwrap();
    assert_eq!(inner.get("leaf").unwrap().as_text().map(|s| s.as_str()), Some("x"));
    assert_eq!(text_of_path(m.root(), 3), None);
}
