use rustup_mirror::names::{hash_text, NameSet};
use rustup_mirror::refs::ReferenceSet;

#[test]
fn new_reference_set_is_empty() {
    let refs = ReferenceSet::new();
    assert_eq!(refs.len(), 0);
    assert!(!refs.contains("a"));
}

#[test]
fn reference_set_holds_normalized_paths() {
    let mut refs = ReferenceSet::new();
    assert!(refs.insert("./mirror/dist/../dist/file"));
    assert!(refs.contains("mirror/dist/file"));
    assert!(refs.contains("mirror//dist/./file"));
    assert!(!refs.contains("mirror/dist/other"));
}

#[test]
fn reference_set_holds_each_path_once() {
    let mut refs = ReferenceSet::new();
    assert!(refs.insert("a/b"));
    assert!(!refs.insert("a/./b"));
    assert!(refs.insert("a/c"));
    assert_eq!(refs.len(), 2);
}

#[test]
fn reference_set_only_grows() {
    let mut refs = ReferenceSet::new();
    refs.insert("a");
    refs.insert("b");
    refs.insert("c");
    assert!(refs.contains("a") && refs.contains("b") && refs.contains("c"));
}

#[test]
fn snapshot_holds_what_was_gathered() {
    let mut refs = ReferenceSet::new();
    refs.insert("x/y");
    let snapshot = refs.freeze();
    assert_eq!(snapshot.len(), 1);
    assert!(snapshot.contains("x/./y"));
    assert!(!snapshot.contains("x"));
}

#[test]
fn name_set_keeps_order_of_first_insertion() {
    let mut set = NameSet::new();
    assert!(set.insert("b".to_string()));
    assert!(set.insert("a".to_string()));
    assert!(!set.insert("b".to_string()));
    assert_eq!(set.len(), 2);
    assert_eq!(set.get(0), "b");
    assert_eq!(set.get(1), "a");
    assert!(set.contains(&"a".to_string()));
    assert!(!set.contains(&"c".to_string()));
}

#[test]
fn hash_of_text_is_a_polynomial_in_the_characters() {
    assert_eq!(hash_text(""), 0);
    assert_eq!(hash_text("a"), 97);
    assert_eq!(hash_text("ad"), 33 * 97 + 100);
    assert_eq!(hash_text("bC"), 33 * 98 + 67);
    assert_eq!(hash_text("\u{10FFFF}"), 0x10FFFF);
    let long = "x".repeat(1000);
    assert!(hash_text(&long) < 4294967291);
}

#[test]
fn texts_of_equal_hash_are_told_apart() {
    assert_eq!(hash_text("ad"), hash_text("bC"));
    let mut set = NameSet::new();
    assert!(set.insert("ad".to_string()));
    assert!(!set.contains(&"bC".to_string()));
    assert!(set.insert("bC".to_string()));
    assert!(!set.insert("ad".to_string()));
    assert!(set.contains(&"ad".to_string()) && set.contains(&"bC".to_string()));
    assert_eq!(set.len(), 2);
}

#[test]
fn large_reference_set_answers_every_question() {
    let mut refs = ReferenceSet::new();
    for i in 0..20000 {
        assert!(refs.insert(&format!("./mirror/dist/2023-10-05/artifact-{}.tar.gz", i)));
    }
    assert_eq!(refs.len(), 20000);
    let snapshot = refs.freeze();
    for i in 0..20000 {
        assert!(snapshot.contains(&format!("mirror/dist/2023-10-05/artifact-{}.tar.gz", i)));
        assert!(!snapshot.contains(&format!("mirror/dist/2023-10-06/artifact-{}.tar.gz", i)));
    }
}
