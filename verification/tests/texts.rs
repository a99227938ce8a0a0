use rustup_mirror::text::{chars_of, contains, has_suffix, matches_at, push_all, replace_all, string_of};

fn chars(s: &str) -> Vec<char> {
    s.chars().collect()
}

fn replace(s: &str, from: &str, to: &str) -> String {
    string_of(&replace_all(&chars(s), &chars(from), &chars(to)))
}

#[test]
fn characters_and_back() {
    assert_eq!(chars_of("a\u{e9}\u{4e2d}z"), vec!['a', '\u{e9}', '\u{4e2d}', 'z']);
    assert_eq!(string_of(&['a', '\u{e9}', 'z']), "a\u{e9}z");
    assert_eq!(chars_of(""), Vec::<char>::new());
    assert_eq!(string_of(&[]), "");
}

#[test]
fn pattern_at_a_place() {
    let s = chars("nightly");
    assert!(matches_at(&s, &chars("night"), 0));
    assert!(matches_at(&s, &chars("ly"), 5));
    assert!(matches_at(&s, &chars(""), 7));
    assert!(!matches_at(&s, &chars(""), 8));
    assert!(!matches_at(&s, &chars("ly"), 6));
    assert!(!matches_at(&s, &chars("nightly!"), 0));
    assert!(!matches_at(&s, &chars("x"), usize::MAX));
}

#[test]
fn pattern_anywhere() {
    assert!(contains(&chars("rust-nightly-x86"), &chars("nightly")));
    assert!(contains(&chars("nightly"), &chars("nightly")));
    assert!(!contains(&chars("nightl"), &chars("nightly")));
    assert!(!contains(&chars("night-ly"), &chars("nightly")));
    assert!(contains(&chars("abc"), &chars("")));
    assert!(contains(&chars(""), &chars("")));
    assert!(!contains(&chars(""), &chars("a")));
}

#[test]
fn suffixes() {
    assert!(has_suffix(&chars("a.tar.gz.sha256"), &chars(".sha256")));
    assert!(has_suffix(&chars(".sha256"), &chars(".sha256")));
    assert!(!has_suffix(&chars("sha256"), &chars(".sha256")));
    assert!(!has_suffix(&chars("a.sha256x"), &chars(".sha256")));
    assert!(has_suffix(&chars("abc"), &chars("")));
}

#[test]
fn replacement_agrees_with_std() {
    for (s, from, to) in [
        ("a%20b%20c", "%20", " "),
        ("%20", "%20", " "),
        ("%2%20", "%20", " "),
        ("%%2020", "%20", " "),
        ("aaa", "aa", "b"),
        ("aaaa", "aa", "a"),
        ("abc", "x", "y"),
        ("", "x", "y"),
        ("abab", "ab", ""),
    ] {
        assert_eq!(replace(s, from, to), s.replace(from, to), "for {:?}", (s, from, to));
    }
}

#[test]
fn empty_pattern_is_replaced_nowhere() {
    assert_eq!(replace("abc", "", "-"), "abc");
}

#[test]
fn appending_characters() {
    let mut out = chars("ab");
    push_all(&mut out, &chars("cd"));
    push_all(&mut out, &[]);
    assert_eq!(out, chars("abcd"));
}
