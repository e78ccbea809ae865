//! Roots read as regular expressions, part by part.

use fselect::pattern::Pattern;
use fselect::rx_roots::{anchored, append_part, join_child, looks_like_regexp, path_parts, regexp_bases, regexp_root_step};

#[test]
fn paths_split_at_slashes() {
    assert_eq!(path_parts("/home/x"), vec!["", "home", "x"]);
    assert_eq!(path_parts("a"), vec!["a"]);
    assert_eq!(path_parts(""), vec![""]);
    assert_eq!(path_parts("a//b/"), vec!["a", "", "b", ""]);
}

#[test]
fn parts_with_pattern_characters_read_as_patterns() {
    assert!(looks_like_regexp("ab*"));
    assert!(looks_like_regexp("(x|y)"));
    assert!(!looks_like_regexp("plain.name"));
    assert_eq!(anchored("a.c"), "^a.c$");
}

#[test]
fn matching_directories_are_kept_in_order() {
    let rx = Pattern::new(&anchored("b.*")).unwrap();
    let listing = vec![
        ("bin".to_string(), true),
        ("boot".to_string(), false),
        ("abc".to_string(), true),
        ("build".to_string(), true),
    ];
    assert_eq!(regexp_root_step("/", &rx, &listing), vec!["/bin", "/build"]);
    assert_eq!(regexp_root_step("", &rx, &listing), vec!["bin", "build"]);
    assert_eq!(regexp_root_step("/usr", &rx, &listing), vec!["/usr/bin", "/usr/build"]);
    assert_eq!(join_child("/usr/", "lib"), "/usr/lib");
}

#[test]
fn plain_parts_are_appended_to_every_base() {
    assert_eq!(append_part(&Vec::new(), "src"), vec!["src"]);
    assert_eq!(append_part(&vec!["a".to_string(), "b".to_string()], "src"), vec!["a/src", "b/src"]);
    assert_eq!(regexp_bases(Vec::new(), "x*"), vec![""]);
    assert_eq!(regexp_bases(vec!["/a".to_string()], "x*"), vec!["/a"]);
}
