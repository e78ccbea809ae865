//! `.dockerignore` patterns as regular expressions anchored at the
//! context root, and which paths they exclude.

use fselect::dockerignore::{
    convert_dockerignore_glob, convert_dockerignore_pattern, dockerignore_filters_from_lines,
    matches_dockerignore_filter, DockerignoreFilter,
};
use fselect::pattern::Pattern;

#[test]
fn negate_pattern_removes_only_leading_exclamation() {
    let filter = convert_dockerignore_pattern("!foo!bar", "/tmp").unwrap();
    assert!(filter.negate);
    let regex_str = filter.regex.as_str();
    assert!(
        regex_str.contains("foo!bar") || regex_str.contains("foo\\!bar"),
        "pattern should preserve non-leading ! but got: {}",
        regex_str
    );
}

#[test]
fn last_matching_rule_wins() {
    let filters = vec![
        DockerignoreFilter::new(Pattern::new(".*\\.log$").unwrap(), false),
        DockerignoreFilter::new(Pattern::new(".*important\\.log$").unwrap(), true),
        DockerignoreFilter::new(Pattern::new(".*\\.log$").unwrap(), false),
    ];
    assert!(
        matches_dockerignore_filter(&filters, "important.log"),
        "last non-negated *.log should override the negation"
    );
}

#[test]
fn path_with_dots_is_regex_escaped() {
    let result = convert_dockerignore_glob("*.txt", "/home/user/my.project");
    let regex = result.unwrap();
    let regex_str = regex.as_str();
    assert!(
        regex_str.contains("my\\.project"),
        "dots in path should be escaped but got: {}",
        regex_str
    );
}

#[test]
fn char_class_matches_listed_characters() {
    let filter = convert_dockerignore_pattern("*.[ch]", "/ctx").unwrap();
    assert!(filter.regex.is_match("/ctx/main.c"));
    assert!(filter.regex.is_match("/ctx/util.h"));
    assert!(!filter.regex.is_match("/ctx/main.o"));
}

#[test]
fn char_class_supports_ranges() {
    let filter = convert_dockerignore_pattern("file[a-c].txt", "/ctx").unwrap();
    assert!(filter.regex.is_match("/ctx/filea.txt"));
    assert!(filter.regex.is_match("/ctx/filec.txt"));
    assert!(!filter.regex.is_match("/ctx/filed.txt"));
}

#[test]
fn char_class_supports_negation() {
    let filter = convert_dockerignore_pattern("file[^a].txt", "/ctx").unwrap();
    assert!(filter.regex.is_match("/ctx/fileb.txt"));
    assert!(!filter.regex.is_match("/ctx/filea.txt"));
}

#[test]
fn unterminated_char_class_is_treated_as_literal() {
    let filter = convert_dockerignore_pattern("foo[bar", "/ctx").unwrap();
    assert!(filter.regex.is_match("/ctx/foo[bar"));
    assert!(!filter.regex.is_match("/ctx/foobar"));
}

#[test]
fn glob_with_plus_is_escaped() {
    let result = convert_dockerignore_glob("a+b.txt", "/tmp");
    assert!(result.is_ok());
    let regex = result.unwrap();
    let regex_str = regex.as_str();
    assert!(
        regex_str.contains("\\+"),
        "plus should be escaped but got: {}",
        regex_str
    );
}

#[test]
fn pattern_matches_whole_component_not_prefix() {
    let filter = convert_dockerignore_pattern("foo", "/ctx").unwrap();
    assert!(filter.regex.is_match("/ctx/foo"));
    assert!(
        filter.regex.is_match("/ctx/foo/sub/file.txt"),
        "a matched directory excludes its subtree"
    );
    assert!(
        !filter.regex.is_match("/ctx/foobar"),
        "pattern must not match by prefix"
    );
}

#[test]
fn pattern_is_anchored_to_context_root() {
    let filter = convert_dockerignore_pattern("foo", "/ctx").unwrap();
    assert!(
        !filter.regex.is_match("/ctx/a/foo"),
        "plain patterns are root-relative in Docker, not any-depth"
    );
    assert!(
        !filter.regex.is_match("/other/ctx/foo"),
        "pattern must not match under a different root"
    );
}

#[test]
fn doublestar_matches_any_depth_including_root() {
    let filter = convert_dockerignore_pattern("**/foo", "/ctx").unwrap();
    assert!(filter.regex.is_match("/ctx/foo"), "`**/` includes zero directories");
    assert!(filter.regex.is_match("/ctx/a/b/foo"));
    assert!(!filter.regex.is_match("/ctx/a/foobar"));
}

#[test]
fn star_does_not_cross_separators() {
    let filter = convert_dockerignore_pattern("*.md", "/ctx").unwrap();
    assert!(filter.regex.is_match("/ctx/readme.md"));
    assert!(
        !filter.regex.is_match("/ctx/sub/readme.md"),
        "`*.md` matches only at the context root in Docker"
    );
}

#[test]
fn trailing_slash_matches_directory_and_contents() {
    let filter = convert_dockerignore_pattern("build/", "/ctx").unwrap();
    assert!(filter.regex.is_match("/ctx/build"));
    assert!(filter.regex.is_match("/ctx/build/out/app.bin"));
    assert!(!filter.regex.is_match("/ctx/builder"));
}

#[test]
fn test_all_slashes_pattern_rejected() {
    let result = convert_dockerignore_glob("///", "/tmp");
    assert!(result.is_err(), "pattern of only slashes should be rejected");
}
#[test]
fn indented_comment_lines_are_skipped() {
    let lines = vec!["   # this is an indented comment".to_string(), "real_pattern".to_string()];
    let filters = dockerignore_filters_from_lines(&lines, "/ctx").unwrap();
    assert_eq!(filters.len(), 1);
}

#[test]
fn pattern_lines_are_trimmed() {
    let lines = vec!["foo ".to_string(), "  !bar".to_string()];
    let filters = dockerignore_filters_from_lines(&lines, "/ctx").unwrap();
    assert_eq!(filters.len(), 2);
    assert!(matches_dockerignore_filter(&filters, "/ctx/foo"));
    assert!(filters[1].negate);
    assert!(filters[1].regex.is_match("/ctx/bar"));
}

#[test]
fn byte_order_mark_only_leaves_the_first_line() {
    let lines = vec!["\u{feff}foo".to_string(), "\u{feff}bar".to_string()];
    let filters = dockerignore_filters_from_lines(&lines, "/ctx").unwrap();
    assert!(matches_dockerignore_filter(&filters, "/ctx/foo"));
    assert!(!matches_dockerignore_filter(&filters, "/ctx/bar"));
}

#[test]
fn first_failing_line_is_the_error() {
    let lines = vec!["ok".to_string(), "/".to_string(), "(".to_string()];
    assert_eq!(
        dockerignore_filters_from_lines(&lines, "/ctx").err(),
        Some("Error creating regex while parsing .dockerignore glob: /".to_string())
    );
}

#[test]
fn separators_are_normalized_before_matching() {
    let filters = vec![convert_dockerignore_pattern("a/b", "/ctx").unwrap()];
    assert!(matches_dockerignore_filter(&filters, "\\ctx\\a\\b"));
    assert!(matches_dockerignore_filter(&filters, "//ctx//a//b"));
    assert!(!matches_dockerignore_filter(&filters, "/ctx/a/c"));
}

#[test]
fn glob_text_is_exact() {
    let p = convert_dockerignore_glob("**/x*?.[ab]", "/c.d").unwrap();
    assert_eq!(p.as_str(), "^/c\\.d/(?:.*/)?x[^/]*[^/]\\.[ab](?:/.*)?$");
    assert_eq!(
        convert_dockerignore_glob("///", "/tmp").err(),
        Some("Error parsing .dockerignore pattern: ///".to_string())
    );
}
