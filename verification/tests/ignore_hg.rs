//! `.hgignore` patterns: globs, rooted globs and regular expressions,
//! comments, and which paths they ignore.

use fselect::hgignore::{
    convert_hgignore_glob, convert_hgignore_pattern, convert_hgignore_regexp, hg_line,
    matches_hgignore_filter, strip_hg_comment, HgLine, HgStep, HgignoreFilter, HgignoreReader,
    Syntax,
};
use fselect::pattern::Pattern;

#[test]
fn glob_question_mark_matches_exactly_one_char() {
    let regex = convert_hgignore_glob("a?b", "/tmp", false).unwrap();
    assert!(regex.is_match("/tmp/axb"), "? should match single char");
    assert!(
        !regex.is_match("/tmp/axxb"),
        "? should not match two chars but got match"
    );
}

#[test]
fn glob_path_with_dots_is_regex_escaped() {
    let result = convert_hgignore_glob("*.txt", "/home/user/my.project", false);
    let regex = result.unwrap();
    let regex_str = regex.as_str();
    assert!(
        regex_str.contains("my\\.project"),
        "dots in path should be escaped but got: {}",
        regex_str
    );
}

#[test]
fn regexp_path_with_dots_is_regex_escaped() {
    let result = convert_hgignore_regexp("foo", "/home/user/my.project");
    let regex = result.unwrap();
    let regex_str = regex.as_str();
    assert!(
        regex_str.contains("my\\.project"),
        "dots in path should be escaped but got: {}",
        regex_str
    );
}

#[test]
fn glob_brackets_are_escaped() {
    let result = convert_hgignore_glob("[test]", "/tmp", false);
    let regex = result.unwrap();
    let regex_str = regex.as_str();
    assert!(
        regex_str.contains("\\[") && regex_str.contains("\\]"),
        "brackets should be escaped but got: {}",
        regex_str
    );
}

#[test]
fn glob_plus_and_pipe_are_escaped() {
    let regex = convert_hgignore_glob("c++", "/repo", false).unwrap();
    assert!(regex.is_match("/repo/c++"), "+ should be literal");
    assert!(!regex.is_match("/repo/ccc"), "+ should not repeat");

    let regex = convert_hgignore_glob("a|b*", "/repo", false).unwrap();
    assert!(regex.is_match("/repo/a|bc"), "| should be literal");
    assert!(!regex.is_match("/repo/ab.txt"), "| should not alternate");
}

#[test]
fn glob_double_star_slash_matches_zero_dirs() {
    let regex = convert_hgignore_glob("**/foo", "/repo", false).unwrap();
    assert!(regex.is_match("/repo/foo"), "**/ should match zero dirs");
    assert!(regex.is_match("/repo/a/b/foo"), "**/ should match many dirs");
}

#[test]
fn regexp_caret_anchored_includes_separator() {
    let regex = convert_hgignore_regexp("^src/main", "/repo").unwrap();
    assert!(regex.is_match("/repo/src/main.rs"), "^-anchored pattern should match");
    assert!(!regex.is_match("/reposrc/main.rs"), "should not match without separator");
}

#[test]
fn glob_matches_whole_component_not_prefix() {
    let regex = convert_hgignore_glob("foo", "/repo", false).unwrap();
    assert!(regex.is_match("/repo/foo"));
    assert!(regex.is_match("/repo/sub/foo"), "hg globs are unrooted");
    assert!(
        regex.is_match("/repo/foo/inner.txt"),
        "a matched directory covers its contents"
    );
    assert!(!regex.is_match("/repo/foobar"), "must not match by prefix");
}

#[test]
fn glob_repo_prefix_is_start_anchored() {
    let regex = convert_hgignore_glob("foo", "/repo", false).unwrap();
    assert!(
        !regex.is_match("/elsewhere/repo/foo"),
        "repo prefix must match from the start of the path"
    );
}

#[test]
fn regexp_repo_prefix_is_start_anchored() {
    let regex = convert_hgignore_regexp("foo", "/repo").unwrap();
    assert!(regex.is_match("/repo/x/myfoo.txt"), "re.search semantics within the repo");
    assert!(!regex.is_match("/elsewhere/repo/x/foo"));
}

#[test]
fn matches_hgignore_filter_returns_true_when_any_matches() {
    let filters = vec![
        HgignoreFilter::new(Pattern::new("never_matches_xyz").unwrap()),
        HgignoreFilter::new(Pattern::new("foo").unwrap()),
        HgignoreFilter::new(Pattern::new("also_never_xyz").unwrap()),
    ];
    assert!(matches_hgignore_filter(&filters, "some/foo/path"));
}

#[test]
fn matches_hgignore_filter_returns_false_when_none_match() {
    let filters = vec![
        HgignoreFilter::new(Pattern::new("never_a").unwrap()),
        HgignoreFilter::new(Pattern::new("never_b").unwrap()),
    ];
    assert!(!matches_hgignore_filter(&filters, "some/path"));
}
#[test]
fn comments_end_at_unescaped_hashes() {
    assert_eq!(strip_hg_comment("*.log # build logs"), "*.log ");
    assert_eq!(strip_hg_comment("foo\\#bar"), "foo#bar");
    assert_eq!(strip_hg_comment("a\\\\#b"), "a\\\\");
    assert_eq!(strip_hg_comment("#all"), "");
    assert_eq!(strip_hg_comment("plain"), "plain");
}

#[test]
fn lines_are_classified() {
    assert!(matches!(hg_line("   # only a comment"), HgLine::Blank));
    match hg_line("syntax: glob  ") {
        HgLine::SyntaxDirective(s, t) => {
            assert_eq!(s, Some(Syntax::Glob));
            assert_eq!(t, "glob");
        }
        _ => panic!("expected a syntax line"),
    }
    match hg_line("syntax: bogus") {
        HgLine::SyntaxDirective(s, t) => {
            assert_eq!(s, None);
            assert_eq!(t, "bogus");
        }
        _ => panic!("expected a syntax line"),
    }
    match hg_line("subinclude: sub/.hgignore") {
        HgLine::SubInclude(t) => assert_eq!(t, "sub/.hgignore"),
        _ => panic!("expected a subinclude line"),
    }
    match hg_line("*.log # build logs") {
        HgLine::Pattern(t) => assert_eq!(t, "*.log"),
        _ => panic!("expected a pattern"),
    }
}

#[test]
fn rootglob_is_anchored_at_the_root() {
    let f = convert_hgignore_pattern("build", "/repo", &Syntax::RootGlob).unwrap();
    assert!(f.regex.is_match("/repo/build"));
    assert!(f.regex.is_match("/repo/build/o.txt"));
    assert!(!f.regex.is_match("/repo/sub/build"));
    let f = convert_hgignore_pattern("build", "/repo", &Syntax::Glob).unwrap();
    assert!(f.regex.is_match("/repo/sub/build"));
}

#[test]
fn expression_texts_are_exact() {
    let p = convert_hgignore_glob("**/a.b", "/r", false).unwrap();
    assert_eq!(p.as_str(), "^/r/([^/]+/)*(?:.*/)?a\\.b(?:/|$)");
    let p = convert_hgignore_regexp("^^src", "/r").unwrap();
    assert_eq!(p.as_str(), "^/r/src");
    let p = convert_hgignore_regexp("x+", "/r").unwrap();
    assert_eq!(p.as_str(), "^/r/([^/]+/)*.*x+");
    assert!(convert_hgignore_regexp("(", "/r").is_err());
}

fn read_all(lines: &[&str], dir: &str) -> Result<Vec<HgignoreFilter>, String> {
    let mut reader = HgignoreReader::new();
    for line in lines {
        match reader.read_line(line, dir) {
            HgStep::Next | HgStep::UnknownSyntax(_) => {}
            HgStep::Include(_) => reader.include_result(Ok(vec![])),
        }
    }
    reader.finish()
}

#[test]
fn reader_strips_inline_comments() {
    let filters = read_all(&["syntax: glob", "*.log # build logs"], "/repo").unwrap();
    assert_eq!(filters.len(), 1);
    assert!(matches_hgignore_filter(&filters, "/repo/x.log"));
}

#[test]
fn reader_keeps_escaped_hashes() {
    let filters = read_all(&["syntax: glob", "foo\\#bar"], "/repo").unwrap();
    assert_eq!(filters.len(), 1);
    assert!(matches_hgignore_filter(&filters, "/repo/foo#bar"));
}

#[test]
fn reader_skips_only_an_unknown_syntax_line() {
    let mut reader = HgignoreReader::new();
    assert!(matches!(reader.read_line("syntax: glob", "/repo"), HgStep::Next));
    assert!(matches!(reader.read_line("*.log", "/repo"), HgStep::Next));
    match reader.read_line("syntax: bogus", "/repo") {
        HgStep::UnknownSyntax(s) => assert_eq!(s, "bogus"),
        _ => panic!("an unknown syntax is reported"),
    }
    assert!(matches!(reader.read_line("*.tmp", "/repo"), HgStep::Next));
    let filters = reader.finish().unwrap();
    assert_eq!(filters.len(), 2);
    assert!(matches_hgignore_filter(&filters, "/repo/x.log"));
    assert!(matches_hgignore_filter(&filters, "/repo/x.tmp"));
}

#[test]
fn reader_anchors_rootglob_at_the_root() {
    let filters = read_all(&["syntax: rootglob", "build"], "/repo").unwrap();
    assert!(matches_hgignore_filter(&filters, "/repo/build"));
    assert!(matches_hgignore_filter(&filters, "/repo/build/o.txt"));
    assert!(!matches_hgignore_filter(&filters, "/repo/sub/build"));
}

#[test]
fn reader_asks_for_subincludes_and_takes_their_filters() {
    let mut reader = HgignoreReader::new();
    match reader.read_line("subinclude:sub/.hgignore", "/repo") {
        HgStep::Include(path) => assert_eq!(path, "sub/.hgignore"),
        _ => panic!("a subinclude asks for its file"),
    }
    let mut sub = HgignoreReader::new();
    sub.read_line("syntax: glob", "/repo/sub");
    sub.read_line("*.o", "/repo/sub");
    reader.include_result(sub.finish());
    let filters = reader.finish().unwrap();
    assert_eq!(filters.len(), 1);
    assert!(matches_hgignore_filter(&filters, "/repo/sub/a.o"));
    assert!(!matches_hgignore_filter(&filters, "/repo/a.o"));
}

#[test]
fn reader_stops_at_the_first_error() {
    let mut reader = HgignoreReader::new();
    reader.read_line("a(", "/repo");
    reader.read_line("b", "/repo");
    assert!(reader.finish().is_err());
    let mut failing = HgignoreReader::new();
    failing.include_result(Err(String::from("bad include")));
    assert_eq!(failing.finish().err(), Some(String::from("bad include")));
}
