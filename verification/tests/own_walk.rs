//! The walk's rules, field values read from metadata, patterns in
//! conditions, and the order and paging of buffered rows.

use fselect::expr::Expr;
use fselect::field::Field;
use fselect::operators::Op;
use fselect::query::{RootOptions, TraversalMode};
use fselect::search::{conforms, glob_outcome, like_outcome, Descent, Value};
use fselect::config::Config;
use fselect::dockerignore::dockerignore_filters_from_lines;
use fselect::gitignore::gitignore_filters_from_lines;
use fselect::hgignore::HgignoreFilter;
use fselect::walk::{
    entry_field, extension, file_field, field_value, literal_value, mode_field_value, needs_canonical, operand_value, page, value_text,
    walk_settings, FileMetadata, Walk,
};

fn settings(follow: bool) -> fselect::walk::WalkSettings {
    let mut options = RootOptions::new();
    options.symlinks = follow;
    options.min_depth = 2;
    options.max_depth = 3;
    options.traversal = TraversalMode::Dfs;
    walk_settings(&options, None, None, None)
}

#[test]
fn ignore_files_follow_the_root_then_the_configuration() {
    let mut options = RootOptions::new();
    options.gitignore = Some(false);
    let s = walk_settings(&options, Some(true), Some(true), None);
    assert!(!s.apply_gitignore);
    assert!(s.apply_hgignore);
    assert!(!s.apply_dockerignore);
    assert!(needs_canonical(&s));
    assert!(!needs_canonical(&walk_settings(&RootOptions::new(), None, None, None)));
}

#[test]
fn loops_are_entered_once() {
    let mut walk = Walk::new(settings(true), false, 0);
    assert!(walk.enter_dir(Some("/a")));
    assert!(walk.enter_dir(Some("/a/b")));
    assert!(!walk.enter_dir(Some("/a")));
    let mut plain = Walk::new(settings(false), false, 0);
    assert!(plain.enter_dir(Some("/a")));
    assert!(plain.enter_dir(Some("/a")));
}

#[test]
fn directories_wait_in_order() {
    let mut walk = Walk::new(settings(false), false, 0);
    walk.queue_dir("x".to_string(), 1);
    walk.queue_dir("y".to_string(), 2);
    assert_eq!(walk.next_dir(), Some(("x".to_string(), 1)));
    assert_eq!(walk.next_dir(), Some(("y".to_string(), 2)));
    assert_eq!(walk.next_dir(), None);
}

#[test]
fn the_limit_stops_an_unbuffered_walk() {
    let mut walk = Walk::new(settings(false), false, 2);
    walk.record_found();
    assert!(!walk.stopped());
    walk.record_found();
    assert!(walk.stopped());
    let mut buffered = Walk::new(settings(false), true, 2);
    buffered.record_found();
    buffered.record_found();
    assert!(!buffered.stopped());
}

#[test]
fn entries_are_planned_by_depth() {
    let walk = Walk::new(settings(false), false, 0);
    let p = walk.plan(1, true, false, false);
    assert!(!p.check);
    assert_eq!(p.descend, Descent::Now);
    let p = walk.plan(3, true, true, false);
    assert!(p.check);
    assert!(!p.search_archive);
    assert_eq!(p.descend, Descent::No);
}

fn meta() -> FileMetadata {
    FileMetadata {
        name: "main.rs".to_string(),
        path: "src/main.rs".to_string(),
        size: 1234,
        is_dir: false,
        is_file: true,
        is_symlink: false,
        mode: Some(0o100644),
        uid: Some(1000),
        gid: None,
    }
}

#[test]
fn fields_come_from_metadata() {
    let m = meta();
    assert_eq!(value_text(&field_value(Field::Name, &m).unwrap()), Some("main.rs".to_string()));
    assert_eq!(value_text(&field_value(Field::Size, &m).unwrap()), Some("1234".to_string()));
    assert_eq!(value_text(&field_value(Field::IsFile, &m).unwrap()), Some("true".to_string()));
    assert!(field_value(Field::Gid, &m).is_none());
    assert_eq!(value_text(&mode_field_value(Field::Mode, 0o100644).unwrap()), Some("-rw-r--r--".to_string()));
    assert_eq!(value_text(&mode_field_value(Field::OtherWrite, 0o100644).unwrap()), Some("false".to_string()));
    assert!(mode_field_value(Field::Name, 0o100644).is_none());
}

#[test]
fn written_values_take_the_type_compared_with() {
    let n = Value::Int(0);
    assert_eq!(value_text(&literal_value(&"42".to_string(), Some(&n))), Some("42".to_string()));
    assert_eq!(value_text(&literal_value(&"x".to_string(), Some(&n))), Some("x".to_string()));
    let fields = vec![(Field::Size, Value::Int(1234))];
    let size = operand_value(&Expr::field(Field::Size), &fields, None).unwrap();
    assert_eq!(value_text(&size), Some("1234".to_string()));
    assert!(operand_value(&Expr::field(Field::Name), &fields, None).is_none());
}

#[test]
fn globs_and_like_patterns_match_whole_texts() {
    assert!(glob_outcome(false, "main.rs", "*.rs"));
    assert!(!glob_outcome(false, "main.rsx", "*.rs"));
    assert!(glob_outcome(true, "main.c", "*.rs"));
    assert!(glob_outcome(false, "a.rs", "?.rs"));
    assert_eq!(like_outcome(false, "report-2018-01-02", "%report-2018-__-__"), Ok(true));
    assert_eq!(like_outcome(false, "report.txt", "%.tmp"), Ok(false));
    assert_eq!(like_outcome(true, "report.txt", "%.tmp"), Ok(true));
    let name = Expr::field(Field::Name);
    let pattern = Expr::value("*.rs".to_string());
    let vals = vec![(name.to_string(), Value::Text("main.rs".to_string())), (pattern.to_string(), Value::Text("*.rs".to_string()))];
    let e = Expr::op(Expr::field(Field::Name), Op::Eq, Expr::value("*.rs".to_string()));
    assert_eq!(conforms(&e, &vals), Some(Ok(true)));
    let e = Expr::op(Expr::field(Field::Name), Op::NotLike, Expr::value("*.rs".to_string()));
    assert_eq!(conforms(&e, &vals), Some(Ok(true)));
}

#[test]
fn rows_are_ordered_then_paged() {
    let rows = vec![
        (vec![Value::Int(3)], "c".to_string()),
        (vec![Value::Int(1)], "a".to_string()),
        (vec![Value::Int(2)], "b".to_string()),
        (vec![Value::Int(1)], "a2".to_string()),
    ];
    assert_eq!(page(&rows, &vec![true], 0, 0), vec!["a", "a2", "b", "c"]);
    assert_eq!(page(&rows, &vec![false], 0, 0), vec!["c", "b", "a", "a2"]);
    assert_eq!(page(&rows, &vec![true], 1, 2), vec!["a2", "b"]);
    assert_eq!(page(&rows, &vec![true], 5, 2), Vec::<String>::new());
    assert_eq!(page(&rows, &vec![], 0, 3), vec!["c", "a", "b"]);
}

#[test]
fn ignored_entries_are_neither_checked_nor_entered() {
    let mut options = RootOptions::new();
    options.traversal = TraversalMode::Dfs;
    let walk = Walk::new(walk_settings(&options, Some(true), None, Some(true)), false, 0);
    let p = walk.plan(1, true, true, true);
    assert!(!p.check);
    assert!(!p.search_archive);
    assert_eq!(p.descend, Descent::No);
    let p = walk.plan(1, true, false, false);
    assert!(p.check);
    assert_eq!(p.descend, Descent::Now);

    let git = Some(gitignore_filters_from_lines(&vec!["*.tmp".to_string()], "/r"));
    let docker = dockerignore_filters_from_lines(&vec!["build".to_string()], "/r").unwrap();
    let hg: Vec<HgignoreFilter> = Vec::new();
    assert!(walk.ignored(&git, &hg, &docker, "/r/a.tmp", false));
    assert!(walk.ignored(&git, &hg, &docker, "/r/build", true));
    assert!(!walk.ignored(&git, &hg, &docker, "/r/a.txt", false));
    let plain = Walk::new(walk_settings(&RootOptions::new(), None, None, None), false, 0);
    assert!(!plain.ignored(&git, &hg, &docker, "/r/a.tmp", false));
}

#[test]
fn extensions_are_what_follows_the_last_dot() {
    assert_eq!(extension("archive.tar.gz"), "gz");
    assert_eq!(extension("README"), "");
    assert_eq!(extension("trailing."), "");
    assert_eq!(extension(".bashrc"), "bashrc");
}

#[test]
fn names_give_hidden_files_kinds_and_owners() {
    let config = Config::default();
    let defaults = Config::default();
    let mut m = meta();
    m.name = "photo.JPG".to_string();
    assert_eq!(shown(entry_field(Field::IsImage, &m, &config, &defaults, None, None)), Some("true".to_string()));
    assert_eq!(shown(entry_field(Field::IsVideo, &m, &config, &defaults, None, None)), Some("false".to_string()));
    assert_eq!(shown(entry_field(Field::IsHidden, &m, &config, &defaults, None, None)), Some("false".to_string()));
    assert_eq!(shown(entry_field(Field::Extension, &m, &config, &defaults, None, None)), Some("JPG".to_string()));
    m.name = ".hidden".to_string();
    assert_eq!(shown(entry_field(Field::IsHidden, &m, &config, &defaults, None, None)), Some("true".to_string()));
    assert_eq!(
        shown(entry_field(Field::User, &m, &config, &defaults, Some("alice".to_string()), None)),
        Some("alice".to_string())
    );
    assert_eq!(shown(entry_field(Field::Group, &m, &config, &defaults, None, None)), Some(String::new()));
    assert_eq!(shown(entry_field(Field::Size, &m, &config, &defaults, None, None)), Some("1234".to_string()));
    let mut archives = Config::default();
    archives.is_archive = Some(vec![".zip".to_string()]);
    m.name = "a.tar".to_string();
    assert_eq!(shown(entry_field(Field::IsArchive, &m, &archives, &defaults, None, None)), Some("false".to_string()));
    assert_eq!(shown(entry_field(Field::IsArchive, &m, &config, &defaults, None, None)), Some("true".to_string()));
    m.uid = None;
    assert_eq!(shown(file_field(Field::User, &m, &config, &defaults)), Some(String::new()));
}

fn shown(v: Option<Value>) -> Option<String> {
    v.and_then(|v| value_text(&v))
}
