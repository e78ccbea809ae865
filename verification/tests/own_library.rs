//! The smaller pieces of the library: home directories in roots, command
//! line words, saved lexer states and operator negation.

use fselect::cli::{info_request, leading_flag, query_exit_status, shell_command, Flag, InfoRequest, ShellCommand};
use fselect::lexer::{Lexeme, Lexer};
use fselect::operators::Op;
use fselect::paths::expand_home;
use fselect::strings::contains_str;

#[test]
fn home_expansion_keeps_the_named_pieces() {
    assert_eq!(expand_home("~/a//./b/", "/home/u"), "/home/u/a/b");
    assert_eq!(expand_home("~/../x", "/home/u"), "/home/u/../x");
    assert_eq!(expand_home("~", "/home/u"), "/home/u/");
    assert_eq!(expand_home("~/x", "/"), "/x");
    assert_eq!(expand_home("~/x", ""), "x");
    assert_eq!(expand_home("~user/docs", "/home/u"), "/home/u/docs");
}

#[test]
fn info_requests() {
    assert_eq!(info_request("--version"), Some(InfoRequest::Version));
    assert_eq!(info_request("-V"), Some(InfoRequest::Version));
    assert_eq!(info_request("--HELP"), Some(InfoRequest::Help));
    assert_eq!(info_request("/?"), Some(InfoRequest::Help));
    assert_eq!(info_request("--fields"), Some(InfoRequest::Fields));
    assert_eq!(info_request("--functions"), Some(InfoRequest::Functions));
    assert_eq!(info_request("--root-options"), Some(InfoRequest::RootOptions));
    assert_eq!(info_request("--output-formats"), Some(InfoRequest::OutputFormats));
    assert_eq!(info_request("name"), None);
}

#[test]
fn leading_flags() {
    assert_eq!(leading_flag("--no-color"), Some(Flag::NoColor));
    assert_eq!(leading_flag("-i"), Some(Flag::Interactive));
    assert_eq!(leading_flag("--config"), Some(Flag::Config));
    assert_eq!(leading_flag("--no-errors"), Some(Flag::NoErrors));
    assert_eq!(leading_flag("--us-dates"), Some(Flag::UsDates));
    assert_eq!(leading_flag("name"), None);
}

#[test]
fn shell_commands() {
    assert_eq!(shell_command("quit"), ShellCommand::Quit);
    assert_eq!(shell_command("exit"), ShellCommand::Quit);
    assert_eq!(shell_command("help"), ShellCommand::Help);
    assert_eq!(shell_command("pwd"), ShellCommand::Pwd);
    assert_eq!(shell_command("cd /tmp"), ShellCommand::ChangeDir);
    assert_eq!(shell_command("cd"), ShellCommand::ChangeDir);
    assert_eq!(shell_command("cdrom"), ShellCommand::Query);
    assert_eq!(shell_command("name from /tmp"), ShellCommand::Query);
}

#[test]
fn exit_statuses() {
    assert_eq!(query_exit_status(true, true, 0), 2);
    assert_eq!(query_exit_status(false, false, 0), 2);
    assert_eq!(query_exit_status(false, true, 3), 1);
    assert_eq!(query_exit_status(false, true, 0), 0);
}

#[test]
fn infix_search() {
    assert!(contains_str("--no-color", "no-color"));
    assert!(contains_str("abc", ""));
    assert!(!contains_str("ab", "abc"));
    assert!(!contains_str("nocolour", "nocolor"));
}

#[test]
fn restoring_a_saved_state_reads_as_before() {
    let mut plain = Lexer::new(vec!["select name from /tmp where size > 3".to_string()]);
    let mut saved = Lexer::new(vec!["select name from /tmp where size > 3".to_string()]);
    for _ in 0..5 {
        assert_eq!(plain.next_lexeme(), saved.next_lexeme());
    }
    saved.push_state();
    saved.pop_state();
    loop {
        let a = plain.next_lexeme();
        let b = saved.next_lexeme();
        assert_eq!(a, b);
        if a.is_none() {
            break;
        }
    }
}

#[test]
fn a_fresh_state_reads_differently() {
    // After `where`, `and` is a keyword; a fresh state reads it as a word.
    let mut lexer = Lexer::new(vec!["where size > 1 and".to_string()]);
    for _ in 0..4 {
        lexer.next_lexeme();
    }
    lexer.push_state();
    assert_eq!(lexer.next_lexeme(), Some(Lexeme::RawString(String::from("and"))));
}

#[test]
fn operator_spellings_ignore_case() {
    assert_eq!(Op::from("GTE".to_string()), Some(Op::Gte));
    assert_eq!(Op::from("NotLike".to_string()), Some(Op::NotLike));
    assert_eq!(Op::from_with_not("=".to_string(), true), Some(Op::Ne));
}
