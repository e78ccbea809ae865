//! What the leading command line arguments ask for, and the exit status of
//! a query.

use vstd::prelude::*;

use crate::strings::{
    ascii_lower, contains_str, has_infix, has_prefix, starts_with, str_eq, to_ascii_lowercase,
};

verus! {

/// A request for information instead of a query.
#[derive(Debug, Clone, Copy, PartialEq, Eq, Structural)]
pub enum InfoRequest {
    Version,
    Help,
    Fields,
    Functions,
    RootOptions,
    OutputFormats,
}

/// A setting given before the query.
#[derive(Debug, Clone, Copy, PartialEq, Eq, Structural)]
pub enum Flag {
    NoColor,
    Interactive,
    Config,
    NoErrors,
    UsDates,
}

/// What a first argument, lower-cased in ASCII, asks for: the version, the
/// help text, or the words that shells complete.
pub open spec fn spec_info_request(a: Seq<char>) -> Option<InfoRequest> {
    let w = ascii_lower(a);
    if has_infix(w, "version"@) || has_prefix(w, "-v"@) {
        Some(InfoRequest::Version)
    } else if has_infix(w, "help"@) || has_prefix(w, "-h"@) || has_prefix(w, "/?"@) || has_prefix(
        w,
        "/h"@,
    ) {
        Some(InfoRequest::Help)
    } else if has_prefix(w, "--fields"@) {
        Some(InfoRequest::Fields)
    } else if has_prefix(w, "--functions"@) {
        Some(InfoRequest::Functions)
    } else if has_prefix(w, "--root-options"@) {
        Some(InfoRequest::RootOptions)
    } else if has_prefix(w, "--output-formats"@) {
        Some(InfoRequest::OutputFormats)
    } else {
        None
    }
}

/// The setting a leading argument, lower-cased in ASCII, gives; `None`
/// where the query begins.
pub open spec fn spec_leading_flag(a: Seq<char>) -> Option<Flag> {
    let w = ascii_lower(a);
    if has_infix(w, "nocolor"@) || has_infix(w, "no-color"@) {
        Some(Flag::NoColor)
    } else if has_prefix(w, "-i"@) || has_prefix(w, "--i"@) || has_prefix(w, "/i"@) {
        Some(Flag::Interactive)
    } else if has_prefix(w, "-c"@) || has_prefix(w, "--config"@) || has_prefix(w, "/c"@) {
        Some(Flag::Config)
    } else if has_prefix(w, "--no-error"@) {
        Some(Flag::NoErrors)
    } else if has_prefix(w, "--us-date"@) {
        Some(Flag::UsDates)
    } else {
        None
    }
}

/// A line typed in interactive mode.
#[derive(Debug, Clone, Copy, PartialEq, Eq, Structural)]
pub enum ShellCommand {
    Quit,
    Help,
    Pwd,
    ChangeDir,
    Query,
}

/// What a line of interactive mode asks for, given the line trimmed and
/// lower-cased in ASCII: `quit` or `exit`, `help`, `pwd`, `cd` with a
/// path, or else a query.
pub open spec fn spec_shell_command(t: Seq<char>) -> ShellCommand {
    if t == "quit"@ || t == "exit"@ {
        ShellCommand::Quit
    } else if t == "help"@ {
        ShellCommand::Help
    } else if t == "pwd"@ {
        ShellCommand::Pwd
    } else if t == "cd"@ || has_prefix(t, "cd "@) {
        ShellCommand::ChangeDir
    } else {
        ShellCommand::Query
    }
}

/// What a trimmed, lower-cased line of interactive mode asks for.
pub fn shell_command(trimmed: &str) -> (r: ShellCommand)
    ensures
        r == spec_shell_command(trimmed@),
{
    if str_eq(trimmed, "quit") || str_eq(trimmed, "exit") {
        ShellCommand::Quit
    } else if str_eq(trimmed, "help") {
        ShellCommand::Help
    } else if str_eq(trimmed, "pwd") {
        ShellCommand::Pwd
    } else if str_eq(trimmed, "cd") || starts_with(trimmed, "cd ") {
        ShellCommand::ChangeDir
    } else {
        ShellCommand::Query
    }
}

/// What the first argument asks for, if it is no query.
pub fn info_request(arg: &str) -> (r: Option<InfoRequest>)
    ensures
        r == spec_info_request(arg@),
{
    let lower = to_ascii_lowercase(arg);
    let w = lower.as_str();
    if contains_str(w, "version") || starts_with(w, "-v") {
        Some(InfoRequest::Version)
    } else if contains_str(w, "help") || starts_with(w, "-h") || starts_with(w, "/?") || starts_with(
        w,
        "/h",
    ) {
        Some(InfoRequest::Help)
    } else if starts_with(w, "--fields") {
        Some(InfoRequest::Fields)
    } else if starts_with(w, "--functions") {
        Some(InfoRequest::Functions)
    } else if starts_with(w, "--root-options") {
        Some(InfoRequest::RootOptions)
    } else if starts_with(w, "--output-formats") {
        Some(InfoRequest::OutputFormats)
    } else {
        None
    }
}

/// The setting a leading argument gives, if any.
pub fn leading_flag(arg: &str) -> (r: Option<Flag>)
    ensures
        r == spec_leading_flag(arg@),
{
    let lower = to_ascii_lowercase(arg);
    let w = lower.as_str();
    if contains_str(w, "nocolor") || contains_str(w, "no-color") {
        Some(Flag::NoColor)
    } else if starts_with(w, "-i") || starts_with(w, "--i") || starts_with(w, "/i") {
        Some(Flag::Interactive)
    } else if starts_with(w, "-c") || starts_with(w, "--config") || starts_with(w, "/c") {
        Some(Flag::Config)
    } else if starts_with(w, "--no-error") {
        Some(Flag::NoErrors)
    } else if starts_with(w, "--us-date") {
        Some(Flag::UsDates)
    } else {
        None
    }
}

/// The exit status of a query: 2 when words are left after it or it does
/// not parse, 1 when the search met errors, 0 otherwise.
pub fn query_exit_status(trailing_words: bool, parsed: bool, search_errors: usize) -> (r: u8)
    ensures
        r == (if trailing_words || !parsed {
            2u8
        } else if search_errors > 0 {
            1u8
        } else {
            0u8
        }),
{
    if trailing_words || !parsed {
        2
    } else if search_errors > 0 {
        1
    } else {
        0
    }
}

} // verus!
