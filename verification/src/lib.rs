//! Find files with SQL-like queries: the query language (lexer, parser,
//! expression tree, operators), the values of the functions that follow
//! from their arguments, the ignore-file rules of Git, Docker and
//! Mercurial, file-mode rendering, configuration defaults and result
//! formatting.

pub mod strings;
pub mod operators;
pub mod field;
pub mod function;
pub mod expr;
pub mod query;
pub mod columns;
pub mod mode;
pub mod config;
pub mod output;
pub mod pattern;
pub mod paths;
pub mod gitignore;
pub mod dockerignore;
pub mod hgignore;
pub mod lexer;
pub mod parser;
pub mod cli;
pub mod search;
pub mod walk;
pub mod rx_roots;
