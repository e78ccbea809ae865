# fselect

Find files with SQL-like queries, for example

    fselect size, path from /home/user where name = '*.cfg' or name = '*.tmp' limit 10 into json

This crate is the verified core of the tool, written in Verus. The
functions in `src/` carry contracts that Verus proves, except the few
trusted wrappers around outside crates and std (each says in its doc
comment what it is believed to do) and the declarations of the
`ResultsFormatter` trait, whose implementations carry the contracts.

## Layout

- `src/lexer.rs`, `src/parser.rs`: the query language. The lexer's
  behaviour is a spec function of the words and its state, and lexing
  keeps the input and restores saved states. The parser reads lexemes on
  demand and keeps them for look-ahead; the roots and their options are
  spec functions of the lexemes, and so are field lists made of words and
  conditions made of words (comparisons, `between`, `in`, `not`); every
  query it returns is well-shaped.
- `src/expr.rs`, `src/operators.rs`, `src/field.rs`, `src/function.rs`,
  `src/query.rs`: the query tree, its operators and names; the values of
  the functions that follow from their arguments.
- `src/gitignore.rs`, `src/dockerignore.rs`, `src/hgignore.rs`: ignore-file
  lines turned into regular expressions and the rules that decide what
  they ignore.
- `src/mode.rs`, `src/output.rs`, `src/config.rs`, `src/paths.rs`,
  `src/cli.rs`: file modes, result formats, configuration defaults, home
  directories in roots and the command line words.
- `src/search.rs`: whether a file meets a `where` condition, decided from
  the values its operands take for the file (comparison tables per value
  type, date spans, `in` lists, `exists`, globs, LIKE patterns and regular
  expressions, the short-circuit of `and`/`or`).
- `src/walk.rs`: the walk of each root (its settings, link loops, depth
  bounds, depth-first or breadth-first order, the limit), field values
  from file metadata, and the order, offset and limit of buffered rows.
- `src/strings.rs`, `src/pattern.rs`: text helpers, and the `regex` crate
  behind trusted wrappers.
- `app/`: the command line program: reading of files, directories and
  the environment, and the search loop that performs what `src/walk.rs`
  decides. The program searches by the file's name, path, size, type,
  mode and owner ids; other fields (dates, contents, media, archives) and
  aggregate columns are not read by it, and ignore files are not applied.
- `tests/`: the tests, run against the compiled library.
