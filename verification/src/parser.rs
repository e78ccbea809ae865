//! Turns the lexemes of a query into a `Query`.
//!
//! The parser reads lexemes from its lexer and keeps every one it has read,
//! so that it can look ahead and read a lexeme again. Expressions follow
//! this grammar:
//!
//! ```text
//! expr        := and (OR and)*
//! and         := cond (AND cond)*
//! cond        := add_sub (OP add_sub)*
//! add_sub     := mul_div (PLUS mul_div)* | mul_div (MINUS mul_div)*
//! mul_div     := paren (MUL paren)* | paren (DIV paren)*
//! paren       := ( expr ) | func_scalar
//! func_scalar := function paren | field | scalar
//! ```

use vstd::prelude::*;

use crate::expr::{expr_eq, empty_node, spec_all_required_fields, spec_required_fields, wadd, Expr};
use crate::field::{spec_parse_field, Field};
use crate::function::{spec_function_from_str, Function};
use crate::lexer::{
    clone_lexeme, join_words, lemma_next_lexeme_advances, part_len, spec_next_lexeme, Lexeme, Lexer, lexer_nth, lexeme_view, opt_lexeme_view, LexemeKind,
    lemma_lexer_nth_after_none,
};
use crate::operators::{lemma_op_negate_involutive, spec_op_from_with_not, spec_op_negate, ArithmeticOp, LogicalOp, Op};
use crate::paths::{expand_home, home_dir, spec_join_below, tail_after_first};
use crate::query::{default_root_options, spec_output_format_from_lower, OutputFormat, Query, Root, RootOptions, TraversalMode};
use crate::strings::{
    spec_parse_usize,
    ascii_lower, has_prefix, parse_u32, parse_usize, starts_with, str_eq, str_to_string, to_ascii_lowercase,
    to_lowercase, spec_parse_u32, unicode_lowercase,
};

verus! {

/// `a` comes no later than `b` in the lexicographic order of triples.
pub open spec fn le3(a: (int, int, int), b: (int, int, int)) -> bool {
    a.0 < b.0 || (a.0 == b.0 && (a.1 < b.1 || (a.1 == b.1 && a.2 <= b.2)))
}

/// `a` comes strictly before `b` in the lexicographic order of triples.
pub open spec fn lt3(a: (int, int, int), b: (int, int, int)) -> bool {
    a.0 < b.0 || (a.0 == b.0 && (a.1 < b.1 || (a.1 == b.1 && a.2 < b.2)))
}

/// The triple with one more lexeme to read again.
pub open spec fn bump(a: (int, int, int)) -> (int, int, int) {
    (a.0, a.1, a.2 + 1)
}

/// The largest number of lexemes the parser keeps.
pub open spec fn keep_limit() -> int {
    isize::MAX - 3
}

/// The text of a word: a quoted or a bare string.
pub open spec fn word_text(l: Option<(LexemeKind, Seq<char>)>) -> Option<Seq<char>> {
    match l {
        Some((kind, t)) => if kind == LexemeKind::String || kind == LexemeKind::RawString {
            Some(t)
        } else {
            None
        },
        None => None,
    }
}

/// The position after reading one more lexeme; it stops at the limit.
pub open spec fn next_pos(p: int) -> int {
    if p < keep_limit() {
        p + 1
    } else {
        p
    }
}

pub struct Parser {
    lexer: Lexer,
    lexemes: Vec<Lexeme>,
    index: isize,
    roots_parsed: bool,
    where_parsed: bool,
    debug: bool,
}

/// The negation of every comparison in an expression: the operators of the
/// node and of its operands are replaced by their negations.
pub open spec fn spec_negate(e: Expr) -> Expr
    decreases e,
{
    Expr {
        left: match e.left {
            Some(l) => Some(Box::new(spec_negate(*l))),
            None => None,
        },
        op: match e.op {
            Some(o) => Some(spec_op_negate(o)),
            None => None,
        },
        right: match e.right {
            Some(r) => Some(Box::new(spec_negate(*r))),
            None => None,
        },
        ..e
    }
}

/// Negating the comparisons of an expression twice gives back the same
/// expression.
pub proof fn lemma_negate_twice(e: Expr)
    ensures
        spec_negate(spec_negate(e)) == e,
    decreases e,
{
    match e.left {
        Some(l) => lemma_negate_twice(*l),
        None => {},
    }
    match e.right {
        Some(r) => lemma_negate_twice(*r),
        None => {},
    }
    match e.op {
        Some(o) => lemma_op_negate_involutive(o),
        None => {},
    }
}

/// Whether a text, lower-cased in ASCII, names a root option: a depth, an
/// archive, link, ignore-file or traversal setting, a regular expression or
/// an alias.
pub open spec fn spec_is_root_option_keyword(s: Seq<char>) -> bool {
    let w = ascii_lower(s);
    w == "depth"@ || w == "mindepth"@ || w == "maxdepth"@ || has_prefix(w, "arc"@) || has_prefix(
        w,
        "sym"@,
    ) || has_prefix(w, "hard"@) || has_prefix(w, "git"@) || has_prefix(w, "hg"@) || has_prefix(
        w,
        "dock"@,
    ) || has_prefix(w, "nogit"@) || has_prefix(w, "nohg"@) || has_prefix(w, "nodock"@) || w
        == "bfs"@ || w == "dfs"@ || has_prefix(w, "regex"@) || w == "as"@
}

/// Where a root list stands while it is read.
pub enum RootsMode {
    From,
    Root,
    Comma,
}

/// Where a list of root options stands while it is read.
#[derive(Clone, Copy, PartialEq, Eq, Structural)]
pub enum OptionsMode {
    Unknown,
    Options,
    MinDepth,
    Depth,
    Alias,
}

/// How far position `p` with `k` lexemes kept is from the limit of what
/// a parser can keep: first by position, then by lexemes kept.
pub open spec fn dec(k: int, p: int) -> (int, int) {
    (
        if p < keep_limit() {
            keep_limit() - p
        } else {
            0
        },
        if k < keep_limit() {
            keep_limit() - k
        } else {
            0
        },
    )
}

pub open spec fn dec_lt(a: (int, int), b: (int, int)) -> bool {
    a.0 < b.0 || (a.0 == b.0 && a.1 < b.1)
}

pub open spec fn dec_le(a: (int, int), b: (int, int)) -> bool {
    a.0 < b.0 || (a.0 == b.0 && a.1 <= b.1)
}

/// The path a root word names: a leading `~` stands for the home
/// directory, when there is one.
pub open spec fn root_path(t: Seq<char>, home: Option<Seq<char>>) -> Seq<char> {
    if has_prefix(t, "~"@) {
        match home {
            Some(h) => spec_join_below(h, tail_after_first(t)),
            None => t,
        }
    } else {
        t
    }
}

/// Root options with every setting but the alias given.
pub open spec fn options_with(
    min_depth: u32,
    max_depth: u32,
    archives: bool,
    symlinks: bool,
    hardlinks: bool,
    gitignore: Option<bool>,
    hgignore: Option<bool>,
    dockerignore: Option<bool>,
    traversal: TraversalMode,
    regexp: bool,
) -> RootOptions {
    RootOptions {
        min_depth,
        max_depth,
        archives,
        symlinks,
        hardlinks,
        gitignore,
        hgignore,
        dockerignore,
        traversal,
        regexp,
        alias: None,
    }
}

/// The outcome of reading root options, with the alias taken as text and
/// left out of the options themselves.
pub open spec fn options_outcome(r: Result<Option<RootOptions>, String>) -> Result<
    Option<(RootOptions, Option<Seq<char>>)>,
    Seq<char>,
> {
    match r {
        Ok(Some(o)) => Ok(
            Some(
                (
                    options_with(
                        o.min_depth,
                        o.max_depth,
                        o.archives,
                        o.symlinks,
                        o.hardlinks,
                        o.gitignore,
                        o.hgignore,
                        o.dockerignore,
                        o.traversal,
                        o.regexp,
                    ),
                    opt_text(o.alias),
                ),
            ),
        ),
        Ok(None) => Ok(None),
        Err(e) => Err(e@),
    }
}

/// Root options with the alias taken as text and left out of the options.
pub open spec fn options_view(o: RootOptions) -> (RootOptions, Option<Seq<char>>) {
    (
        options_with(
            o.min_depth,
            o.max_depth,
            o.archives,
            o.symlinks,
            o.hardlinks,
            o.gitignore,
            o.hgignore,
            o.dockerignore,
            o.traversal,
            o.regexp,
        ),
        opt_text(o.alias),
    )
}

/// A root as its path and its options.
pub open spec fn root_view(r: Root) -> (Seq<char>, (RootOptions, Option<Seq<char>>)) {
    (r.path@, options_view(r.options))
}

pub open spec fn roots_view(v: Seq<Root>) -> Seq<(Seq<char>, (RootOptions, Option<Seq<char>>))> {
    Seq::new(v.len(), |i: int| root_view(v[i]))
}

proof fn lemma_roots_view_push(v: Seq<Root>, x: Root)
    ensures
        roots_view(v.push(x)) == roots_view(v).push(root_view(x)),
{
    assert(roots_view(v.push(x)) =~= roots_view(v).push(root_view(x)));
}

/// The outcome of reading roots, each root as its path and options.
pub open spec fn roots_outcome(r: Result<Vec<Root>, String>) -> Result<
    Seq<(Seq<char>, (RootOptions, Option<Seq<char>>))>,
    Seq<char>,
> {
    match r {
        Ok(v) => Ok(roots_view(v@)),
        Err(e) => Err(e@),
    }
}

/// What a list of root options has given when it stops: nothing when no
/// option word was read, else the options gathered.
pub open spec fn options_done(m: OptionsMode, o: RootOptions, alias: Option<Seq<char>>) -> Result<
    Option<(RootOptions, Option<Seq<char>>)>,
    Seq<char>,
> {
    if m == OptionsMode::Unknown {
        Ok(None)
    } else {
        Ok(Some((o, alias)))
    }
}

/// The options that an option word sets, and the mode it leaves the list
/// in; `None` for a word that is no option.
pub open spec fn option_word(w: Seq<char>, o: RootOptions) -> Option<(OptionsMode, RootOptions)> {
    if w == "mindepth"@ {
        Some((OptionsMode::MinDepth, o))
    } else if w == "maxdepth"@ || w == "depth"@ {
        Some((OptionsMode::Depth, o))
    } else if has_prefix(w, "arc"@) {
        Some((OptionsMode::Options, RootOptions { archives: true, ..o }))
    } else if has_prefix(w, "sym"@) {
        Some((OptionsMode::Options, RootOptions { symlinks: true, ..o }))
    } else if has_prefix(w, "hard"@) {
        Some((OptionsMode::Options, RootOptions { hardlinks: true, ..o }))
    } else if has_prefix(w, "git"@) {
        Some((OptionsMode::Options, RootOptions { gitignore: Some(true), ..o }))
    } else if has_prefix(w, "hg"@) {
        Some((OptionsMode::Options, RootOptions { hgignore: Some(true), ..o }))
    } else if has_prefix(w, "dock"@) {
        Some((OptionsMode::Options, RootOptions { dockerignore: Some(true), ..o }))
    } else if has_prefix(w, "nogit"@) {
        Some((OptionsMode::Options, RootOptions { gitignore: Some(false), ..o }))
    } else if has_prefix(w, "nohg"@) {
        Some((OptionsMode::Options, RootOptions { hgignore: Some(false), ..o }))
    } else if has_prefix(w, "nodock"@) {
        Some((OptionsMode::Options, RootOptions { dockerignore: Some(false), ..o }))
    } else if w == "bfs"@ {
        Some((OptionsMode::Options, RootOptions { traversal: TraversalMode::Bfs, ..o }))
    } else if w == "dfs"@ {
        Some((OptionsMode::Options, RootOptions { traversal: TraversalMode::Dfs, ..o }))
    } else if has_prefix(w, "regex"@) {
        Some((OptionsMode::Options, RootOptions { regexp: true, ..o }))
    } else if w == "as"@ {
        Some((OptionsMode::Alias, o))
    } else {
        None
    }
}

impl Parser {
    /// The words of the query.
    pub closed spec fn input(&self) -> Seq<Seq<char>> {
        self.lexer.inp()
    }

    /// The position of the last lexeme read, -1 before the first.
    pub closed spec fn pos(&self) -> int {
        self.index as int
    }

    /// The number of lexemes kept.
    pub closed spec fn kept(&self) -> int {
        self.lexemes.len() as int
    }

    /// How far the parser still is from the end: the words and characters
    /// its lexer has left, then the kept lexemes not read yet.
    pub closed spec fn meas(&self) -> (int, int, int) {
        (
            self.lexer.inp().len() - self.lexer.ii(),
            part_len(self.lexer.inp(), self.lexer.ii()) + 1 - self.lexer.ci(),
            if self.lexemes.len() - 1 - self.index > 0 {
                self.lexemes.len() - 1 - self.index
            } else {
                0
            },
        )
    }

    pub closed spec fn wf(&self) -> bool {
        &&& self.lexer.wf()
        &&& -1 <= self.index <= keep_limit()
        &&& self.lexemes.len() <= keep_limit()
    }

    /// Whether the roots and the `where` clause have been read, which tells
    /// conditions in the `where` clause from the others, and the debug flag.
    pub closed spec fn flags(&self) -> (bool, bool, bool) {
        (self.roots_parsed, self.where_parsed, self.debug)
    }

    /// Whether the lexer, in the state it is in, still reads a lexeme.
    pub closed spec fn lexer_has_more(&self) -> bool {
        spec_next_lexeme(self.lexer.inp(), self.lexer.ii(), self.lexer.ci(), self.lexer.st()).0 is Some
    }

    /// Whether a lexeme follows the current position: a kept one, or one that
    /// the lexer still reads while there is room to keep it.
    pub open spec fn has_more(&self) -> bool {
        ||| self.pos() + 1 < self.kept()
        ||| (self.kept() < keep_limit() && self.lexer_has_more())
    }

    /// The lexeme at position `k` of what the parser reads: a kept one, or
    /// one that its lexer reads later.
    pub closed spec fn tok(&self, k: int) -> Option<(LexemeKind, Seq<char>)> {
        if k < 0 {
            None
        } else if k < self.lexemes.len() {
            Some(lexeme_view(self.lexemes@[k]))
        } else {
            lexer_nth(
                self.lexer.inp(),
                self.lexer.ii(),
                self.lexer.ci(),
                self.lexer.st(),
                (k - self.lexemes.len()) as nat,
            )
        }
    }

    /// Two parsers read the same lexemes at every position.
    pub open spec fn same_stream(a: Parser, b: Parser) -> bool {
        forall|k: int| #[trigger] a.tok(k) == b.tok(k)
    }

    /// What reading position `pos` gives when `kept` lexemes are kept: the
    /// kept one, or else the next one the lexer reads (whatever position was
    /// asked for), or nothing once no more can be kept.
    pub open spec fn sees(&self, kept: int, pos: int) -> Option<(LexemeKind, Seq<char>)> {
        if pos < kept {
            self.tok(pos)
        } else if kept < keep_limit() {
            self.tok(kept)
        } else {
            None
        }
    }

    /// How many lexemes are kept after reading position `pos` with `kept`
    /// kept: one more when the lexer was asked and read one.
    pub open spec fn kept_after(&self, kept: int, pos: int) -> int {
        if pos < kept || kept >= keep_limit() || self.tok(kept) is None {
            kept
        } else {
            kept + 1
        }
    }

    /// The next lexeme the parser reads.
    pub open spec fn first(&self) -> Option<(LexemeKind, Seq<char>)> {
        self.sees(self.kept(), self.pos() + 1)
    }

    /// The kind of the next lexeme the parser reads.
    pub open spec fn first_kind(&self) -> Option<LexemeKind> {
        match self.first() {
            Some((k, _)) => Some(k),
            None => None,
        }
    }

    /// How many lexemes are kept once the next one has been looked at.
    pub open spec fn first_kept(&self) -> int {
        self.kept_after(self.kept(), self.pos() + 1)
    }

    /// `b` is `a` after looking at the next lexeme without reading past it.
    pub open spec fn only_looked(a: Parser, b: Parser) -> bool {
        &&& b.pos() == a.pos()
        &&& b.kept() == a.first_kept()
        &&& Self::same_stream(a, b)
    }

    /// The word the parser reads next, when it stands for a field or a value.
    pub open spec fn plain_word_ahead(&self) -> Option<Seq<char>> {
        match word_text(self.first()) {
            Some(t) => if is_plain_word(t) {
                Some(t)
            } else {
                None
            },
            None => None,
        }
    }

    /// A field or value word that is read next, from a position already kept.
    pub open spec fn word_at(&self) -> Option<Seq<char>> {
        if self.pos() < self.kept() {
            self.plain_word_ahead()
        } else {
            None
        }
    }

    /// Whether the lexeme read next (from a position already kept) can start
    /// no expression: it is no word, sign, bracket or `not`.
    pub open spec fn bad_start(&self) -> bool {
        &&& self.pos() < self.kept()
        &&& !(self.first_kind() == Some(LexemeKind::String) || self.first_kind() == Some(
            LexemeKind::RawString,
        ) || self.first_kind() == Some(LexemeKind::ArithmeticOperator) || self.first_kind()
            == Some(LexemeKind::Open) || self.first_kind() == Some(LexemeKind::CurlyOpen)
            || self.first_kind() == Some(LexemeKind::Not))
    }

    /// `b` is `a` after failing on a lexeme that starts no expression.
    pub open spec fn failed_start(a: Parser, b: Parser, r: Result<Option<Expr>, String>) -> bool {
        &&& r matches Err(m) && m@ == "Error parsing expression, expecting string"@
        &&& b.pos() == a.pos() + 1
        &&& b.kept() == a.first_kept()
        &&& Self::same_stream(a, b)
    }

    /// The kind of the lexeme that a whole query's field list starts with:
    /// the one after `select` when the query starts with it.
    pub open spec fn fields_first_kind(&self) -> Option<LexemeKind> {
        let q = if self.first_kind() == Some(LexemeKind::Select) {
            next_pos(self.pos())
        } else {
            self.pos()
        };
        match self.sees(self.first_kept(), q + 1) {
            Some((k, _)) => Some(k),
            None => None,
        }
    }

    /// A lone word that ends the input and makes a field list on its own: it
    /// is neither `*` nor a root option.
    pub open spec fn sole_word(&self) -> Option<Seq<char>> {
        match self.lone_word() {
            Some(t) => if self.second() is None && t != "*"@ && !spec_is_root_option_keyword(t) {
                Some(t)
            } else {
                None
            },
            None => None,
        }
    }

    /// Whether nothing is left to read: the next position is not kept and
    /// the lexer reads nothing more (or no more can be kept).
    pub open spec fn at_end(&self) -> bool {
        &&& self.pos() + 1 >= self.kept()
        &&& (self.kept() >= keep_limit() || self.tok(self.kept()) is None)
    }

    /// The word of a query that is a single field or value word, after an
    /// optional `select`, and nothing else.
    pub open spec fn word_query(&self) -> Option<Seq<char>> {
        let k1 = self.first_kept();
        let q = if self.first_kind() == Some(LexemeKind::Select) {
            next_pos(self.pos())
        } else {
            self.pos()
        };
        let k2 = self.kept_after(k1, q + 1);
        match word_text(self.sees(k1, q + 1)) {
            Some(t) => if q < k1 && is_plain_word(t) && self.sees(k2, q + 2) is None && t != "*"@
                && !spec_is_root_option_keyword(t) {
                Some(t)
            } else {
                None
            },
            None => None,
        }
    }

    /// The lone word (see `lone_word`) read from position `p + 1` when `k`
    /// lexemes are kept.
    pub open spec fn lone_word_at(&self, p: int, k: int) -> Option<Seq<char>> {
        let k1 = self.kept_after(k, p + 1);
        match word_text(self.sees(k, p + 1)) {
            Some(t) => if p < k && is_plain_word(t) && !continues_operand(self.sees(k1, p + 2)) {
                Some(t)
            } else {
                None
            },
            None => None,
        }
    }

    /// How many lexemes are kept after reading that word and looking at the
    /// lexeme after it.
    pub open spec fn lone_kept_at(&self, p: int, k: int) -> int {
        self.kept_after(self.kept_after(k, p + 1), p + 2)
    }

    /// The path of `from PATH` read next, when the path is a word that is not
    /// empty and does not start with `~`, and what follows it is no word or
    /// comma (so that it has no options and no root follows).
    pub open spec fn single_root(&self) -> Option<Seq<char>> {
        let k1 = self.first_kept();
        let p1 = next_pos(self.pos());
        let k2 = self.kept_after(k1, p1 + 1);
        let p2 = next_pos(p1);
        let after = self.sees(k2, p2 + 1);
        if self.first_kind() == Some(LexemeKind::From) {
            match word_text(self.sees(k1, p1 + 1)) {
                Some(t) => if t.len() > 0 && !has_prefix(t, "~"@) && word_text(after) is None
                    && !(after matches Some((LexemeKind::Comma, _))) {
                    Some(t)
                } else {
                    None
                },
                None => None,
            }
        } else {
            None
        }
    }

    /// The word of `group by WORD` read next, when the word is a bare lone
    /// word and no comma or further bare word follows it.
    pub open spec fn group_by_word(&self) -> Option<Seq<char>> {
        let k1 = self.first_kept();
        let p1 = next_pos(self.pos());
        let k2 = self.kept_after(k1, p1 + 1);
        let p2 = next_pos(p1);
        let after = self.sees(self.lone_kept_at(p2, k2), p2 + 2);
        if kind_of(self.first()) == Some(LexemeKind::RawString) && unicode_lowercase(
            text_of(self.first()),
        ) == "group"@ && kind_of(self.sees(k1, p1 + 1)) == Some(LexemeKind::By) && kind_of(
            self.sees(k2, p2 + 1),
        ) == Some(LexemeKind::RawString) && kind_of(after) != Some(LexemeKind::Comma) && kind_of(
            after,
        ) != Some(LexemeKind::RawString) {
            self.lone_word_at(p2, k2)
        } else {
            None
        }
    }

    /// The lexeme after the next one, read once the next one is kept.
    pub open spec fn second(&self) -> Option<(LexemeKind, Seq<char>)> {
        self.sees(self.first_kept(), self.pos() + 2)
    }

    /// How many lexemes are kept once the lexeme after the next has been
    /// looked at.
    pub open spec fn second_kept(&self) -> int {
        self.kept_after(self.first_kept(), self.pos() + 2)
    }

    /// A field or value word that is read next (from a position already
    /// kept) and that nothing after it joins to a larger expression.
    pub open spec fn lone_word(&self) -> Option<Seq<char>> {
        if self.pos() < self.kept() && !continues_operand(self.second()) {
            self.plain_word_ahead()
        } else {
            None
        }
    }

    /// A field or value word that is read next (from a position already
    /// kept) and that no arithmetic operator follows.
    pub open spec fn operand_word(&self) -> Option<Seq<char>> {
        if self.pos() < self.kept() && kind_of(self.second()) != Some(LexemeKind::ArithmeticOperator) {
            self.plain_word_ahead()
        } else {
            None
        }
    }

    /// The three words of `WORD between WORD and WORD` read next, when each
    /// of them is a field or value word that no arithmetic operator
    /// follows.
    pub open spec fn between_words(&self) -> Option<(Seq<char>, Seq<char>, Seq<char>)> {
        self.between_at(self.kept(), self.pos())
    }

    /// The three words of `WORD between WORD and WORD` read from position
    /// `p + 1` with `k` lexemes kept (see `between_words`).
    pub open spec fn between_at(&self, k: int, p: int) -> Option<(Seq<char>, Seq<char>, Seq<char>)> {
        let ka = self.kept_after(k, p + 1);
        let ka2 = self.kept_after(ka, p + 1);
        let kb = self.kept_after(ka2, p + 2);
        let kb2 = self.kept_after(kb, p + 2);
        let kb3 = self.kept_after(kb2, p + 2);
        let kc1 = self.kept_after(kb3, p + 3);
        let kc = self.kept_after(kc1, p + 4);
        let kd = self.kept_after(kc, p + 4);
        let ke1 = self.kept_after(kd, p + 5);
        match (
            word_text(self.sees(ka, p + 1)),
            word_text(self.sees(kb3, p + 3)),
            word_text(self.sees(kd, p + 5)),
        ) {
            (Some(a), Some(b), Some(c)) => if p + 5 < keep_limit() && p < k && p + 2 < kb3 && p + 4
                < kd && is_plain_word(a) && is_plain_word(b) && is_plain_word(c) && kind_of(
                self.sees(ka2, p + 2),
            ) != Some(LexemeKind::ArithmeticOperator) && self.sees(kb, p + 2) == Some(
                (LexemeKind::Operator, "between"@),
            ) && kind_of(self.sees(kc1, p + 4)) != Some(LexemeKind::ArithmeticOperator) && kind_of(
                self.sees(kc, p + 4),
            ) == Some(LexemeKind::And) && kind_of(self.sees(ke1, p + 6)) != Some(
                LexemeKind::ArithmeticOperator,
            ) {
                Some((a, b, c))
            } else {
                None
            },
            _ => None,
        }
    }

    /// The two words and the operator of `WORD OP WORD` read from position
    /// `p + 1` with `ka` lexemes kept (the first word already looked at),
    /// when the operator is neither `between` nor `in` and names a
    /// comparison, and each word is a field or value word that no
    /// arithmetic operator follows.
    pub open spec fn compared_at(&self, p: int, ka: int) -> Option<(Seq<char>, Op, Seq<char>)> {
        let ka2 = self.kept_after(ka, p + 1);
        let kb = self.kept_after(ka2, p + 2);
        let kb2 = self.kept_after(kb, p + 2);
        let kb3 = self.kept_after(kb2, p + 2);
        let kc1 = self.kept_after(kb3, p + 3);
        match (word_text(self.sees(ka, p + 1)), self.sees(kb, p + 2), word_text(self.sees(kb3, p + 3))) {
            (Some(a), Some((LexemeKind::Operator, s)), Some(b)) => match spec_op_from_with_not(s, false) {
                Some(op) => if p + 3 < keep_limit() && p < ka && p + 2 < kb3 && is_plain_word(a)
                    && is_plain_word(b) && s != "between"@ && s != "in"@ && kind_of(self.sees(ka2, p + 2))
                    != Some(LexemeKind::ArithmeticOperator) && kind_of(self.sees(kc1, p + 4)) != Some(
                    LexemeKind::ArithmeticOperator,
                ) {
                    Some((a, op, b))
                } else {
                    None
                },
                None => None,
            },
            _ => None,
        }
    }

    /// The `not`s read from position `pos + 1` with `kept` lexemes kept:
    /// how many there are, the position after the last, and the lexemes
    /// kept once the lexeme after them has been looked at.
    pub open spec fn not_run(&self, kept: int, pos: int) -> (nat, int, int)
        decreases dec(kept, pos).0, dec(kept, pos).1,
    {
        let k1 = self.kept_after(kept, pos + 1);
        if kept <= keep_limit() && pos < keep_limit() && kind_of(self.sees(kept, pos + 1)) == Some(
            LexemeKind::Not,
        ) {
            proof {
                self.lemma_read_progress(kept, pos);
            }
            let r = self.not_run(k1, pos + 1);
            ((r.0 + 1) as nat, r.1, r.2)
        } else {
            (0, pos, k1)
        }
    }

    /// `WORD OP WORD` after any number of `not`s: the count of `not`s and
    /// the words and operator.
    pub open spec fn compared_words(&self) -> Option<(nat, Seq<char>, Op, Seq<char>)> {
        let r = self.not_run(self.kept(), self.pos());
        if self.pos() < self.kept() && r.1 < keep_limit() {
            match self.compared_at(r.1, r.2) {
                Some((a, op, b)) => Some((r.0, a, op, b)),
                None => None,
            }
        } else {
            None
        }
    }

    /// The items of an `order by` list read from position `pos + 1` with
    /// `kept` lexemes kept, after the items `acc`, for a query of `n`
    /// fields: a number names the field at that place (from 1), a field or
    /// value word that nothing joins to a larger expression stands for
    /// itself, each in ascending order unless `desc` follows it; commas
    /// between them are skipped. With the lexemes kept and the position
    /// where the list stops, once the lexeme after it has been looked at.
    /// `None` when the list holds anything else, a number names no field,
    /// or `desc` comes before any item.
    pub open spec fn order_from(&self, kept: int, pos: int, n: int, acc: Seq<(OrderItem, bool)>) -> Option<
        (Seq<(OrderItem, bool)>, int, int),
    >
        decreases dec(kept, pos).0, dec(kept, pos).1,
    {
        let l = self.sees(kept, pos + 1);
        let k1 = self.kept_after(kept, pos + 1);
        let k1b = self.kept_after(k1, pos + 1);
        let k2 = self.kept_after(k1b, pos + 2);
        if kept > keep_limit() || pos + 2 >= keep_limit() || pos >= kept {
            None
        } else {
            match l {
                None => Some((acc, k1, pos)),
                Some((kind, t)) => if kind == LexemeKind::Comma {
                    self.order_from(k1, pos + 1, n, acc)
                } else if kind == LexemeKind::RawString {
                    match spec_parse_usize(t) {
                        Some(idx) => if 1 <= idx <= n {
                            self.order_from(k1, pos + 1, n, acc.push((OrderItem::Position(idx), true)))
                        } else {
                            None
                        },
                        None => if is_plain_word(t) && !continues_operand(self.sees(k1b, pos + 2)) {
                            self.order_from(k2, pos + 1, n, acc.push((OrderItem::Word(t), true)))
                        } else {
                            None
                        },
                    }
                } else if kind == LexemeKind::DescendingOrder {
                    if acc.len() == 0 {
                        None
                    } else {
                        self.order_from(k1, pos + 1, n, acc.update(acc.len() - 1, (acc.last().0, false)))
                    }
                } else {
                    Some((acc, k1, pos))
                },
            }
        }
    }

    /// The items of `order by` when it is read from position `p + 1` with
    /// `k` lexemes kept (see `order_from`).
    pub open spec fn order_by_at(&self, k: int, p: int, n: int) -> Option<(Seq<(OrderItem, bool)>, int, int)> {
        let k1 = self.kept_after(k, p + 1);
        let p1 = next_pos(p);
        if kind_of(self.sees(k, p + 1)) == Some(LexemeKind::Order) && kind_of(self.sees(k1, p1 + 1)) == Some(
            LexemeKind::By,
        ) {
            self.order_from(self.kept_after(k1, p1 + 1), next_pos(p1), n, Seq::empty())
        } else {
            None
        }
    }

    /// The number after `limit` when `limit` is read from position `p + 1`
    /// with `k` lexemes kept and a word that reads as a number follows it.
    pub open spec fn limit_value(&self, k: int, p: int) -> Option<u32> {
        let k1 = self.kept_after(k, p + 1);
        if self.sees(k, p + 1) matches Some((LexemeKind::Limit, _)) {
            match word_text(self.sees(k1, next_pos(p) + 1)) {
                Some(t) => spec_parse_u32(t),
                None => None,
            }
        } else {
            None
        }
    }

    /// What a query promises whose condition after `where` is read from
    /// position `p + 1` with `k` lexemes kept, when that condition is a
    /// simple one (`simple_cond_from`) that neither `and` nor `or` follows:
    /// the query's condition is its expression; and, where no root came
    /// before `where` (`no_roots`), the query searches the current directory
    /// when the input ends there, and the roots after `from` when `from`
    /// follows (as `roots_fixed` gives them, where the home directory
    /// plays no part).
    pub open spec fn where_outcome(&self, k: int, p: int, no_roots: bool, r: Result<Query, String>) -> bool {
        match self.simple_cond_from(k, p) {
            Some((c, k2, p2)) => (kind_of(self.sees(k2, p2 + 1)) != Some(LexemeKind::And) && kind_of(
                self.sees(k2, p2 + 1),
            ) != Some(LexemeKind::Or)) ==> {
                &&& r matches Ok(q) ==> (q.expr matches Some(e) && simple_cond_is(e, c))
                &&& (no_roots && self.sees(k2, p2 + 1) is None) ==> (r matches Ok(q) && q.roots@.len() == 1
                    && q.roots@[0].path@ == "."@ && q.roots@[0].options == default_root_options())
                &&& (no_roots && kind_of(self.sees(k2, p2 + 1)) == Some(LexemeKind::From)) ==> ({
                    &&& self.roots_fixed(self.kept_after(k2, p2 + 1), p2) matches Some(Err(e)) ==> (r matches Err(m)
                        && m@ == e)
                    &&& self.roots_fixed(self.kept_after(k2, p2 + 1), p2) matches Some(Ok(v)) ==> (v.len() > 0 ==> (
                    r matches Ok(q) ==> roots_view(q.roots@) == v))
                })
                &&& self.limit_value(self.kept_after(k2, p2 + 1), p2) matches Some(n) ==> (n > 0 ==> (r matches Ok(q)
                    ==> q.limit == n))
                &&& r matches Ok(q) ==> (self.order_by_at(self.kept_after(k2, p2 + 1), p2, q.fields@.len() as int) matches Some(
                    (items, _, _),
                ) ==> ordering_is(q.ordering_fields@, q.ordering_asc@, items, q.fields@))
            },
            None => true,
        }
    }

    /// Where reading `WORD OP WORD` after `not`s from position `p + 1`
    /// with `k` lexemes kept stops: the lexemes kept and the position, once
    /// the lexeme after it has been looked at.
    pub open spec fn compared_stop(&self, k: int, p: int) -> (int, int) {
        let r = self.not_run(k, p);
        let q = r.1;
        let qa2 = self.kept_after(r.2, q + 1);
        let qb = self.kept_after(qa2, q + 2);
        let qb2 = self.kept_after(qb, q + 2);
        let qb3 = self.kept_after(qb2, q + 2);
        let qc1 = self.kept_after(qb3, q + 3);
        (self.kept_after(qc1, q + 4), q + 3)
    }

    /// Where reading `WORD between WORD and WORD` from position `p + 1`
    /// with `k` lexemes kept stops (as `compared_stop`).
    pub open spec fn between_stop(&self, k: int, p: int) -> (int, int) {
        let ka = self.kept_after(k, p + 1);
        let ka2 = self.kept_after(ka, p + 1);
        let kb = self.kept_after(ka2, p + 2);
        let kb2 = self.kept_after(kb, p + 2);
        let kb3 = self.kept_after(kb2, p + 2);
        let kc1 = self.kept_after(kb3, p + 3);
        let kc = self.kept_after(kc1, p + 4);
        let kd = self.kept_after(kc, p + 4);
        let ke1 = self.kept_after(kd, p + 5);
        (self.kept_after(ke1, p + 6), p + 5)
    }

    /// A condition read from position `p + 1` with `k` lexemes kept that is
    /// one comparison of two field or value words after any number of
    /// `not`s (each `not` negating the operator), or `WORD between WORD and
    /// WORD`; with the lexemes kept and the position where reading it
    /// stops, once the lexeme after it has been looked at.
    #[verifier::opaque]
    pub open spec fn simple_cond_from(&self, k: int, p: int) -> Option<(SimpleCond, int, int)> {
        let r = self.not_run(k, p);
        let found = match (if p < k && r.1 < keep_limit() {
            self.compared_at(r.1, r.2)
        } else {
            None
        }) {
            Some((a, op, b)) => Some(
                (
                    SimpleCond::Compared(
                        a,
                        if r.0 % 2 == 0 {
                            op
                        } else {
                            spec_op_negate(op)
                        },
                        b,
                    ),
                    self.compared_stop(k, p).0,
                    self.compared_stop(k, p).1,
                ),
            ),
            None => match self.between_at(k, p) {
                Some((a, b, c)) => Some((SimpleCond::Between(a, b, c), self.between_stop(k, p).0, self.between_stop(k, p).1)),
                None => None,
            },
        };
        match found {
            Some((_, k2, p2)) => if p2 < k2 {
                found
            } else {
                None
            },
            None => None,
        }
    }

    /// The simple condition read next is the comparison of `compared_words`
    /// or else the `between` of `between_words`.
    proof fn lemma_simple_cond_parts(&self)
        ensures
            self.simple_cond_from(self.kept(), self.pos()) matches Some((c, k2, p2)) ==> p2 < k2 && Some((c, k2, p2)) == (match self.compared_words() {
                Some((n, a, op, b)) => Some(
                    (
                        SimpleCond::Compared(
                            a,
                            if n % 2 == 0 {
                                op
                            } else {
                                spec_op_negate(op)
                            },
                            b,
                        ),
                        self.compared_stop(self.kept(), self.pos()).0,
                        self.compared_stop(self.kept(), self.pos()).1,
                    ),
                ),
                None => match self.between_words() {
                    Some((a, b, c)) => Some(
                        (
                            SimpleCond::Between(a, b, c),
                            self.between_stop(self.kept(), self.pos()).0,
                            self.between_stop(self.kept(), self.pos()).1,
                        ),
                    ),
                    None => None,
                },
            }),
    {
        reveal(Parser::simple_cond_from);
    }

    /// Two parsers that read the same lexemes see the same run of `not`s.
    pub proof fn lemma_not_run_same(a: Parser, b: Parser, k: int, p: int)
        requires
            Self::same_stream(a, b),
        ensures
            a.not_run(k, p) == b.not_run(k, p),
        decreases dec(k, p).0, dec(k, p).1,
    {
        assert(a.tok(k) == b.tok(k));
        assert(a.tok(p + 1) == b.tok(p + 1));
        if k <= keep_limit() && p < keep_limit() && kind_of(a.sees(k, p + 1)) == Some(LexemeKind::Not) {
            a.lemma_read_progress(k, p);
            Self::lemma_not_run_same(a, b, a.kept_after(k, p + 1), p + 1);
        }
    }

    /// Two parsers that read the same lexemes see the same simple
    /// condition at every place.
    pub proof fn lemma_simple_cond_same(a: Parser, b: Parser, k: int, p: int)
        requires
            Self::same_stream(a, b),
        ensures
            a.simple_cond_from(k, p) == b.simple_cond_from(k, p),
    {
        Self::lemma_not_run_same(a, b, k, p);
        let r = a.not_run(k, p);
        Self::lemma_compared_same(a, b, r.1, r.2);
        Self::lemma_between_same(a, b, k, p);
        Self::lemma_stops_same(a, b, k, p);
        reveal(Parser::simple_cond_from);
    }

    /// Two parsers that read the same lexemes see the same `order by` list.
    pub proof fn lemma_order_same(a: Parser, b: Parser, k: int, p: int, n: int, acc: Seq<(OrderItem, bool)>)
        requires
            Self::same_stream(a, b),
        ensures
            a.order_from(k, p, n, acc) == b.order_from(k, p, n, acc),
        decreases dec(k, p).0, dec(k, p).1,
    {
        let k1 = a.kept_after(k, p + 1);
        let k1b = a.kept_after(k1, p + 1);
        let k2 = a.kept_after(k1b, p + 2);
        assert(a.tok(k) == b.tok(k));
        assert(a.tok(p + 1) == b.tok(p + 1));
        assert(a.tok(k1) == b.tok(k1));
        assert(a.tok(k1b) == b.tok(k1b));
        assert(a.tok(p + 2) == b.tok(p + 2));
        if !(k > keep_limit() || p + 2 >= keep_limit() || p >= k) {
            match a.sees(k, p + 1) {
                Some((kind, t)) => {
                    if kind == LexemeKind::Comma {
                        Self::lemma_order_same(a, b, k1, p + 1, n, acc);
                    } else if kind == LexemeKind::RawString {
                        match spec_parse_usize(t) {
                            Some(idx) => {
                                Self::lemma_order_same(a, b, k1, p + 1, n, acc.push((OrderItem::Position(idx), true)));
                            },
                            None => {
                                Self::lemma_order_same(a, b, k2, p + 1, n, acc.push((OrderItem::Word(t), true)));
                            },
                        }
                    } else if kind == LexemeKind::DescendingOrder && acc.len() > 0 {
                        Self::lemma_order_same(a, b, k1, p + 1, n, acc.update(acc.len() - 1, (acc.last().0, false)));
                    }
                },
                None => {},
            }
        }
    }

    /// Two parsers that read the same lexemes see the same comparison.
    #[verifier::spinoff_prover]
    proof fn lemma_compared_same(a: Parser, b: Parser, p: int, ka: int)
        requires
            Self::same_stream(a, b),
        ensures
            a.compared_at(p, ka) == b.compared_at(p, ka),
    {
    }

    /// Two parsers that read the same lexemes see the same `between`.
    #[verifier::spinoff_prover]
    proof fn lemma_between_same(a: Parser, b: Parser, k: int, p: int)
        requires
            Self::same_stream(a, b),
        ensures
            a.between_at(k, p) == b.between_at(k, p),
    {
    }

    /// Two parsers that read the same lexemes stop at the same places.
    #[verifier::spinoff_prover]
    proof fn lemma_stops_same(a: Parser, b: Parser, k: int, p: int)
        requires
            Self::same_stream(a, b),
        ensures
            a.compared_stop(k, p) == b.compared_stop(k, p),
            a.between_stop(k, p) == b.between_stop(k, p),
    {
        Self::lemma_not_run_same(a, b, k, p);
    }

    /// A simple condition stops at a position already kept.
    pub proof fn lemma_simple_cond_stop(&self, k: int, p: int)
        ensures
            self.simple_cond_from(k, p) matches Some((_, k2, p2)) ==> p2 < k2,
    {
        reveal(Parser::simple_cond_from);
    }

    /// The words of a field list read from position `pos + 1` with `kept`
    /// lexemes kept, after the words `acc`: field or value words, each
    /// alone (nothing joins it to a larger expression) and neither `*`,
    /// `group` nor a root option, separated by commas; with the lexemes
    /// kept and the position where the list stops, once the lexeme after
    /// it has been looked at. `None` when the list holds anything else.
    pub open spec fn words_from(&self, kept: int, pos: int, acc: Seq<Seq<char>>) -> Option<(Seq<Seq<char>>, int, int)>
        decreases dec(kept, pos).0, dec(kept, pos).1,
    {
        let l = self.sees(kept, pos + 1);
        let k1 = self.kept_after(kept, pos + 1);
        let k1b = self.kept_after(k1, pos + 1);
        let k2 = self.kept_after(k1b, pos + 2);
        if kept > keep_limit() || pos + 2 >= keep_limit() || pos >= kept {
            None
        } else {
            match l {
                None => Some((acc, k1, pos)),
                Some((kind, t)) => if kind == LexemeKind::Comma {
                    self.words_from(k1, pos + 1, acc)
                } else if kind == LexemeKind::String || kind == LexemeKind::RawString {
                    if is_plain_word(t) && t != "*"@ && unicode_lowercase(t) != "group"@
                        && !spec_is_root_option_keyword(t) && !continues_operand(self.sees(k1b, pos + 2)) {
                        self.words_from(k2, pos + 1, acc.push(t))
                    } else {
                        None
                    }
                } else if kind == LexemeKind::ArithmeticOperator || kind == LexemeKind::Open || kind
                    == LexemeKind::CurlyOpen {
                    None
                } else {
                    Some((acc, k1, pos))
                },
            }
        }
    }

    /// The roots of a query whose field list stops at position `p` with
    /// `k` lexemes kept, before `from` (see `roots_from`), with `home` as
    /// the home directory.
    pub open spec fn query_roots(&self, k: int, p: int, home: Option<Seq<char>>) -> Result<
        Seq<(Seq<char>, (RootOptions, Option<Seq<char>>))>,
        Seq<char>,
    > {
        self.roots_from(self.kept_after(k, p + 1), next_pos(p), RootsMode::From, Seq::empty(), (default_root_options(), None), Seq::empty(), home)
    }

    /// The roots of `query_roots` when they do not depend on the home
    /// directory (no root path starts with `~`, or none is reached).
    pub open spec fn roots_fixed(&self, k: int, p: int) -> Option<
        Result<Seq<(Seq<char>, (RootOptions, Option<Seq<char>>))>, Seq<char>>,
    > {
        if forall|h: Option<Seq<char>>| #[trigger] self.query_roots(k, p, h) == self.query_roots(k, p, None) {
            Some(self.query_roots(k, p, None))
        } else {
            None
        }
    }

    /// A parser that stops at a position already kept looks next at the
    /// lexeme there, and is at the end when there is none.
    proof fn lemma_stop(a: Parser, b: Parser)
        requires
            Self::same_stream(a, b),
            b.pos() < b.kept(),
            b.wf(),
        ensures
            b.first() == a.sees(b.kept(), b.pos() + 1),
            a.sees(b.kept(), b.pos() + 1) is None ==> b.at_end(),
    {
        assert(a.tok(b.kept()) == b.tok(b.kept()));
        assert(a.tok(b.pos() + 1) == b.tok(b.pos() + 1));
    }

    /// Looking again at a lexeme already looked at sees the same one.
    proof fn lemma_look_again(&self, k: int, p: int)
        requires
            p < k,
        ensures
            self.sees(self.kept_after(k, p + 1), p + 1) == self.sees(k, p + 1),
            self.kept_after(self.kept_after(k, p + 1), p + 1) == self.kept_after(k, p + 1),
    {
    }

    /// The words of a whole query's field list, after an optional `select`.
    pub open spec fn field_words(&self) -> Option<(Seq<Seq<char>>, int, int)> {
        if self.first_kind() == Some(LexemeKind::Select) {
            self.words_from(self.first_kept(), next_pos(self.pos()), Seq::empty())
        } else {
            self.words_from(self.first_kept(), self.pos(), Seq::empty())
        }
    }

    /// `WORD in` or `WORD not in` read from position `p + 1` with `ka`
    /// lexemes kept (the word already looked at), when the word is a field
    /// or value word that no arithmetic operator follows: the word and
    /// whether `not` comes before `in`.
    pub open spec fn in_at(&self, p: int, ka: int) -> Option<(Seq<char>, bool)> {
        let ka2 = self.kept_after(ka, p + 1);
        let kb = self.kept_after(ka2, p + 2);
        let kb2 = self.kept_after(kb, p + 2);
        let neg = kind_of(self.sees(kb, p + 2)) == Some(LexemeKind::Not);
        let op = if neg {
            self.sees(kb2, p + 3)
        } else {
            self.sees(self.kept_after(kb2, p + 2), p + 2)
        };
        match word_text(self.sees(ka, p + 1)) {
            Some(a) => if p + 3 < keep_limit() && p < ka && is_plain_word(a) && kind_of(
                self.sees(ka2, p + 2),
            ) != Some(LexemeKind::ArithmeticOperator) && op == Some((LexemeKind::Operator, "in"@))
                && spec_op_from_with_not("in"@, neg) == Some(if neg {
                Op::NotIn
            } else {
                Op::In
            }) {
                Some((a, neg))
            } else {
                None
            },
            None => None,
        }
    }

    /// `WORD in` or `WORD not in` after any number of `not`s: their count,
    /// the word, and whether `not` comes before `in`.
    pub open spec fn in_words(&self) -> Option<(nat, Seq<char>, bool)> {
        let r = self.not_run(self.kept(), self.pos());
        if self.pos() < self.kept() && r.1 < keep_limit() {
            match self.in_at(r.1, r.2) {
                Some((a, neg)) => Some((r.0, a, neg)),
                None => None,
            }
        } else {
            None
        }
    }

    /// `b` is `a` after reading a lone word and looking at what follows it.
    pub open spec fn read_lone_word(a: Parser, b: Parser) -> bool {
        &&& b.pos() == a.pos() + 1
        &&& b.kept() == a.second_kept()
        &&& Self::same_stream(a, b)
    }

    /// A parser that has moved from `a` to `b` without going back: the same
    /// words, and no farther from the end.
    pub closed spec fn moved(a: Parser, b: Parser) -> bool {
        &&& b.wf()
        &&& b.lexer.inp() == a.lexer.inp()
        &&& le3(b.meas(), a.meas())
    }

    /// As `moved`, with the flags unchanged.
    pub closed spec fn steps(a: Parser, b: Parser) -> bool {
        &&& Self::moved(a, b)
        &&& b.flags() == a.flags()
    }

    /// The root options read from position `pos + 1` on, with `kept`
    /// lexemes kept, in mode `m`, with `o` and `alias` gathered so far.
    /// Option words are taken case-insensitively; `mindepth` and `depth`
    /// (or `maxdepth`) take the number after them and `as` the word after
    /// it; `rx` sets the regular-expression flag. The list stops at the
    /// first lexeme that fits none of these; it is an error when the input
    /// ends where a number or an alias is due.
    pub open spec fn options_from(
        &self,
        kept: int,
        pos: int,
        m: OptionsMode,
        o: RootOptions,
        alias: Option<Seq<char>>,
    ) -> Result<Option<(RootOptions, Option<Seq<char>>)>, Seq<char>>
        decreases
            (if pos < keep_limit() {
                keep_limit() - pos
            } else {
                0
            }),
            (if kept < keep_limit() {
                keep_limit() - kept
            } else {
                0
            }),
    {
        let l = self.sees(kept, pos + 1);
        let k1 = self.kept_after(kept, pos + 1);
        let p1 = next_pos(pos);
        if kept > keep_limit() {
            options_done(m, o, alias)
        } else {
            match l {
                None => if m == OptionsMode::Unknown || m == OptionsMode::Options {
                    options_done(m, o, alias)
                } else {
                    Err("Error parsing root options"@)
                },
                Some((kind, t)) => if kind == LexemeKind::String || kind == LexemeKind::RawString {
                    if m == OptionsMode::MinDepth {
                        match spec_parse_u32(t) {
                            Some(d) => self.options_from(k1, p1, OptionsMode::Options, RootOptions { min_depth: d, ..o }, alias),
                            None => options_done(m, o, alias),
                        }
                    } else if m == OptionsMode::Depth {
                        match spec_parse_u32(t) {
                            Some(d) => self.options_from(k1, p1, OptionsMode::Options, RootOptions { max_depth: d, ..o }, alias),
                            None => options_done(m, o, alias),
                        }
                    } else if m == OptionsMode::Alias {
                        self.options_from(k1, p1, OptionsMode::Options, o, Some(t))
                    } else {
                        match option_word(ascii_lower(t), o) {
                            Some((m2, o2)) => self.options_from(k1, p1, m2, o2, alias),
                            None => options_done(m, o, alias),
                        }
                    }
                } else if kind == LexemeKind::Operator && t == "rx"@ {
                    self.options_from(k1, p1, OptionsMode::Options, RootOptions { regexp: true, ..o }, alias)
                } else {
                    options_done(m, o, alias)
                },
            }
        }
    }

    /// A parser over a lexer, before the first lexeme.
    pub fn new(lexer: Lexer) -> (r: Parser)
        requires
            lexer.wf(),
        ensures
            r.wf(),
            r.input() == lexer.inp(),
            r.pos() == -1,
            r.kept() == 0,
            r.meas() == (
                lexer.inp().len() - lexer.ii(),
                part_len(lexer.inp(), lexer.ii()) + 1 - lexer.ci(),
                0int,
            ),
    {
        Parser {
            lexer,
            lexemes: Vec::new(),
            index: -1,
            roots_parsed: false,
            where_parsed: false,
            debug: false,
        }
    }

    /// The lexeme at position `pos`: a kept one, or else the next one the
    /// lexer reads, which is then kept.
    fn fetch(&mut self, pos: isize) -> (r: Option<Lexeme>)
        requires
            old(self).wf(),
            old(self).index < pos <= old(self).index + 2,
        ensures
            Self::steps(*old(self), *final(self)),
            final(self).index == old(self).index,
            r is Some ==> pos < final(self).lexemes.len() || lt3(final(self).meas(), old(self).meas()),
            final(self).lexemes.len() >= old(self).lexemes.len(),
            r is Some <==> (pos < old(self).lexemes.len() || (old(self).lexemes.len() < keep_limit()
                && old(self).lexer_has_more())),
            opt_lexeme_view(r) == old(self).sees(old(self).kept(), pos as int),
            final(self).kept() == old(self).kept_after(old(self).kept(), pos as int),
            Self::same_stream(*old(self), *final(self)),
    {
        if (pos as usize) < self.lexemes.len() {
            Some(clone_lexeme(&self.lexemes[pos as usize]))
        } else if self.lexemes.len() < (isize::MAX - 3) as usize {
            proof {
                lemma_next_lexeme_advances(
                    self.lexer.inp(),
                    self.lexer.ii(),
                    self.lexer.ci(),
                    self.lexer.st(),
                );
            }
            let ghost before = *self;
            let lexeme = self.lexer.next_lexeme();
            match lexeme {
                Some(l) => {
                    let copy = clone_lexeme(&l);
                    self.lexemes.push(l);
                    proof {
                        assert forall|k: int| #[trigger] before.tok(k) == self.tok(k) by {
                            if k > before.lexemes.len() {
                                assert(self.tok(k) == lexer_nth(
                                    self.lexer.inp(),
                                    self.lexer.ii(),
                                    self.lexer.ci(),
                                    self.lexer.st(),
                                    (k - before.lexemes.len() - 1) as nat,
                                ));
                            }
                        }
                    }
                    Some(copy)
                },
                None => {
                    proof {
                        assert forall|k: int| #[trigger] before.tok(k) == self.tok(k) by {
                            if k >= before.lexemes.len() {
                                lemma_lexer_nth_after_none(
                                    before.lexer.inp(),
                                    before.lexer.ii(),
                                    before.lexer.ci(),
                                    before.lexer.st(),
                                    (k - before.lexemes.len()) as nat,
                                );
                            }
                        }
                    }
                    None
                },
            }
        } else {
            None
        }
    }

    /// The next lexeme, without reading past it.
    fn peek(&mut self) -> (r: Option<Lexeme>)
        requires
            old(self).wf(),
        ensures
            Self::steps(*old(self), *final(self)),
            final(self).index == old(self).index,
            r is Some ==> final(self).index + 1 < final(self).lexemes.len() || lt3(
                final(self).meas(),
                old(self).meas(),
            ),
            r is Some <==> old(self).has_more(),
            opt_lexeme_view(r) == old(self).sees(old(self).kept(), old(self).pos() + 1),
            final(self).kept() == old(self).kept_after(old(self).kept(), old(self).pos() + 1),
            Self::same_stream(*old(self), *final(self)),
    {
        self.fetch(self.index + 1)
    }

    /// The lexeme after the next one, without reading past either.
    fn peek2(&mut self) -> (r: Option<Lexeme>)
        requires
            old(self).wf(),
        ensures
            Self::steps(*old(self), *final(self)),
            final(self).index == old(self).index,
            opt_lexeme_view(r) == old(self).sees(old(self).kept(), old(self).pos() + 2),
            final(self).kept() == old(self).kept_after(old(self).kept(), old(self).pos() + 2),
            Self::same_stream(*old(self), *final(self)),
    {
        self.fetch(self.index + 2)
    }

    /// Reads past the next lexeme.
    fn advance(&mut self)
        requires
            old(self).wf(),
        ensures
            Self::steps(*old(self), *final(self)),
            old(self).index + 1 < old(self).lexemes.len() ==> lt3(final(self).meas(), old(self).meas()),
            final(self).pos() == next_pos(old(self).pos()),
            final(self).lexemes == old(self).lexemes,
            final(self).lexer == old(self).lexer,
            Self::same_stream(*old(self), *final(self)),
    {
        if self.index < isize::MAX - 3 {
            self.index = self.index + 1;
        }
    }

    /// Goes back before the last lexeme read.
    fn drop_lexeme(&mut self)
        requires
            old(self).wf(),
        ensures
            final(self).wf(),
            final(self).lexer.inp() == old(self).lexer.inp(),
            final(self).flags() == old(self).flags(),
            le3(final(self).meas(), bump(old(self).meas())),
            final(self).pos() == if old(self).pos() > -1 {
                old(self).pos() - 1
            } else {
                -1
            },
            final(self).lexemes == old(self).lexemes,
            final(self).lexer == old(self).lexer,
            Self::same_stream(*old(self), *final(self)),
    {
        if self.index > -1 {
            self.index = self.index - 1;
        }
    }

    /// Keeps one more lexeme, where there is room for it.
    fn push_lexeme(&mut self, lexeme: Lexeme)
        requires
            old(self).wf(),
        ensures
            final(self).wf(),
            final(self).lexer == old(self).lexer,
            final(self).index == old(self).index,
            final(self).flags() == old(self).flags(),
            final(self).lexemes@ == if old(self).lexemes.len() < keep_limit() {
                old(self).lexemes@.push(lexeme)
            } else {
                old(self).lexemes@
            },
    {
        if self.lexemes.len() < (isize::MAX - 3) as usize {
            self.lexemes.push(lexeme);
        }
    }

    /// Where the parser stands: its lexer's word and character, and how many
    /// kept lexemes it has not read.
    fn mark(&self) -> (r: (usize, isize, usize))
        requires
            self.wf(),
        ensures
            r.0 == self.lexer.ii(),
            r.1 == self.lexer.ci(),
            r.2 == self.meas().2,
    {
        let (ii, ci) = self.lexer.position();
        let kept = self.lexemes.len();
        let next = (self.index + 1) as usize;
        let ahead: usize = if next < kept {
            kept - next
        } else {
            0
        };
        (ii, ci, ahead)
    }

    /// Whether the parser has come nearer the end between two marks.
    fn went_forward(before: (usize, isize, usize), after: (usize, isize, usize)) -> (r: bool)
        ensures
            r == (after.0 > before.0 || (after.0 == before.0 && (after.1 > before.1 || (after.1
                == before.1 && after.2 < before.2)))),
    {
        after.0 > before.0 || (after.0 == before.0 && (after.1 > before.1 || (after.1 == before.1
            && after.2 < before.2)))
    }

    /// Reads the next lexeme.
    fn next_lexeme(&mut self) -> (r: Option<Lexeme>)
        requires
            old(self).wf(),
        ensures
            Self::steps(*old(self), *final(self)),
            r is Some ==> lt3(final(self).meas(), old(self).meas()),
            opt_lexeme_view(r) == old(self).sees(old(self).kept(), old(self).pos() + 1),
            final(self).kept() == old(self).kept_after(old(self).kept(), old(self).pos() + 1),
            final(self).pos() == next_pos(old(self).pos()),
            Self::same_stream(*old(self), *final(self)),
    {
        let r = self.peek();
        self.advance();
        r
    }

    /// Reads a whole query: fields, roots and their options, `where`,
    /// `group by`, `order by`, `limit` and `into`. Without roots the query
    /// searches `.`; without a limit, a query whose fields need no file
    /// gives one row.
    #[verifier::rlimit(80)]
    #[verifier::rlimit(100)]
    #[verifier::spinoff_prover]
    pub fn parse(&mut self, debug: bool) -> (r: Result<Query, String>)
        requires
            old(self).wf(),
        ensures
            Self::moved(*old(self), *final(self)),
            r matches Ok(q) ==> {
                &&& q.fields@.len() > 0
                &&& q.roots@.len() > 0
                &&& q.ordering_fields@.len() == q.ordering_asc@.len()
                &&& (q.limit == 0 ==> spec_all_required_fields(q.fields@) != Set::<Field>::empty())
                &&& q.offset == 0
                &&& q.raw_query@ == join_words(old(self).input())
            },
            !starts_selector(old(self).fields_first_kind()) ==> (r matches Err(m) && m@
                == "Error parsing fields, no selector found"@),
            old(self).word_query() matches Some(t) ==> (r matches Ok(q) && q.fields@.len() == 1
                && cond_word_is(q.fields@[0], t, old(self).flags().0 && !old(self).flags().1)
                && q.roots@.len() == 1 && q.roots@[0].path@ == "."@ && q.roots@[0].options
                == default_root_options() && q.expr is None && q.grouping_fields@.len() == 0
                && q.ordering_fields@.len() == 0 && q.output_format == OutputFormat::Tabs),
            old(self).field_words() matches Some((ws, k, p)) ==> ({
                &&& r matches Ok(q) ==> (q.fields@.len() == ws.len() && forall|i: int| 0 <= i < ws.len()
                    ==> cond_word_is(#[trigger] q.fields@[i], ws[i], old(self).flags().0 && !old(self).flags().1))
                &&& (ws.len() > 0 && old(self).sees(k, p + 1) is None) ==> (r matches Ok(q)
                    && q.roots@.len() == 1 && q.roots@[0].path@ == "."@ && q.roots@[0].options
                    == default_root_options() && q.expr is None && q.grouping_fields@.len() == 0
                    && q.ordering_fields@.len() == 0 && q.output_format == OutputFormat::Tabs)
                &&& (ws.len() > 0 && kind_of(old(self).sees(k, p + 1)) == Some(LexemeKind::Where)) ==> (r matches Ok(
                    q,
                ) ==> q.expr is Some)
                &&& (ws.len() > 0 && kind_of(old(self).sees(k, p + 1)) == Some(LexemeKind::Order)) ==> (old(self).order_by_at(
                    k,
                    p,
                    ws.len() as int,
                ) matches Some((items, _, _)) ==> (r matches Ok(q) ==> ordering_is(
                    q.ordering_fields@,
                    q.ordering_asc@,
                    items,
                    q.fields@,
                )))
                &&& (ws.len() > 0 && kind_of(old(self).sees(k, p + 1)) == Some(LexemeKind::Limit)) ==> (old(self).limit_value(
                    k,
                    p,
                ) matches Some(n) ==> (n > 0 ==> (r matches Ok(q) ==> q.limit == n)))
                &&& (ws.len() > 0 && kind_of(old(self).sees(k, p + 1)) == Some(LexemeKind::Where)) ==> old(self).where_outcome(
                    old(self).kept_after(k, p + 1),
                    next_pos(p),
                    true,
                    r,
                )
                &&& (ws.len() > 0 && kind_of(old(self).sees(k, p + 1)) == Some(LexemeKind::From)) ==> ({
                    &&& old(self).roots_fixed(k, p) matches Some(Err(e)) ==> (r matches Err(m) && m@ == e)
                    &&& old(self).roots_fixed(k, p) matches Some(Ok(v)) ==> (v.len() > 0 ==> (r matches Ok(q)
                        ==> roots_view(q.roots@) == v))
                })
            }),
        decreases old(self).meas().0, old(self).meas().1, old(self).meas().2, 22int,
    {
        let ghost start: Parser = *self;
        self.debug = debug;
        proof {
            assert(self.lexer == start.lexer && self.lexemes == start.lexemes);
            assert forall|k: int| #[trigger] start.tok(k) == self.tok(k) by {}
            assert(start.first_kept() == self.first_kept() && start.first() == self.first());
        }
        let first = self.peek();
        if matches!(first, Some(Lexeme::Select)) {
            self.advance();
        }
        proof {
            assert(Self::same_stream(start, *self));
            assert(self.kept() == start.first_kept());
            assert(start.first_kind() == Some(LexemeKind::Select) ==> self.pos() == next_pos(start.pos()));
            assert(start.first_kind() != Some(LexemeKind::Select) ==> self.pos() == start.pos());
        }
        let ghost simple = old(self).word_query() is Some;
        assert(simple ==> self.sole_word() == old(self).word_query());
        let ghost fw = old(self).field_words();
        let ghost fk = match fw {
            Some(t) => t.1,
            None => 0,
        };
        let ghost fp = match fw {
            Some(t) => t.2,
            None => 0,
        };
        let ghost fwn = match fw {
            Some(t) => t.0.len(),
            None => 0,
        };
        proof {
            if fw is Some {
                assert(Self::same_stream(start, *self));
                assert(start.words_from(self.kept(), self.pos(), Seq::empty()) == fw);
            }
        }
        let fields = self.parse_fields(Ghost(start))?;
        proof {
            if fw is Some {
                Self::lemma_stop(start, *self);
            }
        }
        assert(simple ==> self.at_end());
        let ghost ts = if fw is Some {
            start
        } else {
            *self
        };
        self.parse_tail(Ghost(ts), fields)
    }

    /// Reads the rest of a query once its fields are read (stopping at
    /// position `pos` with `kept` lexemes kept): the roots, with `~` below
    /// the home directory, and what follows them.
    #[verifier::rlimit(100)]
    #[verifier::spinoff_prover]
    fn parse_tail(&mut self, Ghost(start): Ghost<Parser>, fields: Vec<Expr>) -> (r: Result<Query, String>)
        requires
            old(self).wf(),
            fields@.len() > 0,
            Self::same_stream(start, *old(self)),
        ensures
            Self::moved(*old(self), *final(self)),
            r matches Ok(q) ==> {
                &&& q.fields == fields
                &&& q.roots@.len() > 0
                &&& q.ordering_fields@.len() == q.ordering_asc@.len()
                &&& (q.limit == 0 ==> spec_all_required_fields(q.fields@) != Set::<Field>::empty())
                &&& q.offset == 0
                &&& q.raw_query@ == join_words(old(self).input())
            },
            old(self).at_end() ==> (r matches Ok(q) && q.roots@.len() == 1 && q.roots@[0].path@ == "."@
                && q.roots@[0].options == default_root_options() && q.expr is None
                && q.grouping_fields@.len() == 0 && q.ordering_fields@.len() == 0
                && q.output_format == OutputFormat::Tabs),
            (old(self).pos() < old(self).kept() && old(self).first_kind() == Some(LexemeKind::Where)) ==> (
            r matches Ok(q) ==> q.expr is Some),
            (old(self).pos() < old(self).kept() && old(self).first_kind() == Some(LexemeKind::Where)) ==> start.where_outcome(
                old(self).first_kept(),
                next_pos(old(self).pos()),
                true,
                r,
            ),
            (old(self).pos() < old(self).kept() && old(self).first_kind() == Some(LexemeKind::Limit)) ==> (
            start.limit_value(old(self).kept(), old(self).pos()) matches Some(n) ==> (n > 0 ==> (r matches Ok(q)
                ==> q.limit == n))),
            (old(self).pos() < old(self).kept() && old(self).first_kind() == Some(LexemeKind::Order)) ==> (
            start.order_by_at(old(self).kept(), old(self).pos(), fields@.len() as int) matches Some((items, _, _)) ==> (
            r matches Ok(q) ==> ordering_is(q.ordering_fields@, q.ordering_asc@, items, q.fields@))),
            old(self).first_kind() == Some(LexemeKind::From) ==> ({
                &&& start.roots_fixed(old(self).kept(), old(self).pos()) matches Some(Err(e)) ==> (r matches Err(
                    m,
                ) && m@ == e)
                &&& start.roots_fixed(old(self).kept(), old(self).pos()) matches Some(Ok(v)) ==> (v.len() > 0
                    ==> (r matches Ok(q) ==> roots_view(q.roots@) == v))
            }),
        decreases old(self).meas().0, old(self).meas().1, old(self).meas().2, 21int,
    {
        let ghost fk = old(self).kept();
        let ghost fp = old(self).pos();
        let ghost from_next = old(self).first_kind() == Some(LexemeKind::From);
        let ghost where_next = old(self).pos() < old(self).kept() && old(self).first_kind() == Some(LexemeKind::Where);
        let ghost ends = old(self).at_end();
        let home = home_dir();
        let mut roots = match self.parse_roots(Ghost(start), &home) {
            Ok(v) => v,
            Err(e) => {
                proof {
                    if from_next {
                        assert(start.query_roots(fk, fp, opt_text(home)) matches Err(e2) && e2 == e@);
                        if start.roots_fixed(fk, fp) is Some {
                            assert(start.query_roots(fk, fp, opt_text(home)) == start.query_roots(fk, fp, None));
                        }
                    }
                }
                return Err(e);
            },
        };
        proof {
            if from_next {
                assert(start.query_roots(fk, fp, opt_text(home)) == Ok::<Seq<(Seq<char>, (RootOptions, Option<Seq<char>>))>, Seq<char>>(roots_view(roots@)));
                if start.roots_fixed(fk, fp) is Some {
                    assert(start.query_roots(fk, fp, opt_text(home)) == start.query_roots(fk, fp, None));
                }
            }
        }
        assert(ends ==> self.at_end() && roots@.len() == 0);
        proof {
            if where_next {
                old(self).lemma_look_again(fk, fp);
                assert(self.first_kind() == Some(LexemeKind::Where));
                assert(self.pos() < self.kept());
            }
        }
        proof {
            if fp < fk && (old(self).first_kind() == Some(LexemeKind::Limit) || old(self).first_kind() == Some(
                LexemeKind::Order,
            )) {
                lemma_same_stream_trans(start, *old(self), *self);
                old(self).lemma_look_again(fk, fp);
                assert(self.first() == old(self).first());
                assert(start.tok(fk) == old(self).tok(fk));
                assert(start.tok(fp + 1) == old(self).tok(fp + 1));
                assert(start.limit_value(self.kept(), self.pos()) == start.limit_value(fk, fp));
                assert(start.tok(self.kept()) == old(self).tok(self.kept()));
                assert(start.order_by_at(self.kept(), self.pos(), fields@.len() as int) == start.order_by_at(
                    fk,
                    fp,
                    fields@.len() as int,
                ));
            }
        }
        self.parse_rest(Ghost(start), fields, roots, &home)
    }

    /// Reads what follows the roots of a query (their options when no root
    /// took them, `where`, `group by`, `order by`, `limit` and `into`) and
    /// makes the query of it with the given fields and roots; a query
    /// without roots searches the current directory.
    #[verifier::rlimit(100)]
    #[verifier::spinoff_prover]
    fn parse_rest(&mut self, Ghost(start): Ghost<Parser>, fields: Vec<Expr>, roots: Vec<Root>, home: &Option<String>) -> (r: Result<Query, String>)
        requires
            old(self).wf(),
            fields@.len() > 0,
        ensures
            Self::moved(*old(self), *final(self)),
            r matches Ok(q) ==> {
                &&& q.fields == fields
                &&& roots@.len() > 0 ==> q.roots == roots
                &&& q.roots@.len() > 0
                &&& q.ordering_fields@.len() == q.ordering_asc@.len()
                &&& (q.limit == 0 ==> spec_all_required_fields(q.fields@) != Set::<Field>::empty())
                &&& q.offset == 0
                &&& q.raw_query@ == join_words(old(self).input())
            },
            (old(self).at_end() && roots@.len() == 0) ==> (r matches Ok(q) && q.roots@.len() == 1
                && q.roots@[0].path@ == "."@ && q.roots@[0].options == default_root_options()
                && q.expr is None && q.grouping_fields@.len() == 0 && q.ordering_fields@.len() == 0
                && q.output_format == OutputFormat::Tabs),
            (old(self).first_kind() == Some(LexemeKind::Where) && old(self).pos() < old(self).kept()) ==> (r matches Ok(
                q,
            ) ==> q.expr is Some),
            (Self::same_stream(start, *old(self)) && old(self).first_kind() == Some(LexemeKind::Where) && old(self).pos()
                < old(self).kept()) ==> start.where_outcome(
                old(self).first_kept(),
                next_pos(old(self).pos()),
                roots@.len() == 0,
                r,
            ),
            (Self::same_stream(start, *old(self)) && old(self).pos() < old(self).kept() && old(self).first_kind()
                == Some(LexemeKind::Limit)) ==> (start.limit_value(old(self).kept(), old(self).pos()) matches Some(n)
                ==> (n > 0 ==> (r matches Ok(q) ==> q.limit == n))),
            (Self::same_stream(start, *old(self)) && old(self).pos() < old(self).kept() && old(self).first_kind()
                == Some(LexemeKind::Order)) ==> (start.order_by_at(old(self).kept(), old(self).pos(), fields@.len() as int)
                matches Some((items, _, _)) ==> (r matches Ok(q) ==> ordering_is(
                q.ordering_fields@,
                q.ordering_asc@,
                items,
                q.fields@,
            ))),
        decreases old(self).meas().0, old(self).meas().1, old(self).meas().2, 20int,
    {
        let ghost ends = old(self).at_end() && roots@.len() == 0;
        let ghost wh = old(self).first_kind() == Some(LexemeKind::Where) && old(self).pos() < old(self).kept();
        let ghost ws = wh && Self::same_stream(start, *old(self));
        let ghost dl = Self::same_stream(start, *old(self)) && old(self).pos() < old(self).kept() && (old(self).first_kind()
            == Some(LexemeKind::Limit) || old(self).first_kind() == Some(LexemeKind::Order));
        let ghost dk = old(self).first_kept();
        let ghost sc = start.simple_cond_from(old(self).first_kept(), next_pos(old(self).pos()));
        let ghost sk = match sc {
            Some(t) => t.1,
            None => 0,
        };
        let ghost sp = match sc {
            Some(t) => t.2,
            None => 0,
        };
        let ghost big_k = start.kept_after(sk, sp + 1);
        let ghost wsimple = ws && sc is Some && kind_of(start.sees(sk, sp + 1)) != Some(LexemeKind::And) && kind_of(
            start.sees(sk, sp + 1),
        ) != Some(LexemeKind::Or);
        proof {
            start.lemma_simple_cond_stop(old(self).first_kept(), next_pos(old(self).pos()));
        }
        let root_options = self.parse_root_options(Ghost(*self))?;
        assert(ends ==> self.at_end() && root_options is None);
        assert(wh ==> root_options is None);
        proof {
            if wh {
                old(self).lemma_look_again(old(self).kept(), old(self).pos());
                assert(self.first() == old(self).first());
            }
            if ws || dl {
                lemma_same_stream_trans(start, *old(self), *self);
            }
        }
        assert(dl ==> self.pos() == old(self).pos() && self.kept() == dk);
        let ghost mid = *self;
        self.roots_parsed = true;
        proof {
            assert(Self::same_stream(mid, *self)) by {
                assert forall|x: int| #[trigger] mid.tok(x) == self.tok(x) by {}
            }
            if ws || dl {
                lemma_same_stream_trans(start, mid, *self);
            }
            if ws {
                assert(self.first_kept() == old(self).first_kept());
                assert(self.first_kind() == Some(LexemeKind::Where));
                Self::lemma_simple_cond_same(start, *self, self.first_kept(), next_pos(self.pos()));
                if sc is Some {
                    assert(start.tok(sk) == self.tok(sk));
                    assert(start.tok(sp + 1) == self.tok(sp + 1));
                }
            }
        }
        let ghost before = *self;
        proof {
            if dl {
                old(self).lemma_look_again(old(self).kept(), old(self).pos());
                assert(self.first() == old(self).first());
            }
        }
        let expr = self.parse_where()?;
        proof {
            if dl {
                lemma_same_stream_trans(start, before, *self);
                assert(self.pos() == old(self).pos() && self.kept() == dk);
                assert(start.tok(old(self).kept()) == old(self).tok(old(self).kept()));
                assert(start.tok(dk) == old(self).tok(dk));
                assert(start.limit_value(dk, old(self).pos()) == start.limit_value(old(self).kept(), old(self).pos()));
                assert(start.tok(dk) == self.tok(dk));
                assert(start.order_by_at(dk, old(self).pos(), fields@.len() as int) == start.order_by_at(
                    old(self).kept(),
                    old(self).pos(),
                    fields@.len() as int,
                ));
            }
        }
        assert(ends ==> self.at_end() && expr is None);
        proof {
            if wsimple {
                lemma_same_stream_trans(start, before, *self);
                assert(self.pos() == sp && self.kept() == big_k);
                assert(start.tok(sk) == self.tok(sk));
                assert(start.tok(sp + 1) == self.tok(sp + 1));
            }
        }
        assert(wsimple ==> (expr matches Some(e) && sc matches Some((c, _, _)) && simple_cond_is(e, c)));
        assert(wsimple && start.sees(sk, sp + 1) is None ==> self.at_end());
        assert(wsimple ==> self.pos() < self.kept());
        let ghost w2 = *self;
        self.where_parsed = true;
        proof {
            assert(Self::same_stream(w2, *self)) by {
                assert forall|x: int| #[trigger] w2.tok(x) == self.tok(x) by {}
            }
            if wsimple || dl {
                lemma_same_stream_trans(start, w2, *self);
            }
        }
        self.parse_finish(Ghost(start), fields, roots, root_options, expr, home)
    }

    /// Reads what follows the condition of a query (`group by`, `order by`,
    /// `limit`, `into`, and the roots when none came before) and makes the
    /// query with the given fields, roots, options and condition; a query
    /// without roots searches the current directory.
    #[verifier::rlimit(100)]
    #[verifier::spinoff_prover]
    fn parse_finish(
        &mut self,
        Ghost(start): Ghost<Parser>,
        fields: Vec<Expr>,
        roots: Vec<Root>,
        root_options: Option<RootOptions>,
        expr: Option<Expr>,
        home: &Option<String>,
    ) -> (r: Result<Query, String>)
        requires
            old(self).wf(),
            fields@.len() > 0,
            old(self).flags().1,
        ensures
            Self::moved(*old(self), *final(self)),
            r matches Ok(q) ==> {
                &&& q.fields == fields
                &&& q.expr == expr
                &&& roots@.len() > 0 ==> q.roots == roots
                &&& q.roots@.len() > 0
                &&& q.ordering_fields@.len() == q.ordering_asc@.len()
                &&& (q.limit == 0 ==> spec_all_required_fields(q.fields@) != Set::<Field>::empty())
                &&& q.offset == 0
                &&& q.raw_query@ == join_words(old(self).input())
            },
            (old(self).at_end() && roots@.len() == 0) ==> (r matches Ok(q) && q.roots@.len() == 1
                && q.roots@[0].path@ == "."@ && q.roots@[0].options == match root_options {
                Some(o) => o,
                None => default_root_options(),
            } && q.grouping_fields@.len() == 0 && q.ordering_fields@.len() == 0 && q.output_format
                == OutputFormat::Tabs),
            (Self::same_stream(start, *old(self)) && roots@.len() == 0 && old(self).pos() < old(self).kept()
                && old(self).first_kind() == Some(LexemeKind::From)) ==> ({
                &&& start.roots_fixed(old(self).kept(), old(self).pos()) matches Some(Err(e)) ==> (r matches Err(m)
                    && m@ == e)
                &&& start.roots_fixed(old(self).kept(), old(self).pos()) matches Some(Ok(v)) ==> (v.len() > 0 ==> (
                r matches Ok(q) ==> roots_view(q.roots@) == v))
            }),
            (Self::same_stream(start, *old(self)) && old(self).pos() < old(self).kept()) ==> (start.limit_value(
                old(self).kept(),
                old(self).pos(),
            ) matches Some(n) ==> (n > 0 ==> (r matches Ok(q) ==> q.limit == n))),
            (Self::same_stream(start, *old(self)) && old(self).pos() < old(self).kept()) ==> (start.order_by_at(
                old(self).kept(),
                old(self).pos(),
                fields@.len() as int,
            ) matches Some((items, _, _)) ==> (r matches Ok(q) ==> ordering_is(
                q.ordering_fields@,
                q.ordering_asc@,
                items,
                q.fields@,
            ))),
        decreases old(self).meas().0, old(self).meas().1, old(self).meas().2, 19int,
    {
        let ghost lim = Self::same_stream(start, *old(self)) && old(self).pos() < old(self).kept() && start.limit_value(
            old(self).kept(),
            old(self).pos(),
        ) is Some;
        proof {
            if lim {
                assert(start.tok(old(self).kept()) == old(self).tok(old(self).kept()));
                assert(start.tok(old(self).pos() + 1) == old(self).tok(old(self).pos() + 1));
                assert(old(self).first_kind() == Some(LexemeKind::Limit));
            }
        }
        let ghost ends = old(self).at_end() && roots@.len() == 0;
        let ghost from = Self::same_stream(start, *old(self)) && roots@.len() == 0 && old(self).pos() < old(
            self,
        ).kept() && old(self).first_kind() == Some(LexemeKind::From);
        let ghost k0 = old(self).kept();
        let ghost p0 = old(self).pos();
        let ghost k1 = old(self).first_kept();
        let mut roots = roots;
        let ghost s0 = *self;
        let grouping_fields = self.parse_group_by()?;
        assert(ends ==> self.at_end() && grouping_fields@.len() == 0);
        assert(from ==> self.first_kind() == Some(LexemeKind::From) && self.pos() == p0 && self.kept() == k1);
        assert(lim ==> self.pos() == p0 && self.kept() == k1 && self.first_kind() == Some(LexemeKind::Limit));
        proof {
            if from || lim {
                lemma_same_stream_trans(start, s0, *self);
            }
        }
        let ghost s1 = *self;
        let ghost ord = Self::same_stream(start, *old(self)) && old(self).pos() < old(self).kept() && start.order_by_at(
            k0,
            p0,
            fields@.len() as int,
        ) is Some;
        proof {
            if ord {
                assert(start.tok(k0) == old(self).tok(k0));
                assert(start.tok(p0 + 1) == old(self).tok(p0 + 1));
                assert(old(self).first_kind() == Some(LexemeKind::Order));
                assert(self.pos() == p0 && self.kept() == k1);
                lemma_same_stream_trans(start, s0, *self);
                let kb = start.kept_after(k1, next_pos(p0) + 1);
                assert(start.tok(k1) == self.tok(k1));
                assert(start.tok(next_pos(p0) + 1) == self.tok(next_pos(p0) + 1));
                assert(start.tok(kb) == self.tok(kb));
                Self::lemma_order_same(start, *self, kb, next_pos(next_pos(p0)), fields@.len() as int, Seq::empty());
                assert(start.order_by_at(k0, p0, fields@.len() as int) == self.order_by_at(
                    self.kept(),
                    self.pos(),
                    fields@.len() as int,
                ));
            }
        }
        let (ordering_fields, ordering_asc) = self.parse_order_by(&fields)?;
        assert(ends ==> self.at_end() && ordering_fields@.len() == 0);
        assert(from ==> self.first_kind() == Some(LexemeKind::From) && self.pos() == p0 && self.kept() == k1);
        assert(lim ==> self.pos() == p0 && self.kept() == k1 && self.first_kind() == Some(LexemeKind::Limit));
        proof {
            if from || lim {
                lemma_same_stream_trans(start, s1, *self);
            }
        }
        let ghost s2 = *self;
        proof {
            if lim {
                assert(self.pos() == p0 && self.kept() == k1);
                assert(start.tok(k1) == self.tok(k1));
                assert(start.tok(p0 + 1) == self.tok(p0 + 1));
                assert(start.tok(next_pos(p0) + 1) == self.tok(next_pos(p0) + 1));
            }
        }
        let mut limit = self.parse_limit()?;
        assert(lim ==> start.limit_value(k0, p0) == Some(limit));
        assert(ends ==> self.at_end());
        assert(from ==> self.first_kind() == Some(LexemeKind::From) && self.pos() == p0 && self.kept() == k1);
        proof {
            if from {
                lemma_same_stream_trans(start, s2, *self);
            }
        }
        let ghost s3 = *self;
        let output_format = self.parse_output_format()?;
        assert(ends ==> self.at_end() && output_format == OutputFormat::Tabs);
        assert(from ==> self.first_kind() == Some(LexemeKind::From) && self.pos() == p0 && self.kept() == k1);
        proof {
            if from {
                lemma_same_stream_trans(start, s3, *self);
                assert(start.tok(k0) == self.tok(k0));
                assert(start.tok(k1) == self.tok(k1));
                assert(start.query_roots(k0, p0, opt_text(*home)) == start.roots_from(
                    self.first_kept(),
                    next_pos(self.pos()),
                    RootsMode::From,
                    Seq::empty(),
                    (default_root_options(), None),
                    Seq::empty(),
                    opt_text(*home),
                ));
                if start.roots_fixed(k0, p0) is Some {
                    assert(start.query_roots(k0, p0, opt_text(*home)) == start.query_roots(k0, p0, None));
                }
            }
        }
        let ghost orig = if from {
            start
        } else {
            *self
        };
        if roots.len() == 0 {
            roots = match self.parse_roots(Ghost(orig), home) {
                Ok(v) => v,
                Err(e) => {
                    return Err(e);
                },
            };
        }
        if roots.len() == 0 {
            roots.push(Root::default(root_options));
        }
        if limit == 0 && needs_no_file(&fields) {
            limit = 1;
        }
        let raw_query = self.lexer.get_input_string();
        Ok(
            Query {
                fields,
                roots,
                expr,
                grouping_fields,
                ordering_fields,
                ordering_asc,
                limit,
                offset: 0,
                output_format,
                raw_query,
            },
        )
    }

    /// Reads the fields to select, up to the first word that is not one.
    #[verifier::rlimit(60)]
    fn parse_fields(&mut self, Ghost(orig): Ghost<Parser>) -> (r: Result<Vec<Expr>, String>)
        requires
            old(self).wf(),
            Self::same_stream(orig, *old(self)),
        ensures
            orig.words_from(old(self).kept(), old(self).pos(), Seq::empty()) matches Some((ws, k, p)) ==> ({
                &&& Self::same_stream(orig, *final(self))
                &&& final(self).kept() == k
                &&& final(self).pos() == p
                &&& p < k
                &&& ws.len() > 0 ==> r is Ok
                &&& r matches Ok(v) ==> (v@.len() == ws.len() && forall|i: int| 0 <= i < ws.len() ==> cond_word_is(
                    #[trigger] v@[i],
                    ws[i],
                    old(self).flags().0 && !old(self).flags().1,
                ))
            }),
            Self::steps(*old(self), *final(self)),
            r matches Ok(v) ==> v@.len() > 0,
            !starts_selector(old(self).first_kind()) ==> (r matches Err(e) && e@
                == "Error parsing fields, no selector found"@ && Self::only_looked(
                *old(self),
                *final(self),
            )),
            old(self).sole_word() matches Some(t) ==> (r matches Ok(v) && v@.len() == 1 && cond_word_is(
                v@[0],
                t,
                old(self).flags().0 && !old(self).flags().1,
            ) && Self::read_lone_word(*old(self), *final(self))),
        decreases old(self).meas().0, old(self).meas().1, old(self).meas().2, 19int,
    {
        let mut fields: Vec<Expr> = Vec::new();
        let ghost target = orig.words_from(old(self).kept(), old(self).pos(), Seq::empty());
        let ghost sh = old(self).flags().0 && !old(self).flags().1;
        let ghost mut ws: Seq<Seq<char>> = Seq::empty();
        loop
            invariant_except_break
                target is Some ==> (orig.words_from(self.kept(), self.pos(), ws) == target && self.pos() < self.kept()),
                old(self).sole_word() matches Some(t) ==> ((fields@.len() == 0 && self.pos()
                    == old(self).pos() && self.kept() == old(self).kept() && Self::same_stream(
                    *old(self),
                    *self,
                )) || (fields@.len() == 1 && cond_word_is(
                    fields@[0],
                    t,
                    old(self).flags().0 && !old(self).flags().1,
                ) && Self::read_lone_word(*old(self), *self))),
                !starts_selector(old(self).first_kind()) ==> (self.pos() == old(self).pos()
                    && self.kept() == old(self).kept() && fields@.len() == 0 && Self::same_stream(
                    *old(self),
                    *self,
                )),
            invariant
                Self::steps(*old(self), *self),
                Self::same_stream(orig, *old(self)),
                target == orig.words_from(old(self).kept(), old(self).pos(), Seq::empty()),
                sh == (old(self).flags().0 && !old(self).flags().1),
                target is Some ==> (Self::same_stream(orig, *self) && fields@.len() == ws.len() && forall|i: int|
                    0 <= i < ws.len() ==> cond_word_is(#[trigger] fields@[i], ws[i], sh)),
            ensures
                Self::steps(*old(self), *self),
                target is Some ==> (Self::same_stream(orig, *self) && target == Some((ws, self.kept(), self.pos()))
                    && self.pos() < self.kept()
                    && fields@.len() == ws.len() && forall|i: int|
                    0 <= i < ws.len() ==> cond_word_is(#[trigger] fields@[i], ws[i], sh)),
                old(self).sole_word() matches Some(t) ==> (fields@.len() == 1 && cond_word_is(
                    fields@[0],
                    t,
                    old(self).flags().0 && !old(self).flags().1,
                ) && Self::read_lone_word(*old(self), *self)),
                !starts_selector(old(self).first_kind()) ==> (fields@.len() == 0
                    && Self::only_looked(*old(self), *self)),
            decreases self.meas().0, self.meas().1, self.meas().2,
        {
            let ghost k0 = self.kept();
            let ghost p0 = self.pos();
            proof {
                assert(self.wf());
                if target is Some {
                    assert(orig.sees(k0, p0 + 1) == self.sees(k0, p0 + 1));
                    assert(orig.kept_after(k0, p0 + 1) == self.kept_after(k0, p0 + 1));
                }
            }
            let lexeme = self.peek();
            proof {
                if target is Some {
                    let k1 = self.kept();
                    assert(orig.sees(k1, p0 + 1) == self.sees(k1, p0 + 1));
                    assert(orig.kept_after(k1, p0 + 1) == self.kept_after(k1, p0 + 1));
                    let k1b = self.kept_after(k1, p0 + 1);
                    assert(orig.sees(k1b, p0 + 2) == self.sees(k1b, p0 + 2));
                    assert(orig.kept_after(k1b, p0 + 2) == self.kept_after(k1b, p0 + 2));
                }
            }
            match lexeme {
                Some(Lexeme::Comma) => {
                    self.advance();
                },
                Some(Lexeme::String(s)) | Some(Lexeme::RawString(s)) | Some(
                    Lexeme::ArithmeticOperator(s),
                ) => {
                    if str_eq(s.as_str(), "*") {
                        self.advance();
                        fields.push(Expr::field(Field::Mode));
                        fields.push(Expr::field(Field::User));
                        fields.push(Expr::field(Field::Group));
                        fields.push(Expr::field(Field::Size));
                        fields.push(Expr::field(Field::Modified));
                        fields.push(Expr::field(Field::Path));
                    } else {
                        let lower = to_lowercase(s.as_str());
                        if str_eq(lower.as_str(), "group") {
                            let after = self.peek2();
                            if matches!(after, Some(Lexeme::By)) {
                                break;
                            }
                        }
                        if Self::is_root_option_keyword(s.as_str()) {
                            break;
                        }
                        let before = self.mark();
                        proof {
                            if target is Some {
                                assert(self.lone_word() == Some(s@));
                            }
                        }
                        match self.parse_expr() {
                            Ok(Some(field)) => {
                                fields.push(field);
                                proof {
                                    if target is Some {
                                        ws = ws.push(s@);
                                    }
                                }
                            },
                            Ok(None) => {},
                            Err(e) => {
                                let after = self.mark();
                                if !Self::went_forward(before, after) {
                                    return Err(e);
                                }
                            },
                        }
                    }
                },
                Some(Lexeme::Open) | Some(Lexeme::CurlyOpen) => {
                    let before = self.mark();
                    match self.parse_expr() {
                        Ok(Some(field)) => fields.push(field),
                        Ok(None) => {},
                        Err(e) => {
                            let after = self.mark();
                            if !Self::went_forward(before, after) {
                                return Err(e);
                            }
                        },
                    }
                },
                _ => {
                    break;
                },
            }
        }
        if fields.len() == 0 {
            return Err(str_to_string("Error parsing fields, no selector found"));
        }
        Ok(fields)
    }

    /// Reads `from` and the roots that follow, each with its options; a
    /// path that starts with `~` is taken below `home`, when given.
    #[verifier::rlimit(100)]
    #[verifier::spinoff_prover]
    fn parse_roots(&mut self, Ghost(orig): Ghost<Parser>, home: &Option<String>) -> (r: Result<Vec<Root>, String>)
        requires
            old(self).wf(),
            Self::same_stream(orig, *old(self)),
        ensures
            old(self).first_kind() == Some(LexemeKind::From) ==> roots_outcome(r) == orig.roots_from(
                old(self).first_kept(),
                next_pos(old(self).pos()),
                RootsMode::From,
                Seq::empty(),
                (default_root_options(), None),
                Seq::empty(),
                opt_text(*home),
            ),
            Self::steps(*old(self), *final(self)),
            old(self).first_kind() != Some(LexemeKind::From) ==> (r matches Ok(v) && v@.len() == 0
                && Self::only_looked(*old(self), *final(self))),
            old(self).single_root() matches Some(t) ==> (r matches Ok(v) && v@.len() == 1
                && v@[0].path@ == t && v@[0].options == default_root_options()),
    {
        let ghost h = opt_text(*home);
        let ghost target = orig.roots_from(
            old(self).first_kept(),
            next_pos(old(self).pos()),
            RootsMode::From,
            Seq::empty(),
            (default_root_options(), None),
            Seq::empty(),
            h,
        );
        let mut roots: Vec<Root> = Vec::new();
        let first = self.peek();
        if !matches!(first, Some(Lexeme::From)) {
            return Ok(roots);
        }
        self.advance();
        let mut path = String::new();
        let mut root_options = RootOptions::new();
        let mut mode = RootsMode::From;
        proof {
            assert(roots_view(roots@) =~= Seq::<(Seq<char>, (RootOptions, Option<Seq<char>>))>::empty());
            assert(path@ =~= Seq::<char>::empty());
        }
        loop
            invariant
                h == opt_text(*home),
                old(self).first_kind() == Some(LexemeKind::From),
                Self::steps(*old(self), *self),
                Self::same_stream(orig, *self),
                target == orig.roots_from(
                    old(self).first_kept(),
                    next_pos(old(self).pos()),
                    RootsMode::From,
                    Seq::empty(),
                    (default_root_options(), None),
                    Seq::empty(),
                    h,
                ),
                orig.roots_from(self.kept(), self.pos(), mode, path@, options_view(root_options), roots_view(roots@), h)
                    == target,
                old(self).single_root() matches Some(t) ==> (roots@.len() == 0 && root_options
                    == default_root_options() && Self::same_stream(*old(self), *self) && ((mode is From
                    && self.pos() == next_pos(old(self).pos()) && self.kept() == old(self).first_kept())
                    || (mode is Root && path@ == t && self.pos() == next_pos(next_pos(old(self).pos()))
                    && self.kept() == old(self).kept_after(
                    old(self).first_kept(),
                    next_pos(old(self).pos()) + 1,
                )))),
            decreases self.meas().0, self.meas().1, self.meas().2,
        {
            let ghost before = roots@;
            let ghost k0 = self.kept();
            let ghost p0 = self.pos();
            proof {
                assert(self.wf());
                assert(k0 <= keep_limit());
                assert(orig.sees(k0, p0 + 1) == self.sees(k0, p0 + 1));
                assert(orig.kept_after(k0, p0 + 1) == self.kept_after(k0, p0 + 1));
                assert(orig.sees(orig.kept_after(k0, p0 + 1), p0 + 2) == self.sees(self.kept_after(k0, p0 + 1), p0 + 2));
                assert(orig.kept_after(orig.kept_after(k0, p0 + 1), p0 + 2) == self.kept_after(self.kept_after(k0, p0 + 1), p0 + 2));
            }
            let lexeme = self.peek();
            match lexeme {
                Some(Lexeme::String(s)) | Some(Lexeme::RawString(s)) => match mode {
                    RootsMode::From | RootsMode::Comma => {
                        self.advance();
                        path = s;
                        if starts_with(path.as_str(), "~") {
                            match home {
                                Some(hd) => {
                                    path = expand_home(path.as_str(), hd.as_str());
                                },
                                None => {},
                            }
                        }
                        mode = RootsMode::Root;
                    },
                    RootsMode::Root => {
                        let lower = to_lowercase(s.as_str());
                        if str_eq(lower.as_str(), "group") {
                            let after = self.peek2();
                            if matches!(after, Some(Lexeme::By)) {
                                if path.as_str().unicode_len() > 0 {
                                    roots.push(Root::new(path, root_options));
                                    proof {
                                        lemma_roots_view_push(before, roots@.last());
                                        assert(roots@ =~= before.push(roots@.last()));
                                    }
                                }
                                return Ok(roots);
                            }
                            self.advance();
                        }
                        match self.parse_root_options(Ghost(orig))? {
                            Some(options) => {
                                root_options = options;
                            },
                            None => {
                                roots.push(Root::new(path, RootOptions::new()));
                                proof {
                                    lemma_roots_view_push(before, roots@.last());
                                    assert(roots@ =~= before.push(roots@.last()));
                                }
                                return Ok(roots);
                            },
                        }
                    },
                },
                Some(Lexeme::Comma) => {
                    if path.as_str().unicode_len() > 0 {
                        self.advance();
                        roots.push(Root::new(path, root_options));
                        proof {
                            lemma_roots_view_push(before, roots@.last());
                            assert(roots@ =~= before.push(roots@.last()));
                        }
                        path = String::new();
                        root_options = RootOptions::new();
                        mode = RootsMode::Comma;
                    } else {
                        return Ok(roots);
                    }
                },
                Some(_) => {
                    if path.as_str().unicode_len() > 0 {
                        roots.push(Root::new(path, root_options));
                        proof {
                            lemma_roots_view_push(before, roots@.last());
                            assert(roots@ =~= before.push(roots@.last()));
                        }
                    }
                    return Ok(roots);
                },
                None => {
                    self.advance();
                    if path.as_str().unicode_len() > 0 {
                        roots.push(Root::new(path, root_options));
                        proof {
                            lemma_roots_view_push(before, roots@.last());
                            assert(roots@ =~= before.push(roots@.last()));
                        }
                    }
                    return Ok(roots);
                },
            }
        }
    }

    /// Applies an option word (already in lower case) to the options: the
    /// mode it leaves the list in, or `None` for a word that is no option.
    fn apply_option_word(w: &str, o: &mut RootOptions) -> (r: Option<OptionsMode>)
        ensures
            match option_word(w@, *old(o)) {
                Some((m, o2)) => r == Some(m) && *final(o) == o2,
                None => r is None && *final(o) == *old(o),
            },
    {
        if str_eq(w, "mindepth") {
            Some(OptionsMode::MinDepth)
        } else if str_eq(w, "maxdepth") || str_eq(w, "depth") {
            Some(OptionsMode::Depth)
        } else if starts_with(w, "arc") {
            o.archives = true;
            Some(OptionsMode::Options)
        } else if starts_with(w, "sym") {
            o.symlinks = true;
            Some(OptionsMode::Options)
        } else if starts_with(w, "hard") {
            o.hardlinks = true;
            Some(OptionsMode::Options)
        } else if starts_with(w, "git") {
            o.gitignore = Some(true);
            Some(OptionsMode::Options)
        } else if starts_with(w, "hg") {
            o.hgignore = Some(true);
            Some(OptionsMode::Options)
        } else if starts_with(w, "dock") {
            o.dockerignore = Some(true);
            Some(OptionsMode::Options)
        } else if starts_with(w, "nogit") {
            o.gitignore = Some(false);
            Some(OptionsMode::Options)
        } else if starts_with(w, "nohg") {
            o.hgignore = Some(false);
            Some(OptionsMode::Options)
        } else if starts_with(w, "nodock") {
            o.dockerignore = Some(false);
            Some(OptionsMode::Options)
        } else if str_eq(w, "bfs") {
            o.traversal = TraversalMode::Bfs;
            Some(OptionsMode::Options)
        } else if str_eq(w, "dfs") {
            o.traversal = TraversalMode::Dfs;
            Some(OptionsMode::Options)
        } else if starts_with(w, "regex") {
            o.regexp = true;
            Some(OptionsMode::Options)
        } else if str_eq(w, "as") {
            Some(OptionsMode::Alias)
        } else {
            None
        }
    }

    /// Where reading a list of root options stops (see `options_from`):
    /// the lexemes kept and the position reached.
    pub open spec fn options_stop(&self, kept: int, pos: int, m: OptionsMode, o: RootOptions, alias: Option<Seq<char>>) -> (int, int)
        decreases
            (if pos < keep_limit() {
                keep_limit() - pos
            } else {
                0
            }),
            (if kept < keep_limit() {
                keep_limit() - kept
            } else {
                0
            }),
    {
        let l = self.sees(kept, pos + 1);
        let k1 = self.kept_after(kept, pos + 1);
        let p1 = next_pos(pos);
        if kept > keep_limit() {
            (kept, pos)
        } else {
            match l {
                None => (k1, p1),
                Some((kind, t)) => if kind == LexemeKind::String || kind == LexemeKind::RawString {
                    if m == OptionsMode::MinDepth {
                        match spec_parse_u32(t) {
                            Some(d) => self.options_stop(k1, p1, OptionsMode::Options, RootOptions { min_depth: d, ..o }, alias),
                            None => (k1, pos),
                        }
                    } else if m == OptionsMode::Depth {
                        match spec_parse_u32(t) {
                            Some(d) => self.options_stop(k1, p1, OptionsMode::Options, RootOptions { max_depth: d, ..o }, alias),
                            None => (k1, pos),
                        }
                    } else if m == OptionsMode::Alias {
                        self.options_stop(k1, p1, OptionsMode::Options, o, Some(t))
                    } else {
                        match option_word(ascii_lower(t), o) {
                            Some((m2, o2)) => self.options_stop(k1, p1, m2, o2, alias),
                            None => (k1, pos),
                        }
                    }
                } else if kind == LexemeKind::Operator && t == "rx"@ {
                    self.options_stop(k1, p1, OptionsMode::Options, RootOptions { regexp: true, ..o }, alias)
                } else {
                    (k1, pos)
                },
            }
        }
    }

    /// Reading the next lexeme, when there is one, brings the parser nearer
    /// to the end; looking at it does not move it farther away.
    pub proof fn lemma_read_progress(&self, k: int, p: int)
        requires
            k <= keep_limit(),
            self.sees(k, p + 1) is Some,
        ensures
            dec_lt(dec(self.kept_after(k, p + 1), next_pos(p)), dec(k, p)),
            dec_le(dec(self.kept_after(k, p + 1), p), dec(k, p)),
            self.kept_after(k, p + 1) <= keep_limit(),
    {
    }

    /// A list of root options stops no farther from the end than it
    /// started, and nearer when it gave options from the start of a list.
    pub proof fn lemma_options_progress(&self, k: int, p: int, m: OptionsMode, o: RootOptions, al: Option<Seq<char>>)
        requires
            k <= keep_limit(),
        ensures
            dec_le(dec(self.options_stop(k, p, m, o, al).0, self.options_stop(k, p, m, o, al).1), dec(k, p)),
            self.options_stop(k, p, m, o, al).0 <= keep_limit(),
            (m == OptionsMode::Unknown && self.options_from(k, p, m, o, al) matches Ok(Some(_))) ==> dec_lt(
                dec(self.options_stop(k, p, m, o, al).0, self.options_stop(k, p, m, o, al).1),
                dec(k, p),
            ),
        decreases dec(k, p).0, dec(k, p).1,
    {
        let l = self.sees(k, p + 1);
        let k1 = self.kept_after(k, p + 1);
        let p1 = next_pos(p);
        match l {
            None => {},
            Some((kind, t)) => {
                self.lemma_read_progress(k, p);
                if kind == LexemeKind::String || kind == LexemeKind::RawString {
                    if m == OptionsMode::MinDepth {
                        match spec_parse_u32(t) {
                            Some(d) => self.lemma_options_progress(k1, p1, OptionsMode::Options, RootOptions { min_depth: d, ..o }, al),
                            None => {},
                        }
                    } else if m == OptionsMode::Depth {
                        match spec_parse_u32(t) {
                            Some(d) => self.lemma_options_progress(k1, p1, OptionsMode::Options, RootOptions { max_depth: d, ..o }, al),
                            None => {},
                        }
                    } else if m == OptionsMode::Alias {
                        self.lemma_options_progress(k1, p1, OptionsMode::Options, o, Some(t));
                    } else {
                        match option_word(ascii_lower(t), o) {
                            Some((m2, o2)) => self.lemma_options_progress(k1, p1, m2, o2, al),
                            None => {},
                        }
                    }
                } else if kind == LexemeKind::Operator && t == "rx"@ {
                    self.lemma_options_progress(k1, p1, OptionsMode::Options, RootOptions { regexp: true, ..o }, al);
                }
            },
        }
    }

    /// The roots read from position `pos + 1` on, with `kept` lexemes kept,
    /// in mode `mode`, with the current root's `path` and options `opts`
    /// and the roots `acc` read before it. A word after `from` or a comma
    /// is a path; the words after a path are its options (`group by` ends
    /// the list); a comma ends a root that has a path; anything else ends
    /// the list, keeping the current root when it has a path. A root whose
    /// options stop at a word that is no option is kept with the default
    /// options, and the list ends there.
    pub open spec fn roots_from(
        &self,
        kept: int,
        pos: int,
        mode: RootsMode,
        path: Seq<char>,
        opts: (RootOptions, Option<Seq<char>>),
        acc: Seq<(Seq<char>, (RootOptions, Option<Seq<char>>))>,
        home: Option<Seq<char>>,
    ) -> Result<Seq<(Seq<char>, (RootOptions, Option<Seq<char>>))>, Seq<char>>
        decreases dec(kept, pos).0, dec(kept, pos).1,
    {
        let l = self.sees(kept, pos + 1);
        let k1 = self.kept_after(kept, pos + 1);
        let p1 = next_pos(pos);
        let done = if path.len() > 0 {
            acc.push((path, opts))
        } else {
            acc
        };
        if kept > keep_limit() {
            Ok(done)
        } else {
            match l {
                None => Ok(done),
                Some((kind, t)) => if kind == LexemeKind::String || kind == LexemeKind::RawString {
                    if mode is Root {
                        let k2 = self.kept_after(k1, pos + 2);
                        let group = unicode_lowercase(t) == "group"@;
                        if group && kind_of(self.sees(k1, pos + 2)) == Some(LexemeKind::By) {
                            Ok(done)
                        } else {
                            let ko = if group {
                                k2
                            } else {
                                k1
                            };
                            let po = if group {
                                p1
                            } else {
                                pos
                            };
                            match self.options_from(ko, po, OptionsMode::Unknown, default_root_options(), None) {
                                Err(e) => Err(e),
                                Ok(None) => Ok(acc.push((path, (default_root_options(), None)))),
                                Ok(Some(o)) => {
                                    let st = self.options_stop(ko, po, OptionsMode::Unknown, default_root_options(), None);
                                    proof {
                                        self.lemma_read_progress(kept, pos);
                                        self.lemma_options_progress(ko, po, OptionsMode::Unknown, default_root_options(), None);
                                    }
                                    self.roots_from(st.0, st.1, RootsMode::Root, path, o, acc, home)
                                },
                            }
                        }
                    } else {
                        proof {
                            self.lemma_read_progress(kept, pos);
                        }
                        self.roots_from(k1, p1, RootsMode::Root, root_path(t, home), opts, acc, home)
                    }
                } else if kind == LexemeKind::Comma {
                    if path.len() > 0 {
                        proof {
                            self.lemma_read_progress(kept, pos);
                        }
                        self.roots_from(
                            k1,
                            p1,
                            RootsMode::Comma,
                            Seq::empty(),
                            (default_root_options(), None),
                            acc.push((path, opts)),
                            home,
                        )
                    } else {
                        Ok(acc)
                    }
                } else {
                    Ok(done)
                },
            }
        }
    }

    /// Reads one step of a list of root options in mode `mode`: `Ok(Some(m))`
    /// when a lexeme was taken and the list goes on in mode `m`, `Ok(None)`
    /// when the list stops before the next lexeme, an error when the input
    /// ends where a number or an alias is due. `orig` is the parser the list
    /// started from.
    fn options_step(
        &mut self,
        Ghost(orig): Ghost<Parser>,
        mode: OptionsMode,
        opts: &mut RootOptions,
        alias: &mut Option<String>,
    ) -> (r: Result<Option<OptionsMode>, String>)
        requires
            old(self).wf(),
            Self::same_stream(orig, *old(self)),
        ensures
            Self::steps(*old(self), *final(self)),
            Self::same_stream(*old(self), *final(self)),
            Self::same_stream(orig, *final(self)),
            final(opts).alias == old(opts).alias,
            r matches Ok(Some(m)) ==> m != OptionsMode::Unknown && lt3(final(self).meas(), old(self).meas())
                && orig.options_from(old(self).kept(), old(self).pos(), mode, *old(opts), opt_text(*old(alias)))
                == orig.options_from(final(self).kept(), final(self).pos(), m, *final(opts), opt_text(*final(alias)))
                && orig.options_stop(old(self).kept(), old(self).pos(), mode, *old(opts), opt_text(*old(alias)))
                == orig.options_stop(final(self).kept(), final(self).pos(), m, *final(opts), opt_text(*final(alias))),
            !(r matches Ok(Some(_))) ==> orig.options_stop(old(self).kept(), old(self).pos(), mode, *old(opts), opt_text(*old(alias)))
                == (final(self).kept(), final(self).pos()),
            r matches Ok(None) ==> orig.options_from(old(self).kept(), old(self).pos(), mode, *old(opts), opt_text(*old(alias)))
                == options_done(mode, *old(opts), opt_text(*old(alias))) && *final(opts) == *old(opts)
                && *final(alias) == *old(alias),
            r matches Err(e) ==> e@ == "Error parsing root options"@ && orig.options_from(
                old(self).kept(),
                old(self).pos(),
                mode,
                *old(opts),
                opt_text(*old(alias)),
            ) == Err::<Option<(RootOptions, Option<Seq<char>>)>, Seq<char>>("Error parsing root options"@),
            !starts_option(old(self).first_kind()) ==> (r matches Ok(None) && Self::only_looked(
                *old(self),
                *final(self),
            )),
            old(self).first() is None ==> ((mode == OptionsMode::Unknown ==> r matches Ok(None))
                && final(self).pos() == next_pos(old(self).pos()) && final(self).kept()
                == old(self).first_kept()),
    {
        proof {
            assert(orig.sees(self.kept(), self.pos() + 1) == self.sees(self.kept(), self.pos() + 1));
            assert(orig.kept_after(self.kept(), self.pos() + 1) == self.kept_after(self.kept(), self.pos() + 1));
            assert(self.kept() <= keep_limit());
        }
        let lexeme = self.peek();
        match lexeme {
            Some(Lexeme::String(s)) | Some(Lexeme::RawString(s)) => match mode {
                OptionsMode::Unknown | OptionsMode::Options => {
                    let lower = to_ascii_lowercase(s.as_str());
                    match Self::apply_option_word(lower.as_str(), opts) {
                        Some(m) => {
                            self.advance();
                            Ok(Some(m))
                        },
                        None => Ok(None),
                    }
                },
                OptionsMode::MinDepth => match parse_u32(s.as_str()) {
                    Some(d) => {
                        opts.min_depth = d;
                        self.advance();
                        Ok(Some(OptionsMode::Options))
                    },
                    None => Ok(None),
                },
                OptionsMode::Depth => match parse_u32(s.as_str()) {
                    Some(d) => {
                        opts.max_depth = d;
                        self.advance();
                        Ok(Some(OptionsMode::Options))
                    },
                    None => Ok(None),
                },
                OptionsMode::Alias => {
                    *alias = Some(s);
                    self.advance();
                    Ok(Some(OptionsMode::Options))
                },
            },
            Some(Lexeme::Operator(s)) => {
                if str_eq(s.as_str(), "rx") {
                    opts.regexp = true;
                    self.advance();
                    Ok(Some(OptionsMode::Options))
                } else {
                    Ok(None)
                }
            },
            Some(_) => Ok(None),
            None => {
                self.advance();
                if mode != OptionsMode::Unknown && mode != OptionsMode::Options {
                    Err(str_to_string("Error parsing root options"))
                } else {
                    Ok(None)
                }
            },
        }
    }

    /// Reads the options of a root (`depth 2`, `archives`, `dfs`,
    /// `as alias`...); `None` when the next word is no option.
    fn parse_root_options(&mut self, Ghost(orig): Ghost<Parser>) -> (r: Result<Option<RootOptions>, String>)
        requires
            old(self).wf(),
            Self::same_stream(orig, *old(self)),
        ensures
            options_outcome(r) == orig.options_from(
                old(self).kept(),
                old(self).pos(),
                OptionsMode::Unknown,
                default_root_options(),
                None,
            ),
            (final(self).kept(), final(self).pos()) == orig.options_stop(
                old(self).kept(),
                old(self).pos(),
                OptionsMode::Unknown,
                default_root_options(),
                None,
            ),
            Self::same_stream(orig, *final(self)),
            Self::steps(*old(self), *final(self)),
            r matches Ok(Some(_)) ==> lt3(final(self).meas(), old(self).meas()),
            !starts_option(old(self).first_kind()) ==> (r matches Ok(None) && Self::only_looked(
                *old(self),
                *final(self),
            )),
            old(self).first() is None ==> (r matches Ok(None) && final(self).pos() == next_pos(
                old(self).pos(),
            ) && final(self).kept() == old(self).first_kept() && Self::same_stream(
                *old(self),
                *final(self),
            )),
    {
        let ghost start: Parser = *self;
        let ghost target = orig.options_from(
            start.kept(),
            start.pos(),
            OptionsMode::Unknown,
            default_root_options(),
            None,
        );
        let ghost stop = orig.options_stop(
            start.kept(),
            start.pos(),
            OptionsMode::Unknown,
            default_root_options(),
            None,
        );
        let mut mode = OptionsMode::Unknown;
        let mut opts = RootOptions::new();
        let mut alias: Option<String> = None;
        loop
            invariant_except_break
                mode == OptionsMode::Unknown ==> (self.pos() == start.pos() && self.kept() == start.kept()),
                orig.options_from(self.kept(), self.pos(), mode, opts, opt_text(alias)) == target,
                orig.options_stop(self.kept(), self.pos(), mode, opts, opt_text(alias)) == stop,
            invariant
                start == *old(self),
                Self::same_stream(orig, start),
                Self::steps(start, *self),
                Self::same_stream(start, *self),
                Self::same_stream(orig, *self),
                mode != OptionsMode::Unknown ==> lt3(self.meas(), start.meas()),
                opts.alias is None,
                target == orig.options_from(
                    start.kept(),
                    start.pos(),
                    OptionsMode::Unknown,
                    default_root_options(),
                    None,
                ),
                stop == orig.options_stop(
                    start.kept(),
                    start.pos(),
                    OptionsMode::Unknown,
                    default_root_options(),
                    None,
                ),
            ensures
                Self::steps(start, *self),
                Self::same_stream(orig, *self),
                mode != OptionsMode::Unknown ==> lt3(self.meas(), start.meas()),
                !starts_option(start.first_kind()) ==> (mode == OptionsMode::Unknown
                    && Self::only_looked(start, *self)),
                start.first() is None ==> (mode == OptionsMode::Unknown && self.pos()
                    == next_pos(start.pos()) && self.kept() == start.first_kept()
                    && Self::same_stream(start, *self)),
                target == options_done(mode, opts, opt_text(alias)),
                stop == (self.kept(), self.pos()),
            decreases self.meas().0, self.meas().1, self.meas().2,
        {
            proof {
                if mode == OptionsMode::Unknown {
                    assert(self.first() == start.first());
                    assert(self.first_kept() == start.first_kept());
                }
            }
            let step = self.options_step(Ghost(orig), mode, &mut opts, &mut alias);
            proof {
                assert(Self::steps(start, *self));
            }
            match step {
                Ok(Some(m)) => {
                    mode = m;
                },
                Ok(None) => {
                    break;
                },
                Err(e) => {
                    return Err(e);
                },
            }
        }
        match mode {
            OptionsMode::Unknown => Ok(None),
            _ => {
                opts.alias = alias;
                Ok(Some(opts))
            },
        }
    }

    /// Reads `where` and its condition, if the query has one.
    fn parse_where(&mut self) -> (r: Result<Option<Expr>, String>)
        requires
            old(self).wf(),
        ensures
            Self::steps(*old(self), *final(self)),
            old(self).first_kind() != Some(LexemeKind::Where) ==> (r matches Ok(None) && Self::only_looked(
                *old(self),
                *final(self),
            )),
            old(self).first_kind() == Some(LexemeKind::Where) ==> (match old(self).lone_word_at(
                next_pos(old(self).pos()),
                old(self).first_kept(),
            ) {
                Some(t) => r matches Ok(Some(e)) && cond_word_is(
                    e,
                    t,
                    old(self).flags().0 && !old(self).flags().1,
                ) && final(self).pos() == next_pos(old(self).pos()) + 1 && final(self).kept()
                    == old(self).lone_kept_at(next_pos(old(self).pos()), old(self).first_kept())
                    && Self::same_stream(*old(self), *final(self)),
                None => true,
            }),
            old(self).first_kind() == Some(LexemeKind::Where) ==> (r matches Ok(x) ==> x is Some),
            old(self).first_kind() == Some(LexemeKind::Where) ==> (old(self).simple_cond_from(
                old(self).first_kept(),
                next_pos(old(self).pos()),
            ) matches Some((c, k2, p2)) ==> ((kind_of(old(self).sees(k2, p2 + 1)) != Some(LexemeKind::And) && kind_of(
                old(self).sees(k2, p2 + 1),
            ) != Some(LexemeKind::Or)) ==> (r matches Ok(Some(e)) && simple_cond_is(e, c) && final(self).kept()
                == old(self).kept_after(k2, p2 + 1) && final(self).pos() == p2 && Self::same_stream(
                *old(self),
                *final(self),
            )))),
        decreases old(self).meas().0, old(self).meas().1, old(self).meas().2, 18int,
    {
        let lexeme = self.peek();
        if matches!(lexeme, Some(Lexeme::Where)) {
            self.advance();
            proof {
                assert(self.kept() == old(self).first_kept() && self.pos() == next_pos(old(self).pos()));
                Self::lemma_simple_cond_same(*old(self), *self, self.kept(), self.pos());
                let sc = old(self).simple_cond_from(self.kept(), self.pos());
                if sc is Some {
                    let k2 = sc.unwrap().1;
                    let p2 = sc.unwrap().2;
                    assert(old(self).tok(k2) == self.tok(k2));
                    assert(old(self).tok(p2 + 1) == self.tok(p2 + 1));
                }
            }
            assert(self.lone_word() == old(self).lone_word_at(
                next_pos(old(self).pos()),
                old(self).first_kept(),
            ) && self.second_kept() == old(self).lone_kept_at(
                next_pos(old(self).pos()),
                old(self).first_kept(),
            ));
            self.parse_expr()
        } else {
            Ok(None)
        }
    }

    /// Reads `or`-separated conditions; of two, the lighter is evaluated
    /// first.
    #[verifier::rlimit(60)]
    fn parse_expr(&mut self) -> (r: Result<Option<Expr>, String>)
        requires
            old(self).wf(),
        ensures
            Self::steps(*old(self), *final(self)),
            r is Ok ==> lt3(final(self).meas(), old(self).meas()),
            r matches Ok(e) ==> e is Some,
            old(self).lone_word() matches Some(t) ==> (r matches Ok(Some(e)) && cond_word_is(
                e,
                t,
                old(self).flags().0 && !old(self).flags().1,
            ) && Self::read_lone_word(*old(self), *final(self))),
            old(self).bad_start() ==> Self::failed_start(*old(self), *final(self), r),
            old(self).simple_cond_from(old(self).kept(), old(self).pos()) matches Some((c, k2, p2)) ==> ((kind_of(
                old(self).sees(k2, p2 + 1),
            ) != Some(LexemeKind::And) && kind_of(old(self).sees(k2, p2 + 1)) != Some(LexemeKind::Or)) ==> (r matches Ok(
                Some(e),
            ) && simple_cond_is(e, c) && final(self).kept() == old(self).kept_after(k2, p2 + 1) && final(self).pos()
                == p2 && Self::same_stream(*old(self), *final(self)))),
        decreases old(self).meas().0, old(self).meas().1, old(self).meas().2, 9int,
    {
        let ghost sc = old(self).simple_cond_from(old(self).kept(), old(self).pos());
        let ghost sk = match sc {
            Some(t) => t.1,
            None => 0,
        };
        let ghost sp = match sc {
            Some(t) => t.2,
            None => 0,
        };
        let ghost sk1 = old(self).kept_after(sk, sp + 1);
        let ghost simple = sc is Some && kind_of(old(self).sees(sk, sp + 1)) != Some(LexemeKind::And) && kind_of(
            old(self).sees(sk, sp + 1),
        ) != Some(LexemeKind::Or);
        let first = self.parse_and()?;
        let left = match first {
            Some(l) => l,
            None => {
                return Err(str_to_string("Error parsing expression"));
            },
        };
        let mut right: Option<Expr> = None;
        loop
            invariant
                !old(self).bad_start(),
                old(self).lone_word() matches Some(t) ==> (self.pos() == old(self).pos() + 1
                    && self.kept() == old(self).second_kept() && Self::same_stream(*old(self), *self)
                    && cond_word_is(left, t, old(self).flags().0 && !old(self).flags().1)
                    && right is None),
                simple ==> (self.pos() == sp && self.kept() == sk1 && Self::same_stream(*old(self), *self)
                    && right is None && (sc matches Some((c, _, _)) && simple_cond_is(left, c))),
                sc == old(self).simple_cond_from(old(self).kept(), old(self).pos()),
                simple == (sc is Some && kind_of(old(self).sees(sk, sp + 1)) != Some(LexemeKind::And) && kind_of(
                    old(self).sees(sk, sp + 1),
                ) != Some(LexemeKind::Or)),
                sc matches Some((_, k2, p2)) ==> (sk == k2 && sp == p2),
                sk1 == old(self).kept_after(sk, sp + 1),
                Self::steps(*old(self), *self),
                lt3(self.meas(), old(self).meas()),
            decreases self.meas().0, self.meas().1, self.meas().2,
        {
            proof {
                if simple {
                    assert(old(self).tok(sk) == self.tok(sk));
                    assert(old(self).tok(sp + 1) == self.tok(sp + 1));
                    assert(old(self).tok(sk1) == self.tok(sk1));
                    old(self).lemma_simple_cond_stop(old(self).kept(), old(self).pos());
                    old(self).lemma_look_again(sk, sp);
                }
            }
            let lexeme = self.peek();
            match lexeme {
                Some(Lexeme::Or) => {
                    self.advance();
                    let next = self.parse_and()?;
                    let expr = match next {
                        Some(e) => e,
                        None => {
                            return Err(str_to_string("Error parsing expression"));
                        },
                    };
                    right = match right {
                        Some(r) => Some(Expr::logical_op(r, LogicalOp::Or, expr)),
                        None => Some(expr),
                    };
                },
                _ => {
                    return match right {
                        Some(right) => {
                            if left.weight <= right.weight {
                                Ok(Some(Expr::logical_op(left, LogicalOp::Or, right)))
                            } else {
                                Ok(Some(Expr::logical_op(right, LogicalOp::Or, left)))
                            }
                        },
                        None => Ok(Some(left)),
                    };
                },
            }
        }
    }

    /// Reads `and`-separated conditions.
    #[verifier::rlimit(60)]
    fn parse_and(&mut self) -> (r: Result<Option<Expr>, String>)
        requires
            old(self).wf(),
        ensures
            Self::steps(*old(self), *final(self)),
            r is Ok ==> lt3(final(self).meas(), old(self).meas()),
            r matches Ok(e) ==> e is Some,
            old(self).lone_word() matches Some(t) ==> (r matches Ok(Some(e)) && cond_word_is(
                e,
                t,
                old(self).flags().0 && !old(self).flags().1,
            ) && Self::read_lone_word(*old(self), *final(self))),
            old(self).bad_start() ==> Self::failed_start(*old(self), *final(self), r),
            old(self).simple_cond_from(old(self).kept(), old(self).pos()) matches Some((c, k2, p2)) ==> (kind_of(
                old(self).sees(k2, p2 + 1),
            ) != Some(LexemeKind::And) ==> (r matches Ok(Some(e)) && simple_cond_is(e, c) && final(self).kept()
                == old(self).kept_after(k2, p2 + 1) && final(self).pos() == p2 && Self::same_stream(
                *old(self),
                *final(self),
            ))),
        decreases old(self).meas().0, old(self).meas().1, old(self).meas().2, 8int,
    {
        let ghost sc = old(self).simple_cond_from(old(self).kept(), old(self).pos());
        let ghost sk = match sc {
            Some(t) => t.1,
            None => 0,
        };
        let ghost sp = match sc {
            Some(t) => t.2,
            None => 0,
        };
        let ghost simple = sc is Some && kind_of(old(self).sees(sk, sp + 1)) != Some(LexemeKind::And);
        proof {
            old(self).lemma_simple_cond_parts();
        }
        let first = self.parse_cond()?;
        let left = match first {
            Some(l) => l,
            None => {
                return Err(str_to_string("Error parsing expression"));
            },
        };
        let mut right: Option<Expr> = None;
        loop
            invariant
                !old(self).bad_start(),
                old(self).lone_word() matches Some(t) ==> (self.pos() == old(self).pos() + 1
                    && self.kept() == old(self).second_kept() && Self::same_stream(*old(self), *self)
                    && cond_word_is(left, t, old(self).flags().0 && !old(self).flags().1)
                    && right is None),
                simple ==> (self.pos() == sp && self.kept() == sk && Self::same_stream(*old(self), *self)
                    && right is None && (sc matches Some((c, _, _)) && simple_cond_is(left, c))),
                sc == old(self).simple_cond_from(old(self).kept(), old(self).pos()),
                simple == (sc is Some && kind_of(old(self).sees(sk, sp + 1)) != Some(LexemeKind::And)),
                sc matches Some((_, k2, p2)) ==> (sk == k2 && sp == p2),
                Self::steps(*old(self), *self),
                lt3(self.meas(), old(self).meas()),
            decreases self.meas().0, self.meas().1, self.meas().2,
        {
            proof {
                if simple {
                    assert(old(self).tok(sk) == self.tok(sk));
                    assert(old(self).tok(sp + 1) == self.tok(sp + 1));
                }
            }
            let lexeme = self.peek();
            match lexeme {
                Some(Lexeme::And) => {
                    self.advance();
                    let next = self.parse_cond()?;
                    let expr = match next {
                        Some(e) => e,
                        None => {
                            return Err(str_to_string("Error parsing expression"));
                        },
                    };
                    right = match right {
                        Some(r) => Some(Expr::logical_op(r, LogicalOp::And, expr)),
                        None => Some(expr),
                    };
                },
                _ => {
                    return match right {
                        Some(right) => Ok(Some(Expr::logical_op(left, LogicalOp::And, right))),
                        None => Ok(Some(left)),
                    };
                },
            }
        }
    }

    /// Reads a comparison: operands joined by an operator, `between .. and
    /// ..`, or `in` a list; `not` before the operator negates it, `not`
    /// before the condition negates the whole of it.
    #[verifier::rlimit(100)]
    #[verifier::spinoff_prover]
    fn parse_cond(&mut self) -> (r: Result<Option<Expr>, String>)
        requires
            old(self).wf(),
        ensures
            Self::steps(*old(self), *final(self)),
            r is Ok ==> lt3(final(self).meas(), old(self).meas()),
            r matches Ok(e) ==> e is Some,
            old(self).lone_word() matches Some(t) ==> (r matches Ok(Some(e)) && cond_word_is(
                e,
                t,
                old(self).flags().0 && !old(self).flags().1,
            ) && Self::read_lone_word(*old(self), *final(self))),
            old(self).bad_start() ==> Self::failed_start(*old(self), *final(self), r),
            old(self).between_words() matches Some((a, b, c)) ==> (r matches Ok(Some(e))
                && words_between(e, a, b, c)),
            old(self).in_words() matches Some((n, a, neg)) ==> (r matches Ok(x) ==> (x matches Some(e)
                && e.op == Some(if (n % 2 == 0) == !neg {
                Op::In
            } else {
                Op::NotIn
            }) && e.logical_op is None && (e.left matches Some(l) && word_operand_is(*l, a)))),
            old(self).compared_words() matches Some((n, a, op, b)) ==> (r matches Ok(Some(e))
                && words_compared(e, a, if n % 2 == 0 {
                op
            } else {
                spec_op_negate(op)
            }, b)),
            old(self).compared_words() is Some ==> (final(self).kept() == old(self).compared_stop(
                old(self).kept(),
                old(self).pos(),
            ).0 && final(self).pos() == old(self).compared_stop(old(self).kept(), old(self).pos()).1
                && Self::same_stream(*old(self), *final(self))),
            (old(self).compared_words() is None && old(self).between_words() is Some) ==> (final(self).kept()
                == old(self).between_stop(old(self).kept(), old(self).pos()).0 && final(self).pos()
                == old(self).between_stop(old(self).kept(), old(self).pos()).1 && Self::same_stream(
                *old(self),
                *final(self),
            )),
        decreases old(self).meas().0, old(self).meas().1, old(self).meas().2, 7int,
    {
        let mut negate = false;
        let ghost run = old(self).not_run(old(self).kept(), old(self).pos());
        let ghost counted = old(self).pos() < old(self).kept() && run.1 < keep_limit();
        let ghost mut nn: nat = 0;
        loop
            invariant_except_break
                (old(self).lone_word() is Some || old(self).bad_start() || old(self).between_words() is Some) ==> (!negate && self.pos()
                    == old(self).pos() && self.kept() == old(self).kept() && Self::same_stream(
                    *old(self),
                    *self,
                )),
                counted ==> (self.pos() < self.kept() && negate == (nn % 2 == 1) && old(self).not_run(
                    self.kept(),
                    self.pos(),
                ).1 == run.1 && old(self).not_run(self.kept(), self.pos()).2 == run.2 && nn
                    + old(self).not_run(self.kept(), self.pos()).0 == run.0),
            invariant
                Self::steps(*old(self), *self),
                Self::same_stream(*old(self), *self),
                run == old(self).not_run(old(self).kept(), old(self).pos()),
                counted == (old(self).pos() < old(self).kept() && run.1 < keep_limit()),
            ensures
                Self::steps(*old(self), *self),
                Self::same_stream(*old(self), *self),
                (old(self).lone_word() is Some || old(self).bad_start() || old(self).between_words() is Some) ==> (!negate
                    && Self::only_looked(*old(self), *self)),
                counted ==> (self.pos() == run.1 && self.kept() == run.2 && negate == (run.0 % 2 == 1)),
            decreases self.meas().0, self.meas().1, self.meas().2,
        {
            proof {
                assert(self.wf());
                assert(self.sees(self.kept(), self.pos() + 1) == old(self).sees(self.kept(), self.pos() + 1));
                assert(self.kept_after(self.kept(), self.pos() + 1) == old(self).kept_after(self.kept(), self.pos() + 1));
                if old(self).between_words() is Some {
                    assert(old(self).sees(old(self).kept(), old(self).pos() + 1) == old(self).sees(
                        old(self).first_kept(),
                        old(self).pos() + 1,
                    ));
                }
            }
            let lexeme = self.peek();
            if matches!(lexeme, Some(Lexeme::Not)) {
                self.advance();
                negate = !negate;
                proof {
                    nn = nn + 1;
                }
            } else {
                break;
            }
        }
        assert(old(self).lone_word() is Some ==> (self.lone_word() == old(self).lone_word()
            && self.second_kept() == old(self).second_kept() && self.second() == old(self).second()));
        assert(old(self).bad_start() ==> (self.bad_start() && self.first_kept() == old(self).first_kept()));
        let ghost words = old(self).between_words();
        let ghost wa = match words {
            Some(t) => t.0,
            None => Seq::<char>::empty(),
        };
        let ghost wb = match words {
            Some(t) => t.1,
            None => Seq::<char>::empty(),
        };
        let ghost wc = match words {
            Some(t) => t.2,
            None => Seq::<char>::empty(),
        };
        let ghost cmp = old(self).compared_words();
        let ghost ca = match cmp {
            Some(t) => t.1,
            None => Seq::<char>::empty(),
        };
        let ghost cb = match cmp {
            Some(t) => t.3,
            None => Seq::<char>::empty(),
        };
        let ghost cop = match cmp {
            Some(t) => t.2,
            None => Op::Eq,
        };
        let ghost inw = old(self).in_words();
        let ghost ia = match inw {
            Some(t) => t.1,
            None => Seq::<char>::empty(),
        };
        let ghost ineg = match inw {
            Some(t) => t.2,
            None => false,
        };
        let ghost q = run.1;
        let ghost qa = run.2;
        let ghost qa2 = old(self).kept_after(qa, q + 1);
        let ghost qb = old(self).kept_after(qa2, q + 2);
        let ghost qb2 = old(self).kept_after(qb, q + 2);
        let ghost qb3 = old(self).kept_after(qb2, q + 2);
        let ghost qc1 = old(self).kept_after(qb3, q + 3);
        let ghost p = old(self).pos();
        let ghost ka = old(self).first_kept();
        let ghost ka2 = old(self).kept_after(ka, p + 1);
        let ghost kb = old(self).kept_after(ka2, p + 2);
        let ghost kb2 = old(self).kept_after(kb, p + 2);
        let ghost kb3 = old(self).kept_after(kb2, p + 2);
        let ghost kc1 = old(self).kept_after(kb3, p + 3);
        let ghost kc = old(self).kept_after(kc1, p + 4);
        let ghost kd = old(self).kept_after(kc, p + 4);
        let ghost ke1 = old(self).kept_after(kd, p + 5);
        proof {
            if words is Some {
                assert(self.sees(ka, p + 1) == old(self).sees(ka, p + 1));
                assert(self.sees(ka2, p + 2) == old(self).sees(ka2, p + 2));
                assert(self.kept_after(ka, p + 1) == ka2);
                assert(self.operand_word() == Some(wa));
            }
            if cmp is Some || inw is Some {
                assert(self.pos() == q && self.kept() == qa);
                assert(self.sees(qa, q + 1) == old(self).sees(qa, q + 1));
                assert(self.sees(qa2, q + 2) == old(self).sees(qa2, q + 2));
                assert(self.kept_after(qa, q + 1) == qa2);
            }
            if cmp is Some {
                assert(self.operand_word() == Some(ca));
            }
            if inw is Some {
                assert(self.operand_word() == Some(ia));
            }
        }
        let first = self.parse_add_sub()?;
        let left = match first {
            Some(l) => l,
            None => {
                return Err(str_to_string("Error parsing expression"));
            },
        };
        proof {
            if words is Some {
                assert(self.pos() == p + 1 && self.kept() == kb);
                assert(self.sees(kb, p + 2) == old(self).sees(kb, p + 2));
            }
            if cmp is Some || inw is Some {
                assert(self.pos() == q + 1 && self.kept() == qb);
                assert(self.sees(qb, q + 2) == old(self).sees(qb, q + 2));
            }
        }
        let mut not = false;
        let lexeme = self.peek();
        if matches!(lexeme, Some(Lexeme::Not)) {
            self.advance();
            not = true;
        }
        proof {
            if words is Some {
                assert(!not && self.pos() == p + 1 && self.kept() == kb2);
                assert(self.sees(kb2, p + 2) == old(self).sees(kb2, p + 2));
            }
            if cmp is Some {
                assert(!not && self.pos() == q + 1 && self.kept() == qb2);
                assert(self.sees(qb2, q + 2) == old(self).sees(qb2, q + 2));
            }
            if inw is Some {
                assert(not == ineg);
                if ineg {
                    assert(self.pos() == q + 2 && self.kept() == qb2);
                    assert(self.sees(qb2, q + 3) == old(self).sees(qb2, q + 3));
                } else {
                    assert(self.pos() == q + 1 && self.kept() == qb2);
                    assert(self.sees(qb2, q + 2) == old(self).sees(qb2, q + 2));
                }
            }
        }
        let lexeme = self.peek();
        let result: Expr = match lexeme {
            Some(Lexeme::Operator(s)) => {
                if str_eq(s.as_str(), "between") {
                    self.advance();
                    proof {
                        if words is Some {
                            assert(self.pos() == p + 2 && self.kept() == kb3);
                            assert(self.sees(kb3, p + 3) == old(self).sees(kb3, p + 3));
                            assert(self.sees(kc1, p + 4) == old(self).sees(kc1, p + 4));
                            assert(self.kept_after(kb3, p + 3) == kc1);
                            assert(self.operand_word() == Some(wb));
                        }
                    }
                    let left_between = self.parse_add_sub()?;
                    proof {
                        if words is Some {
                            assert(self.pos() == p + 3 && self.kept() == kc);
                            assert(self.sees(kc, p + 4) == old(self).sees(kc, p + 4));
                        }
                    }
                    let and_lexeme = self.next_lexeme();
                    if !matches!(and_lexeme, Some(Lexeme::And)) {
                        return Err(str_to_string("Error parsing BETWEEN operator"));
                    }
                    proof {
                        if words is Some {
                            assert(self.pos() == p + 4 && self.kept() == kd);
                            assert(self.sees(kd, p + 5) == old(self).sees(kd, p + 5));
                            assert(self.sees(ke1, p + 6) == old(self).sees(ke1, p + 6));
                            assert(self.kept_after(kd, p + 5) == ke1);
                            assert(self.operand_word() == Some(wc));
                        }
                    }
                    let right_between = self.parse_add_sub()?;
                    proof {
                        if words is Some {
                            assert(self.pos() == p + 5);
                            assert(old(self).tok(ke1) == self.tok(ke1));
                            assert(self.kept() == old(self).kept_after(ke1, p + 6));
                            assert(Self::same_stream(*old(self), *self));
                        }
                    }
                    match (left_between, right_between) {
                        (Some(low), Some(high)) => between(left, low, high, not),
                        _ => {
                            return Err(str_to_string("Error parsing BETWEEN operator"));
                        },
                    }
                } else if str_eq(s.as_str(), "in") {
                    self.advance();
                    let list = self.parse_list()?;
                    proof {
                        if inw is Some {
                            assert(s@ == "in"@ && not == ineg);
                        }
                    }
                    match Op::from_with_not(s, not) {
                        Some(op) => Expr::op(left, op, list),
                        None => {
                            return Err(str_to_string("Error parsing operator"));
                        },
                    }
                } else {
                    self.advance();
                    proof {
                        if cmp is Some {
                            assert(self.pos() == q + 2 && self.kept() == qb3);
                            assert(self.sees(qb3, q + 3) == old(self).sees(qb3, q + 3));
                            assert(self.sees(qc1, q + 4) == old(self).sees(qc1, q + 4));
                            assert(self.kept_after(qb3, q + 3) == qc1);
                            assert(self.operand_word() == Some(cb));
                        }
                    }
                    let next = self.parse_add_sub()?;
                    proof {
                        if cmp is Some {
                            assert(self.pos() == q + 3);
                            assert(old(self).tok(qc1) == self.tok(qc1));
                            assert(self.kept() == old(self).kept_after(qc1, q + 4));
                            assert(Self::same_stream(*old(self), *self));
                        }
                    }
                    match (Op::from_with_not(s, not), next) {
                        (Some(op), Some(right)) => Expr::op(left, op, right),
                        _ => {
                            return Err(str_to_string("Error parsing operator"));
                        },
                    }
                }
            },
            _ => left,
        };
        let result = if self.roots_parsed && !self.where_parsed {
            boolean_shorthand(result)
        } else {
            result
        };
        if negate {
            let negated = Self::negate_expr_op(&result);
            proof {
                if cmp is Some {
                    lemma_negate_compared(result, negated, ca, cop, cb);
                }
                if inw is Some {
                    lemma_negate_op_node(result, negated, ia);
                }
            }
            Ok(Some(negated))
        } else {
            Ok(Some(result))
        }
    }

    /// Reads operands joined by `+` and `-`.
    fn parse_add_sub(&mut self) -> (r: Result<Option<Expr>, String>)
        requires
            old(self).wf(),
        ensures
            Self::steps(*old(self), *final(self)),
            r is Ok ==> lt3(final(self).meas(), old(self).meas()),
            r matches Ok(e) ==> e is Some,
            old(self).lone_word() matches Some(t) ==> (r matches Ok(Some(e)) && word_operand_is(e, t) && Self::read_lone_word(
                *old(self),
                *final(self),
            )),
            old(self).operand_word() matches Some(t) ==> (r matches Ok(Some(e)) && word_operand_is(e, t)
                && Self::read_lone_word(*old(self), *final(self))),
            old(self).bad_start() ==> Self::failed_start(*old(self), *final(self), r),
        decreases old(self).meas().0, old(self).meas().1, old(self).meas().2, 6int,
    {
        let first = self.parse_mul_div()?;
        let mut left = match first {
            Some(l) => l,
            None => {
                return Err(str_to_string("Error parsing expression"));
            },
        };
        loop
            invariant
                !old(self).bad_start(),
                old(self).operand_word() matches Some(t) ==> (self.pos() == old(self).pos() + 1
                    && self.kept() == old(self).second_kept() && Self::same_stream(*old(self), *self)
                    && word_operand_is(left, t)),
                Self::steps(*old(self), *self),
                lt3(self.meas(), old(self).meas()),
            decreases self.meas().0, self.meas().1, self.meas().2,
        {
            let lexeme = self.peek();
            match lexeme {
                Some(Lexeme::ArithmeticOperator(s)) => {
                    let new_op = ArithmeticOp::from(s);
                    match new_op {
                        Some(ArithmeticOp::Add) | Some(ArithmeticOp::Subtract) => {
                            self.advance();
                            let next = self.parse_mul_div()?;
                            match (new_op, next) {
                                (Some(op), Some(e)) => {
                                    left = Expr::arithmetic_op(left, op, e);
                                },
                                _ => {
                                    return Err(str_to_string("Error parsing expression"));
                                },
                            }
                        },
                        _ => {
                            return Ok(Some(left));
                        },
                    }
                },
                _ => {
                    return Ok(Some(left));
                },
            }
        }
    }

    /// Reads operands joined by `*`, `/` and `%`.
    fn parse_mul_div(&mut self) -> (r: Result<Option<Expr>, String>)
        requires
            old(self).wf(),
        ensures
            Self::steps(*old(self), *final(self)),
            r is Ok ==> lt3(final(self).meas(), old(self).meas()),
            r matches Ok(e) ==> e is Some,
            old(self).lone_word() matches Some(t) ==> (r matches Ok(Some(e)) && word_operand_is(e, t) && Self::read_lone_word(
                *old(self),
                *final(self),
            )),
            old(self).operand_word() matches Some(t) ==> (r matches Ok(Some(e)) && word_operand_is(e, t)
                && Self::read_lone_word(*old(self), *final(self))),
            old(self).bad_start() ==> Self::failed_start(*old(self), *final(self), r),
        decreases old(self).meas().0, old(self).meas().1, old(self).meas().2, 5int,
    {
        let first = self.parse_paren()?;
        let mut left = match first {
            Some(l) => l,
            None => {
                return Err(str_to_string("Error parsing expression"));
            },
        };
        loop
            invariant
                !old(self).bad_start(),
                old(self).operand_word() matches Some(t) ==> (self.pos() == old(self).pos() + 1
                    && self.kept() == old(self).first_kept() && Self::same_stream(*old(self), *self)
                    && word_operand_is(left, t)),
                Self::steps(*old(self), *self),
                lt3(self.meas(), old(self).meas()),
            decreases self.meas().0, self.meas().1, self.meas().2,
        {
            let lexeme = self.peek();
            match lexeme {
                Some(Lexeme::ArithmeticOperator(s)) => {
                    let new_op = ArithmeticOp::from(s);
                    match new_op {
                        Some(ArithmeticOp::Multiply) | Some(ArithmeticOp::Divide) | Some(
                            ArithmeticOp::Modulo,
                        ) => {
                            self.advance();
                            let next = self.parse_paren()?;
                            match (new_op, next) {
                                (Some(op), Some(e)) => {
                                    left = Expr::arithmetic_op(left, op, e);
                                },
                                _ => {
                                    return Err(str_to_string("Error parsing expression"));
                                },
                            }
                        },
                        _ => {
                            return Ok(Some(left));
                        },
                    }
                },
                _ => {
                    return Ok(Some(left));
                },
            }
        }
    }

    /// Reads an expression in round or curly brackets, or a single operand.
    fn parse_paren(&mut self) -> (r: Result<Option<Expr>, String>)
        requires
            old(self).wf(),
        ensures
            Self::steps(*old(self), *final(self)),
            r is Ok ==> lt3(final(self).meas(), old(self).meas()),
            r matches Ok(e) ==> e is Some,
            old(self).word_at() matches Some(t) ==> ({
                &&& r matches Ok(Some(e)) && word_operand_is(e, t)
                &&& final(self).pos() == old(self).pos() + 1
                &&& final(self).kept() == old(self).first_kept()
                &&& Self::same_stream(*old(self), *final(self))
            }),
            old(self).bad_start() ==> Self::failed_start(*old(self), *final(self), r),
        decreases old(self).meas().0, old(self).meas().1, old(self).meas().2, 4int,
    {
        let lexeme = self.peek();
        match lexeme {
            Some(Lexeme::Open) => {
                self.advance();
                let result = self.parse_expr();
                let close = self.next_lexeme();
                if matches!(close, Some(Lexeme::Close)) {
                    result
                } else {
                    Err(str_to_string("Unmatched parenthesis"))
                }
            },
            Some(Lexeme::CurlyOpen) => {
                self.advance();
                let result = self.parse_expr();
                let close = self.next_lexeme();
                if matches!(close, Some(Lexeme::CurlyClose)) {
                    result
                } else {
                    Err(str_to_string("Unmatched parenthesis"))
                }
            },
            _ => self.parse_func_scalar(),
        }
    }

    /// Reads the list after `in`: values in brackets, or a subquery.
    fn parse_list(&mut self) -> (r: Result<Expr, String>)
        requires
            old(self).wf(),
        ensures
            Self::steps(*old(self), *final(self)),
        decreases old(self).meas().0, old(self).meas().1, old(self).meas().2, 15int,
    {
        let lexeme = self.peek();
        match lexeme {
            Some(Lexeme::Open) => {
                self.advance();
                let next = self.peek();
                let result = if matches!(next, Some(Lexeme::Select)) {
                    self.advance();
                    // A nested query is read by a parser of its own over the
                    // same lexer, whose state is saved meanwhile; the closing
                    // bracket, which that parser read, is kept for this one.
                    let ghost before_sub = self.meas();
                    let mut lexer = Lexer::new(Vec::new());
                    std::mem::swap(&mut lexer, &mut self.lexer);
                    lexer.push_state();
                    let mut sub = Parser::new(lexer);
                    assert(lt3(sub.meas(), old(self).meas()));
                    let result = sub.parse(self.debug);
                    std::mem::swap(&mut self.lexer, &mut sub.lexer);
                    let query = match result {
                        Ok(query) => query,
                        Err(e) => {
                            return Err(e);
                        },
                    };
                    self.lexer.pop_state();
                    self.push_lexeme(Lexeme::Close);
                    assert(le3(self.meas(), bump(before_sub)));
                    Expr::subquery(query)
                } else {
                    let mut result = Expr::new();
                    let args = self.parse_args();
                    result.set_args(args);
                    result
                };
                let close = self.peek();
                if matches!(close, Some(Lexeme::Close)) {
                    self.advance();
                    Ok(result)
                } else {
                    Err(str_to_string("Unmatched parenthesis"))
                }
            },
            Some(Lexeme::CurlyOpen) => {
                self.advance();
                let mut result = Expr::new();
                let args = self.parse_args();
                result.set_args(args);
                let close = self.next_lexeme();
                if matches!(close, Some(Lexeme::CurlyClose)) {
                    Ok(result)
                } else {
                    Err(str_to_string("Unmatched parenthesis"))
                }
            },
            _ => Err(str_to_string("Error parsing list")),
        }
    }

    /// Reads comma-separated expressions up to the first that is not one.
    fn parse_args(&mut self) -> (r: Vec<Expr>)
        requires
            old(self).wf(),
        ensures
            final(self).wf(),
            final(self).lexer.inp() == old(self).lexer.inp(),
            final(self).flags() == old(self).flags(),
            le3(final(self).meas(), bump(old(self).meas())),
            (old(self).bad_start() && old(self).first_kind() != Some(LexemeKind::Comma)) ==> (r@.len()
                == 0 && Self::only_looked(*old(self), *final(self))),
        decreases old(self).meas().0, old(self).meas().1, old(self).meas().2, 14int,
    {
        let mut args: Vec<Expr> = Vec::new();
        loop
            invariant
                (old(self).bad_start() && old(self).first_kind() != Some(LexemeKind::Comma)) ==> (
                self.pos() == old(self).pos() && self.kept() == old(self).kept() && args@.len() == 0
                    && Self::same_stream(*old(self), *self)),
                Self::steps(*old(self), *self),
            decreases self.meas().0, self.meas().1, self.meas().2,
        {
            let lexeme = self.peek();
            match lexeme {
                Some(Lexeme::Comma) => {
                    self.advance();
                },
                _ => match self.parse_expr() {
                    Ok(Some(expr)) => args.push(expr),
                    _ => {
                        self.drop_lexeme();
                        return args;
                    },
                },
            }
        }
    }

    /// Reads an operand: a field, a function call or a value, with an
    /// optional sign.
    fn parse_func_scalar(&mut self) -> (r: Result<Option<Expr>, String>)
        requires
            old(self).wf(),
        ensures
            Self::steps(*old(self), *final(self)),
            r is Ok ==> lt3(final(self).meas(), old(self).meas()),
            r matches Ok(e) ==> e is Some,
            old(self).plain_word_ahead() matches Some(t) ==> ({
                &&& r matches Ok(Some(e)) && word_operand_is(e, t)
                &&& final(self).pos() == next_pos(old(self).pos())
                &&& final(self).kept() == old(self).first_kept()
                &&& Self::same_stream(*old(self), *final(self))
            }),
            !(old(self).first_kind() == Some(LexemeKind::String) || old(self).first_kind() == Some(
                LexemeKind::RawString,
            ) || old(self).first_kind() == Some(LexemeKind::ArithmeticOperator)) ==> ({
                &&& r matches Err(m) && m@ == "Error parsing expression, expecting string"@
                &&& final(self).pos() == next_pos(old(self).pos())
                &&& final(self).kept() == old(self).first_kept()
                &&& Self::same_stream(*old(self), *final(self))
            }),
        decreases old(self).meas().0, old(self).meas().1, old(self).meas().2, 3int,
    {
        let first = self.peek();
        let mut minus = false;
        let lexeme = match first {
            Some(Lexeme::ArithmeticOperator(s)) => {
                if str_eq(s.as_str(), "-") {
                    self.advance();
                    minus = true;
                    self.next_lexeme()
                } else if str_eq(s.as_str(), "+") {
                    self.advance();
                    Some(Lexeme::ArithmeticOperator(s))
                } else {
                    Some(Lexeme::ArithmeticOperator(s))
                }
            },
            other => {
                self.advance();
                other
            },
        };
        match lexeme {
            Some(Lexeme::String(s)) | Some(Lexeme::RawString(s)) => {
                match Field::parse_field(s.as_str()) {
                    Ok((field, root_alias)) => {
                        let mut expr = Expr::field_with_root_alias(field, root_alias);
                        expr.minus = minus;
                        return Ok(Some(expr));
                    },
                    Err(_) => {},
                }
                match Function::parse_name(s.as_str()) {
                    Ok(function) => {
                        let parsed = self.parse_function(function);
                        match parsed {
                            Ok(expr) => {
                                let mut expr = expr;
                                expr.minus = minus;
                                return Ok(Some(expr));
                            },
                            Err(err) => {
                                return Err(err);
                            },
                        }
                    },
                    Err(_) => {},
                }
                let mut expr = Expr::value(s);
                expr.minus = minus;
                Ok(Some(expr))
            },
            _ => Err(str_to_string("Error parsing expression, expecting string")),
        }
    }

    /// Reads a function call's arguments: the first in round or curly
    /// brackets, then comma-separated ones up to the closing bracket. A
    /// boolean function may stand without brackets.
    fn parse_function(&mut self, function: Function) -> (r: Result<Expr, String>)
        requires
            old(self).wf(),
        ensures
            Self::steps(*old(self), *final(self)),
            (old(self).first() is Some && old(self).first_kind() != Some(LexemeKind::Open)
                && old(self).first_kind() != Some(LexemeKind::CurlyOpen)) ==> ({
                &&& final(self).pos() == next_pos(old(self).pos())
                &&& final(self).kept() == old(self).first_kept()
                &&& Self::same_stream(*old(self), *final(self))
                &&& if function.spec_is_boolean() {
                    r matches Ok(e) && e.args matches Some(a) && a@.len() == 0 && e == (Expr {
                        function: Some(function),
                        args: e.args,
                        ..empty_node(function.spec_weight())
                    })
                } else {
                    r matches Err(m) && m@ == "Error in function expression"@
                }
            }),
        decreases old(self).meas().0, old(self).meas().1, old(self).meas().2, 10int,
    {
        let is_boolean_function = function.is_boolean_function();
        let mut function_expr = Expr::function(function);
        let mut curly_mode = false;
        let lexeme = self.next_lexeme();
        match lexeme {
            Some(Lexeme::Open) => {},
            Some(Lexeme::CurlyOpen) => {
                curly_mode = true;
            },
            Some(_) => {
                if is_boolean_function {
                    return Ok(function_expr);
                }
                return Err(str_to_string("Error in function expression"));
            },
            None => {},
        }
        match self.parse_expr() {
            Ok(Some(function_arg)) => function_expr.add_left(function_arg),
            _ => {
                return Ok(function_expr);
            },
        }
        let mut args: Vec<Expr> = Vec::new();
        loop
            invariant
                !(old(self).first() is Some && old(self).first_kind() != Some(LexemeKind::Open)
                    && old(self).first_kind() != Some(LexemeKind::CurlyOpen)),
                Self::steps(*old(self), *self),
            decreases self.meas().0, self.meas().1, self.meas().2,
        {
            let lexeme = self.next_lexeme();
            match lexeme {
                Some(Lexeme::Comma) => match self.parse_expr() {
                    Ok(Some(expr)) => args.push(expr),
                    _ => {
                        return Err(str_to_string("Error in function expression"));
                    },
                },
                Some(Lexeme::Close) => {
                    if curly_mode {
                        return Err(str_to_string("Error in function expression"));
                    }
                    function_expr.set_args(args);
                    return Ok(function_expr);
                },
                Some(Lexeme::CurlyClose) => {
                    if !curly_mode {
                        return Err(str_to_string("Error in function expression"));
                    }
                    function_expr.set_args(args);
                    return Ok(function_expr);
                },
                _ => {
                    return Err(str_to_string("Error in function expression"));
                },
            }
        }
    }

    /// Reads `group by` and the expressions to group by.
    fn parse_group_by(&mut self) -> (r: Result<Vec<Expr>, String>)
        requires
            old(self).wf(),
        ensures
            Self::steps(*old(self), *final(self)),
            !(old(self).first() matches Some((LexemeKind::RawString, t)) && unicode_lowercase(t)
                == "group"@) ==> (r matches Ok(v) && v@.len() == 0 && Self::only_looked(
                *old(self),
                *final(self),
            )),
            old(self).group_by_word() matches Some(t) ==> (r matches Ok(v) && v@.len() == 1
                && cond_word_is(v@[0], t, old(self).flags().0 && !old(self).flags().1)),
        decreases old(self).meas().0, old(self).meas().1, old(self).meas().2, 17int,
    {
        let mut group_by_fields: Vec<Expr> = Vec::new();
        let lexeme = self.peek();
        if let Some(Lexeme::RawString(s)) = lexeme {
            let lower = to_lowercase(s.as_str());
            if str_eq(lower.as_str(), "group") {
                self.advance();
                let next = self.peek();
                if matches!(next, Some(Lexeme::By)) {
                    self.advance();
                    loop
                        invariant
                            old(self).first() matches Some((LexemeKind::RawString, t)) && unicode_lowercase(t) == "group"@,
                        old(self).group_by_word() matches Some(t) ==> (Self::same_stream(
                            *old(self),
                            *self,
                        ) && ((group_by_fields@.len() == 0 && self.pos() == next_pos(
                            next_pos(old(self).pos()),
                        ) && self.kept() == old(self).kept_after(
                            old(self).first_kept(),
                            next_pos(old(self).pos()) + 1,
                        )) || (group_by_fields@.len() == 1 && cond_word_is(
                            group_by_fields@[0],
                            t,
                            old(self).flags().0 && !old(self).flags().1,
                        ) && self.pos() == next_pos(next_pos(old(self).pos())) + 1 && self.kept()
                            == old(self).lone_kept_at(
                            next_pos(next_pos(old(self).pos())),
                            old(self).kept_after(
                                old(self).first_kept(),
                                next_pos(old(self).pos()) + 1,
                            ),
                        )))),
                            Self::steps(*old(self), *self),
                        ensures
                            Self::steps(*old(self), *self),
                            old(self).group_by_word() matches Some(t) ==> (group_by_fields@.len() == 1
                                && cond_word_is(
                                group_by_fields@[0],
                                t,
                                old(self).flags().0 && !old(self).flags().1,
                            )),
                        decreases self.meas().0, self.meas().1, self.meas().2,
                    {
                        let item = self.peek();
                        match item {
                            Some(Lexeme::Comma) => {
                                self.advance();
                            },
                            Some(Lexeme::RawString(_)) => match self.parse_expr() {
                                Ok(Some(group_field)) => group_by_fields.push(group_field),
                                Ok(None) => {
                                    return Err(str_to_string("Error parsing group by"));
                                },
                                Err(e) => {
                                    return Err(e);
                                },
                            },
                            _ => {
                                break;
                            },
                        }
                    }
                }
            }
        }
        Ok(group_by_fields)
    }

    /// Reads `order by`: fields by position in the selection or by
    /// expression, each ascending unless followed by `desc`.
    #[verifier::rlimit(100)]
    #[verifier::spinoff_prover]
    fn parse_order_by(&mut self, fields: &Vec<Expr>) -> (r: Result<(Vec<Expr>, Vec<bool>), String>)
        requires
            old(self).wf(),
        ensures
            Self::steps(*old(self), *final(self)),
            r matches Ok((f, a)) ==> f@.len() == a@.len(),
            old(self).first_kind() != Some(LexemeKind::Order) ==> (r matches Ok((f, a)) && f@.len() == 0
                && a@.len() == 0 && Self::only_looked(*old(self), *final(self))),
            (!old(self).flags().0 || old(self).flags().1) ==> (old(self).order_by_at(
                old(self).kept(),
                old(self).pos(),
                fields@.len() as int,
            ) matches Some((items, k, p)) ==> (r matches Ok((f, a)) && ordering_is(f@, a@, items, fields@)
                && final(self).kept() == k && final(self).pos() == p && Self::same_stream(*old(self), *final(self)))),
        decreases old(self).meas().0, old(self).meas().1, old(self).meas().2, 16int,
    {
        let mut order_by_fields: Vec<Expr> = Vec::new();
        let mut order_by_directions: Vec<bool> = Vec::new();
        let ghost n = fields@.len() as int;
        let ghost target = if !old(self).flags().0 || old(self).flags().1 {
            old(self).order_by_at(old(self).kept(), old(self).pos(), n)
        } else {
            None
        };
        let ghost mut items: Seq<(OrderItem, bool)> = Seq::empty();
        let lexeme = self.peek();
        if matches!(lexeme, Some(Lexeme::Order)) {
            self.advance();
            let next = self.peek();
            if matches!(next, Some(Lexeme::By)) {
                self.advance();
                proof {
                    if target is Some {
                        assert(self.kept() == old(self).kept_after(
                            old(self).kept_after(old(self).kept(), old(self).pos() + 1),
                            next_pos(old(self).pos()) + 1,
                        ));
                        assert(Self::same_stream(*old(self), *self));
                    }
                }
                loop
                    invariant_except_break
                        target is Some ==> (old(self).order_from(self.kept(), self.pos(), n, items) == target
                            && self.pos() < self.kept()),
                    invariant
                        old(self).first_kind() == Some(LexemeKind::Order),
                        Self::steps(*old(self), *self),
                        order_by_fields@.len() == order_by_directions@.len(),
                        n == fields@.len(),
                        target == (if !old(self).flags().0 || old(self).flags().1 {
                            old(self).order_by_at(old(self).kept(), old(self).pos(), n)
                        } else {
                            None
                        }),
                        target is Some ==> (!old(self).flags().0 || old(self).flags().1),
                        target is Some ==> (Self::same_stream(*old(self), *self) && ordering_is(
                            order_by_fields@,
                            order_by_directions@,
                            items,
                            fields@,
                        )),
                    ensures
                        Self::steps(*old(self), *self),
                        order_by_fields@.len() == order_by_directions@.len(),
                        target is Some ==> (Self::same_stream(*old(self), *self) && target == Some(
                            (items, self.kept(), self.pos()),
                        ) && ordering_is(order_by_fields@, order_by_directions@, items, fields@)),
                    decreases self.meas().0, self.meas().1, self.meas().2,
                {
                    let ghost k0 = self.kept();
                    let ghost p0 = self.pos();
                    proof {
                        if target is Some {
                            assert(old(self).tok(k0) == self.tok(k0));
                            assert(old(self).tok(p0 + 1) == self.tok(p0 + 1));
                        }
                    }
                    let item = self.peek();
                    let ghost k1 = old(self).kept_after(k0, p0 + 1);
                    let ghost k1b = old(self).kept_after(k1, p0 + 1);
                    proof {
                        if target is Some {
                            assert(opt_lexeme_view(item) == old(self).sees(k0, p0 + 1));
                            assert(self.kept() == k1);
                            assert(old(self).tok(k1) == self.tok(k1));
                            assert(old(self).tok(k1b) == self.tok(k1b));
                            assert(old(self).tok(p0 + 2) == self.tok(p0 + 2));
                        }
                    }
                    match item {
                        Some(Lexeme::Comma) => {
                            self.advance();
                            proof {
                                if target is Some {
                                    assert(Self::same_stream(*old(self), *self));
                                }
                            }
                        },
                        Some(Lexeme::RawString(ordering_field)) => {
                            match parse_usize(ordering_field.as_str()) {
                                Some(idx) => {
                                    self.advance();
                                    if idx == 0 || idx > fields.len() {
                                        proof {
                                            if target is Some {
                                                assert(old(self).order_from(k0, p0, n, items) is None);
                                            }
                                        }
                                        return Err(
                                            str_to_string(
                                                "Error parsing order by, no field at that position",
                                            ),
                                        );
                                    }
                                    order_by_fields.push(fields[idx - 1].duplicate());
                                    proof {
                                        items = items.push((OrderItem::Position(idx), true));
                                    }
                                },
                                None => match {
                                    proof {
                                        if target is Some {
                                            assert(old(self).order_from(k0, p0, n, items) is Some);
                                            assert(self.plain_word_ahead() == Some(ordering_field@));
                                            assert(self.lone_word() == Some(ordering_field@));
                                        }
                                    }
                                    self.parse_expr()
                                } {
                                    Ok(Some(expr)) => {
                                        order_by_fields.push(expr);
                                        proof {
                                            items = items.push((OrderItem::Word(ordering_field@), true));
                                        }
                                    },
                                    Ok(None) => {
                                        return Err(str_to_string("Error parsing order by"));
                                    },
                                    Err(e) => {
                                        return Err(e);
                                    },
                                },
                            }
                            order_by_directions.push(true);
                            proof {
                                if target is Some {
                                    assert(Self::same_stream(*old(self), *self));
                                    assert(order_by_fields@.len() == items.len());
                                    assert(order_item_is(order_by_fields@.last(), items.last().0, fields@));
                                    assert(ordering_is(order_by_fields@, order_by_directions@, items, fields@));
                                }
                            }
                        },
                        Some(Lexeme::DescendingOrder) => {
                            self.advance();
                            let count = order_by_directions.len();
                            if count == 0 {
                                proof {
                                    if target is Some {
                                        assert(old(self).order_from(k0, p0, n, items) is None);
                                    }
                                }
                                return Err(
                                    str_to_string("Error parsing order by, desc without a field"),
                                );
                            }
                            let ghost dirs = order_by_directions@;
                            order_by_directions.set(count - 1, false);
                            proof {
                                if target is Some {
                                    let ghost before = items;
                                    items = items.update(items.len() - 1, (items.last().0, false));
                                    lemma_ordering_desc(order_by_fields@, dirs, before, fields@, order_by_directions@, items);
                                }
                            }
                        },
                        _ => {
                            break;
                        },
                    }
                }
            }
        }
        Ok((order_by_fields, order_by_directions))
    }

    /// Reads `limit` and its number; 0 when the query has none.
    fn parse_limit(&mut self) -> (r: Result<u32, String>)
        requires
            old(self).wf(),
        ensures
            Self::steps(*old(self), *final(self)),
            ({
                let p = old(self).pos();
                let l1 = old(self).sees(old(self).kept(), p + 1);
                let k1 = old(self).kept_after(old(self).kept(), p + 1);
                let p1 = next_pos(p);
                let l2 = old(self).sees(k1, p1 + 1);
                let k2 = old(self).kept_after(k1, p1 + 1);
                if l1 matches Some((LexemeKind::Limit, _)) {
                    if let Some(t) = word_text(l2) {
                        &&& final(self).pos() == next_pos(p1)
                        &&& final(self).kept() == k2
                        &&& match spec_parse_u32(t) {
                            Some(v) => r == Ok::<u32, String>(v),
                            None => r matches Err(e) && e@ == "Error parsing limit"@,
                        }
                    } else {
                        &&& final(self).pos() == p1
                        &&& final(self).kept() == k2
                        &&& r matches Err(e) && e@ == "Error parsing limit, limit value not found"@
                    }
                } else {
                    &&& final(self).pos() == p
                    &&& final(self).kept() == k1
                    &&& r == Ok::<u32, String>(0)
                }
            }),
            Self::same_stream(*old(self), *final(self)),
    {
        let lexeme = self.peek();
        if matches!(lexeme, Some(Lexeme::Limit)) {
            self.advance();
            let value = self.peek();
            match value {
                Some(Lexeme::RawString(s)) | Some(Lexeme::String(s)) => {
                    self.advance();
                    match parse_u32(s.as_str()) {
                        Some(limit) => Ok(limit),
                        None => Err(str_to_string("Error parsing limit")),
                    }
                },
                _ => Err(str_to_string("Error parsing limit, limit value not found")),
            }
        } else {
            Ok(0)
        }
    }

    /// Reads `into` and the output format; tabs when the query names none.
    fn parse_output_format(&mut self) -> (r: Result<OutputFormat, String>)
        requires
            old(self).wf(),
        ensures
            Self::steps(*old(self), *final(self)),
            ({
                let p = old(self).pos();
                let l1 = old(self).sees(old(self).kept(), p + 1);
                let k1 = old(self).kept_after(old(self).kept(), p + 1);
                let p1 = next_pos(p);
                let l2 = old(self).sees(k1, p1 + 1);
                let k2 = old(self).kept_after(k1, p1 + 1);
                if l1 matches Some((LexemeKind::Into, _)) {
                    if let Some(t) = word_text(l2) {
                        &&& final(self).pos() == next_pos(p1)
                        &&& final(self).kept() == k2
                        &&& match spec_output_format_from_lower(unicode_lowercase(t)) {
                            Some(f) => r == Ok::<OutputFormat, String>(f),
                            None => r matches Err(e) && e@ == "Unknown output format"@,
                        }
                    } else {
                        &&& final(self).pos() == p1
                        &&& final(self).kept() == k2
                        &&& r matches Err(e) && e@ == "Error parsing output format"@
                    }
                } else {
                    &&& final(self).pos() == p
                    &&& final(self).kept() == k1
                    &&& r == Ok::<OutputFormat, String>(OutputFormat::Tabs)
                }
            }),
            Self::same_stream(*old(self), *final(self)),
    {
        let lexeme = self.peek();
        if matches!(lexeme, Some(Lexeme::Into)) {
            self.advance();
            let value = self.peek();
            match value {
                Some(Lexeme::RawString(s)) | Some(Lexeme::String(s)) => {
                    self.advance();
                    match OutputFormat::from(s.as_str()) {
                        Some(output_format) => Ok(output_format),
                        None => Err(str_to_string("Unknown output format")),
                    }
                },
                _ => Err(str_to_string("Error parsing output format")),
            }
        } else {
            Ok(OutputFormat::Tabs)
        }
    }

    /// Whether any lexeme is left to read.
    pub fn there_are_remaining_lexemes(&mut self) -> (r: bool)
        requires
            old(self).wf(),
        ensures
            Self::steps(*old(self), *final(self)),
            final(self).pos() == old(self).pos(),
            r == old(self).has_more(),
    {
        self.peek().is_some()
    }

    /// Whether a word names a root option rather than a field.
    pub fn is_root_option_keyword(s: &str) -> (r: bool)
        ensures
            r == spec_is_root_option_keyword(s@),
    {
        let lower = to_ascii_lowercase(s);
        let w = lower.as_str();
        proof {
            reveal_strlit("depth");
            reveal_strlit("mindepth");
            reveal_strlit("maxdepth");
            reveal_strlit("arc");
            reveal_strlit("sym");
            reveal_strlit("hard");
            reveal_strlit("git");
            reveal_strlit("hg");
            reveal_strlit("dock");
            reveal_strlit("nogit");
            reveal_strlit("nohg");
            reveal_strlit("nodock");
            reveal_strlit("bfs");
            reveal_strlit("dfs");
            reveal_strlit("regex");
            reveal_strlit("as");
        }
        str_eq(w, "depth") || str_eq(w, "mindepth") || str_eq(w, "maxdepth") || starts_with(w, "arc")
            || starts_with(w, "sym") || starts_with(w, "hard") || starts_with(w, "git")
            || starts_with(w, "hg") || starts_with(w, "dock") || starts_with(w, "nogit")
            || starts_with(w, "nohg") || starts_with(w, "nodock") || str_eq(w, "bfs") || str_eq(
            w,
            "dfs",
        ) || starts_with(w, "regex") || str_eq(w, "as")
    }

    /// Negates every comparison in an expression (for a leading `not`).
    pub fn negate_expr_op(expr: &Expr) -> (r: Expr)
        ensures
            expr_eq(r, spec_negate(*expr)),
        decreases *expr,
    {
        let left = match &expr.left {
            Some(l) => Some(Box::new(Self::negate_expr_op(l))),
            None => None,
        };
        let op = match expr.op {
            Some(o) => Some(Op::negate(o)),
            None => None,
        };
        let right = match &expr.right {
            Some(r) => Some(Box::new(Self::negate_expr_op(r))),
            None => None,
        };
        Expr {
            left,
            arithmetic_op: expr.arithmetic_op,
            logical_op: expr.logical_op,
            op,
            right,
            minus: expr.minus,
            field: expr.field,
            function: expr.function,
            args: match &expr.args {
                Some(a) => Some(crate::expr::duplicate_exprs(a)),
                None => None,
            },
            val: crate::expr::clone_opt_string(&expr.val),
            subquery: match &expr.subquery {
                Some(q) => Some(Box::new(q.duplicate())),
                None => None,
            },
            root_alias: crate::expr::clone_opt_string(&expr.root_alias),
            weight: expr.weight,
        }
    }
}

/// Whether none of the expressions reads anything of a file.
fn needs_no_file(fields: &Vec<Expr>) -> (r: bool)
    ensures
        r == (spec_all_required_fields(fields@) == Set::<Field>::empty()),
{
    let mut i: usize = fields.len();
    let mut none = true;
    proof {
        assert(fields@.skip(i as int) =~= Seq::<Expr>::empty());
        assert(spec_all_required_fields(Seq::<Expr>::empty()) =~= Set::<Field>::empty());
    }
    while i > 0
        invariant
            i <= fields@.len(),
            none == (spec_all_required_fields(fields@.skip(i as int)) == Set::<Field>::empty()),
        decreases i,
    {
        i = i - 1;
        let required = fields[i].get_required_fields();
        let this_none = required.len() == 0;
        proof {
            let rest = fields@.skip(i as int);
            assert(rest.drop_first() =~= fields@.skip(i + 1));
            assert(rest[0] == fields@[i as int]);
            if required@.len() > 0 {
                assert(required@.to_set().contains(required@[0]));
            } else {
                assert(required@.to_set() =~= Set::<Field>::empty());
            }
            let a = spec_required_fields(fields@[i as int]);
            let b = spec_all_required_fields(fields@.skip(i + 1));
            if a.union(b) == Set::<Field>::empty() {
                assert(a =~= Set::<Field>::empty()) by {
                    assert forall|x: Field| !a.contains(x) by {
                        assert(!a.union(b).contains(x));
                    }
                }
                assert(b =~= Set::<Field>::empty()) by {
                    assert forall|x: Field| !b.contains(x) by {
                        assert(!a.union(b).contains(x));
                    }
                }
            }
            if a == Set::<Field>::empty() && b == Set::<Field>::empty() {
                assert(a.union(b) =~= Set::<Field>::empty());
            }
        }
        none = none && this_none;
    }
    proof {
        assert(fields@.skip(0) =~= fields@);
    }
    none
}

/// Whether an expression is a bare boolean field, or a call of a boolean
/// function without arguments (that is compared with nothing).
pub open spec fn is_boolean_shorthand(e: Expr) -> bool {
    match e.field {
        Some(f) => e.left is None && e.right is None && f.spec_is_boolean(),
        None => match e.function {
            Some(fun) => e.right is None && (match e.args {
                Some(a) => a@.len() == 0,
                None => true,
            }) && fun.spec_is_boolean(),
            None => false,
        },
    }
}

/// What a boolean shorthand is compared with `true`: the field alone, or the
/// function applied to the expression's operand, without arguments.
pub open spec fn boolean_operand(e: Expr) -> Expr {
    match e.field {
        Some(f) => Expr { field: Some(f), ..empty_node(f.spec_weight()) },
        None => Expr {
            left: e.left,
            function: e.function,
            ..empty_node(
                wadd(
                    e.function->0.spec_weight(),
                    match e.left {
                        Some(l) => l.weight,
                        None => 0,
                    },
                ),
            )
        },
    }
}

/// An optional string's text.
pub open spec fn opt_text(o: Option<String>) -> Option<Seq<char>> {
    match o {
        Some(s) => Some(s@),
        None => None,
    }
}

/// `e` is the condition that `x between low and high` stands for:
/// `x >= low and x <= high`; with `not` before `between`,
/// `x <= low or x >= high`. The first comparison holds a copy of `x`.
pub open spec fn is_between(e: Expr, x: Expr, low: Expr, high: Expr, not: bool) -> bool {
    let first = if not {
        Op::Lte
    } else {
        Op::Gte
    };
    let join = if not {
        LogicalOp::Or
    } else {
        LogicalOp::And
    };
    let second = if not {
        Op::Gte
    } else {
        Op::Lte
    };
    &&& e.logical_op == Some(join)
    &&& e.op is None
    &&& match e.left {
        Some(l) => l.op == Some(first) && l.logical_op is None && l.right == Some(Box::new(low))
            && match l.left {
            Some(x1) => expr_eq(*x1, x),
            None => false,
        },
        None => false,
    }
    &&& match e.right {
        Some(r) => r.op == Some(second) && r.logical_op is None && r.left == Some(Box::new(x))
            && r.right == Some(Box::new(high)),
        None => false,
    }
}

/// The condition that `x between low and high` (`not`: `x not between
/// low and high`) stands for.
pub fn between(x: Expr, low: Expr, high: Expr, not: bool) -> (r: Expr)
    ensures
        is_between(r, x, low, high, not),
{
    let first = Expr::op(
        x.duplicate(),
        if not {
            Op::Lte
        } else {
            Op::Gte
        },
        low,
    );
    let second = Expr::op(
        x,
        if not {
            Op::Gte
        } else {
            Op::Lte
        },
        high,
    );
    Expr::logical_op(
        first,
        if not {
            LogicalOp::Or
        } else {
            LogicalOp::And
        },
        second,
    )
}

/// An item of an `order by` list: a field named by its place, or a word.
pub enum OrderItem {
    Position(usize),
    Word(Seq<char>),
}

/// `e` is the ordering expression an item stands for in a query with the
/// given fields: a copy of the field at that place, or the word's operand.
pub open spec fn order_item_is(e: Expr, item: OrderItem, fields: Seq<Expr>) -> bool {
    match item {
        OrderItem::Position(i) => 1 <= i <= fields.len() && expr_eq(e, fields[i - 1]),
        OrderItem::Word(t) => cond_word_is(e, t, false),
    }
}

/// The ordering of a query is the items' expressions, each ascending or
/// not as its item says.
pub open spec fn ordering_is(f: Seq<Expr>, a: Seq<bool>, items: Seq<(OrderItem, bool)>, fields: Seq<Expr>) -> bool {
    &&& f.len() == items.len()
    &&& a.len() == items.len()
    &&& forall|i: int| 0 <= i < items.len() ==> order_item_is(#[trigger] f[i], items[i].0, fields) && a[i] == items[i].1
}

/// Marking the last item descending keeps the ordering in step.
proof fn lemma_ordering_desc(
    f: Seq<Expr>,
    a: Seq<bool>,
    items: Seq<(OrderItem, bool)>,
    fields: Seq<Expr>,
    a2: Seq<bool>,
    items2: Seq<(OrderItem, bool)>,
)
    requires
        ordering_is(f, a, items, fields),
        items.len() > 0,
        a2 == a.update(a.len() - 1, false),
        items2 == items.update(items.len() - 1, (items.last().0, false)),
    ensures
        ordering_is(f, a2, items2, fields),
{
    assert forall|i: int| 0 <= i < items2.len() implies order_item_is(#[trigger] f[i], items2[i].0, fields)
        && a2[i] == items2[i].1 by {
        assert(order_item_is(f[i], items[i].0, fields));
    }
}

/// Reading the same lexemes as a parser that reads the same lexemes as a
/// third is reading the same lexemes as the third.
proof fn lemma_same_stream_trans(a: Parser, b: Parser, c: Parser)
    requires
        Parser::same_stream(a, b),
        Parser::same_stream(b, c),
    ensures
        Parser::same_stream(a, c),
{
    assert forall|k: int| #[trigger] a.tok(k) == c.tok(k) by {
        assert(a.tok(k) == b.tok(k));
        assert(b.tok(k) == c.tok(k));
    }
}

/// A condition of field or value words: a comparison of two words, or a
/// word between two others.
pub enum SimpleCond {
    Compared(Seq<char>, Op, Seq<char>),
    Between(Seq<char>, Seq<char>, Seq<char>),
}

/// `e` is the expression of the condition `c`.
pub open spec fn simple_cond_is(e: Expr, c: SimpleCond) -> bool {
    match c {
        SimpleCond::Compared(a, op, b) => words_compared(e, a, op, b),
        SimpleCond::Between(a, b, x) => words_between(e, a, b, x),
    }
}

/// `e` is `a between b and c` read from three field or value words.
pub open spec fn words_between(e: Expr, a: Seq<char>, b: Seq<char>, c: Seq<char>) -> bool {
    match (e.left, e.right) {
        (Some(l), Some(r)) => match (r.left, l.right, r.right) {
            (Some(x), Some(lo), Some(hi)) => is_between(e, *x, *lo, *hi, false) && word_operand_is(*x, a)
                && word_operand_is(*lo, b) && word_operand_is(*hi, c),
            _ => false,
        },
        _ => false,
    }
}

/// `e` compares the operands that two field or value words give.
pub open spec fn words_compared(e: Expr, a: Seq<char>, op: Op, b: Seq<char>) -> bool {
    &&& e.op == Some(op)
    &&& e.logical_op is None
    &&& match (e.left, e.right) {
        (Some(l), Some(r)) => word_operand_is(*l, a) && word_operand_is(*r, b),
        _ => false,
    }
}

/// A copy of a word operand is the same word operand.
proof fn lemma_word_operand_copy(x: Expr, y: Expr, t: Seq<char>)
    requires
        expr_eq(x, y),
        word_operand_is(y, t),
    ensures
        word_operand_is(x, t),
{
}

/// Negating a comparison whose left operand is a word negates its
/// operator and keeps the word.
proof fn lemma_negate_op_node(c: Expr, e: Expr, a: Seq<char>)
    requires
        c.op is Some,
        c.logical_op is None,
        c.left matches Some(l) && word_operand_is(*l, a),
        expr_eq(e, spec_negate(c)),
    ensures
        e.op == Some(spec_op_negate(c.op.unwrap())),
        e.logical_op is None,
        e.left matches Some(l) && word_operand_is(*l, a),
{
    let l = *c.left.unwrap();
    assert(spec_negate(l) == l);
    lemma_word_operand_copy(*e.left.unwrap(), l, a);
}

/// Negating a comparison of two words negates its operator and keeps the
/// words.
proof fn lemma_negate_compared(c: Expr, e: Expr, a: Seq<char>, op: Op, b: Seq<char>)
    requires
        words_compared(c, a, op, b),
        expr_eq(e, spec_negate(c)),
    ensures
        words_compared(e, a, spec_op_negate(op), b),
{
    let l = *c.left.unwrap();
    let r = *c.right.unwrap();
    assert(spec_negate(l) == l);
    assert(spec_negate(r) == r);
    lemma_word_operand_copy(*e.left.unwrap(), l, a);
    lemma_word_operand_copy(*e.right.unwrap(), r, b);
}

/// Whether a word stands for a field or a value rather than naming a
/// function.
pub open spec fn is_plain_word(t: Seq<char>) -> bool {
    spec_parse_field(t) is Ok || spec_function_from_str(t) is Err
}

/// `e` is the operand that a plain word stands for: the field it names,
/// with the root alias written before it, or else the word as a value.
pub open spec fn word_operand_is(e: Expr, t: Seq<char>) -> bool {
    match spec_parse_field(t) {
        Ok((f, a)) => e == (Expr {
            field: Some(f),
            root_alias: e.root_alias,
            ..empty_node(f.spec_weight())
        }) && opt_text(e.root_alias) == a,
        Err(_) => e == (Expr { val: e.val, ..empty_node(0) }) && opt_text(e.val) == Some(t),
    }
}

/// `e` is what a condition made of a plain word gives: in the `where`
/// clause a boolean field is compared with `true`, otherwise the operand.
pub open spec fn cond_word_is(e: Expr, t: Seq<char>, shorthand: bool) -> bool {
    match spec_parse_field(t) {
        Ok((f, _)) => if shorthand && f.spec_is_boolean() {
            compares_with_true(e, Expr { field: Some(f), ..empty_node(f.spec_weight()) })
        } else {
            word_operand_is(e, t)
        },
        Err(_) => word_operand_is(e, t),
    }
}

/// Whether a lexeme joins what precedes it into a larger expression: an
/// arithmetic or comparison operator, `not`, `and` or `or`.
pub open spec fn continues_operand(l: Option<(LexemeKind, Seq<char>)>) -> bool {
    match l {
        Some((k, _)) => k == LexemeKind::ArithmeticOperator || k == LexemeKind::Not || k
            == LexemeKind::Operator || k == LexemeKind::And || k == LexemeKind::Or,
        None => false,
    }
}

/// The kind of a lexeme, if any.
pub open spec fn kind_of(l: Option<(LexemeKind, Seq<char>)>) -> Option<LexemeKind> {
    match l {
        Some((k, _)) => Some(k),
        None => None,
    }
}

/// The text of a lexeme, empty for none.
pub open spec fn text_of(l: Option<(LexemeKind, Seq<char>)>) -> Seq<char> {
    match l {
        Some((_, t)) => t,
        None => Seq::empty(),
    }
}

/// The lexemes with which a field list can start.
pub open spec fn starts_selector(k: Option<LexemeKind>) -> bool {
    k == Some(LexemeKind::Comma) || k == Some(LexemeKind::String) || k == Some(LexemeKind::RawString)
        || k == Some(LexemeKind::ArithmeticOperator) || k == Some(LexemeKind::Open) || k == Some(
        LexemeKind::CurlyOpen,
    )
}

/// The lexemes with which root options can start (or nothing at all).
pub open spec fn starts_option(k: Option<LexemeKind>) -> bool {
    k is None || k == Some(LexemeKind::String) || k == Some(LexemeKind::RawString) || k == Some(
        LexemeKind::Operator,
    )
}

/// The text `true`.
pub open spec fn is_true_text(v: Option<String>) -> bool {
    v matches Some(t) && t@ == "true"@
}

/// `r` is `operand = true`.
pub open spec fn compares_with_true(r: Expr, operand: Expr) -> bool {
    &&& r.op == Some(Op::Eq)
    &&& r.left matches Some(l) && (*l == operand || (l.args matches Some(a) && a@.len() == 0
        && *l == Expr { args: l.args, ..operand }))
    &&& r.right matches Some(t) && *t == Expr { val: t.val, ..empty_node(0) } && is_true_text(t.val)
    &&& r == Expr {
        left: r.left,
        op: Some(Op::Eq),
        right: r.right,
        ..empty_node(wadd(operand.weight, 0))
    }
}

/// A bare boolean field or function in the `where` clause stands for its
/// comparison with `true`.
fn boolean_shorthand(expr: Expr) -> (r: Expr)
    ensures
        !is_boolean_shorthand(expr) ==> r == expr,
        is_boolean_shorthand(expr) ==> compares_with_true(r, boolean_operand(expr)),
{
    match expr.field {
        Some(field) => {
            if expr.left.is_none() && expr.right.is_none() && field.is_boolean_field() {
                Expr::op(Expr::field(field), Op::Eq, Expr::value(str_to_string("true")))
            } else {
                expr
            }
        },
        None => match expr.function {
            Some(function) => {
                let no_args = match &expr.args {
                    Some(a) => a.len() == 0,
                    None => true,
                };
                if expr.right.is_none() && no_args && function.is_boolean_function() {
                    let func_expr = Expr::function_left(function, expr.left);
                    Expr::op(func_expr, Op::Eq, Expr::value(str_to_string("true")))
                } else {
                    expr
                }
            },
            None => expr,
        },
    }
}

} // verus!
