//! Splits the words of a query into lexemes.
//!
//! The query arrives as a list of words (the command line arguments). The
//! lexer walks them character by character, treating the gap between two
//! words as a space, and decides from what it has read so far (before or
//! after `from`, after `where`, after an operator...) whether a word is a
//! keyword, an operator or a plain string.

use vstd::prelude::*;
use vstd::string::*;

use crate::field::{spec_parse_field, Field};
use crate::function::{spec_function_from_str, Function};
use crate::pattern::{regex_compiles, regex_first_captures, Pattern};
use crate::strings::{
    is_ascii_alnum, parse_i32, parse_i64, push_char, push_str, spec_parse_i32, spec_parse_i64,
    str_eq, str_to_string, to_lowercase, unicode_lowercase, words,
};

verus! {

#[derive(Debug, PartialEq, Eq)]
pub enum Lexeme {
    Select,
    RawString(String),
    Comma,
    From,
    Where,
    Operator(String),
    String(String),
    Open,
    Close,
    CurlyOpen,
    CurlyClose,
    ArithmeticOperator(String),
    And,
    Or,
    Not,
    Order,
    By,
    DescendingOrder,
    Limit,
    Offset,
    Into,
}

/// The kind of a lexeme, without its text.
#[derive(Debug, Clone, Copy, PartialEq, Eq, Structural)]
pub enum LexemeKind {
    Select,
    RawString,
    Comma,
    From,
    Where,
    Operator,
    String,
    Open,
    Close,
    CurlyOpen,
    CurlyClose,
    ArithmeticOperator,
    And,
    Or,
    Not,
    Order,
    By,
    DescendingOrder,
    Limit,
    Offset,
    Into,
}

/// A lexeme as its kind and its text (empty for the lexemes that carry none).
pub open spec fn lexeme_view(l: Lexeme) -> (LexemeKind, Seq<char>) {
    match l {
        Lexeme::Select => (LexemeKind::Select, Seq::empty()),
        Lexeme::RawString(s) => (LexemeKind::RawString, s@),
        Lexeme::Comma => (LexemeKind::Comma, Seq::empty()),
        Lexeme::From => (LexemeKind::From, Seq::empty()),
        Lexeme::Where => (LexemeKind::Where, Seq::empty()),
        Lexeme::Operator(s) => (LexemeKind::Operator, s@),
        Lexeme::String(s) => (LexemeKind::String, s@),
        Lexeme::Open => (LexemeKind::Open, Seq::empty()),
        Lexeme::Close => (LexemeKind::Close, Seq::empty()),
        Lexeme::CurlyOpen => (LexemeKind::CurlyOpen, Seq::empty()),
        Lexeme::CurlyClose => (LexemeKind::CurlyClose, Seq::empty()),
        Lexeme::ArithmeticOperator(s) => (LexemeKind::ArithmeticOperator, s@),
        Lexeme::And => (LexemeKind::And, Seq::empty()),
        Lexeme::Or => (LexemeKind::Or, Seq::empty()),
        Lexeme::Not => (LexemeKind::Not, Seq::empty()),
        Lexeme::Order => (LexemeKind::Order, Seq::empty()),
        Lexeme::By => (LexemeKind::By, Seq::empty()),
        Lexeme::DescendingOrder => (LexemeKind::DescendingOrder, Seq::empty()),
        Lexeme::Limit => (LexemeKind::Limit, Seq::empty()),
        Lexeme::Offset => (LexemeKind::Offset, Seq::empty()),
        Lexeme::Into => (LexemeKind::Into, Seq::empty()),
    }
}

pub open spec fn opt_lexeme_view(l: Option<Lexeme>) -> Option<(LexemeKind, Seq<char>)> {
    match l {
        Some(l) => Some(lexeme_view(l)),
        None => None,
    }
}

/// A copy of a lexeme with the same kind and text.
pub fn clone_lexeme(l: &Lexeme) -> (r: Lexeme)
    ensures
        lexeme_view(r) == lexeme_view(*l),
{
    match l {
        Lexeme::Select => Lexeme::Select,
        Lexeme::RawString(s) => Lexeme::RawString(s.clone()),
        Lexeme::Comma => Lexeme::Comma,
        Lexeme::From => Lexeme::From,
        Lexeme::Where => Lexeme::Where,
        Lexeme::Operator(s) => Lexeme::Operator(s.clone()),
        Lexeme::String(s) => Lexeme::String(s.clone()),
        Lexeme::Open => Lexeme::Open,
        Lexeme::Close => Lexeme::Close,
        Lexeme::CurlyOpen => Lexeme::CurlyOpen,
        Lexeme::CurlyClose => Lexeme::CurlyClose,
        Lexeme::ArithmeticOperator(s) => Lexeme::ArithmeticOperator(s.clone()),
        Lexeme::And => Lexeme::And,
        Lexeme::Or => Lexeme::Or,
        Lexeme::Not => Lexeme::Not,
        Lexeme::Order => Lexeme::Order,
        Lexeme::By => Lexeme::By,
        Lexeme::DescendingOrder => Lexeme::DescendingOrder,
        Lexeme::Limit => Lexeme::Limit,
        Lexeme::Offset => Lexeme::Offset,
        Lexeme::Into => Lexeme::Into,
    }
}

#[derive(Debug, Clone, Copy, PartialEq, Eq, Structural)]
pub enum LexingMode {
    Undefined,
    RawString,
    Comma,
    Operator,
    ArithmeticOperator,
    SingleQuotedString,
    DoubleQuotedString,
    BackticksQuotedString,
    Open,
    Close,
}

/// What the lexer remembers of the lexemes it has produced.
#[derive(Debug, Clone, Copy, PartialEq, Eq, Structural)]
pub struct LexerState {
    pub first_lexeme: bool,
    pub before_from: bool,
    pub possible_search_root: bool,
    pub after_open: bool,
    pub after_where: bool,
    pub after_operator: bool,
    pub after_logical: bool,
}

pub open spec fn initial_state() -> LexerState {
    LexerState {
        first_lexeme: true,
        before_from: true,
        possible_search_root: false,
        after_open: false,
        after_where: false,
        after_operator: false,
        after_logical: false,
    }
}

impl LexerState {
    fn new() -> (r: LexerState)
        ensures
            r == initial_state(),
    {
        LexerState {
            first_lexeme: true,
            before_from: true,
            possible_search_root: false,
            after_open: false,
            after_where: false,
            after_operator: false,
            after_logical: false,
        }
    }
}

#[derive(Clone)]
pub struct Lexer {
    input: Vec<String>,
    input_index: usize,
    char_index: isize,
    state: LexerState,
    state_history: Vec<LexerState>,
}

/// The length of a word, or 0 past the last word.
pub open spec fn part_len(inp: Seq<Seq<char>>, ii: int) -> int {
    if 0 <= ii < inp.len() {
        inp[ii].len() as int
    } else {
        0
    }
}

/// A reading position: a word and a character in it, where -1 stands for
/// the space before the word.
pub open spec fn valid_pos(inp: Seq<Seq<char>>, ii: int, ci: int) -> bool {
    0 <= ii <= inp.len() && -1 <= ci <= part_len(inp, ii)
}

pub open spec fn words_fit(inp: Seq<Seq<char>>) -> bool {
    forall|i: int| 0 <= i < inp.len() ==> #[trigger] inp[i].len() < isize::MAX
}

pub open spec fn spec_is_op_char(st: LexerState, c: char) -> bool {
    (st.before_from || st.after_where) && (c == '=' || c == '!' || c == '<' || c == '>' || c == '~')
}

pub open spec fn spec_is_arithmetic_op_char(st: LexerState, c: char) -> bool {
    if c == '+' || c == '-' {
        (st.before_from || st.after_where) && !st.after_operator
    } else if c == '*' || c == '/' || c == '%' {
        (st.before_from || st.after_where) && !st.after_open && !st.after_operator
    } else {
        false
    }
}

pub open spec fn spec_is_paren_char(c: char) -> bool {
    c == '(' || c == ')' || c == '{' || c == '}'
}

/// The pattern that recognises a year, optionally followed by a month.
pub open spec fn date_pattern() -> Seq<char> {
    "(\\d{4})-?(\\d{2})?"@
}

/// Whether the text holds something that reads as a year from 1970 to 2999,
/// optionally followed by a month from 1 to 12: the first match of
/// `date_pattern` decides.
pub open spec fn spec_looks_like_date(s: Seq<char>) -> bool {
    regex_compiles(date_pattern()) && match regex_first_captures(date_pattern(), s) {
        Some(caps) => caps.len() >= 2 && (caps[1] matches Some(y) && (spec_parse_i32(y) matches Some(
            yv,
        ) && 1970 <= yv < 3000)) && (if caps.len() >= 3 && caps[2] is Some {
            spec_parse_i32(caps[2]->0) matches Some(m) && 1 <= m <= 12
        } else {
            true
        }),
        None => false,
    }
}

/// The pieces of a text between characters that are not ASCII letters or
/// digits (n separators give n + 1 pieces, empty ones included).
pub open spec fn alnum_pieces(s: Seq<char>) -> Seq<Seq<char>>
    decreases s.len(),
{
    if s.len() == 0 {
        seq![Seq::empty()]
    } else {
        let r = alnum_pieces(s.drop_last());
        if is_ascii_alnum(s.last()) {
            r.update(r.len() - 1, r.last().push(s.last()))
        } else {
            r.push(Seq::empty())
        }
    }
}

/// A piece names a field, a function or a 64-bit integer.
pub open spec fn piece_is_known(p: Seq<char>) -> bool {
    spec_parse_field(p) is Ok || spec_function_from_str(p) is Ok || spec_parse_i64(p) is Some
}

/// Whether the text so far reads as an arithmetic expression: every piece
/// between non-alphanumeric characters is a field, a function or a number.
pub open spec fn spec_looks_like_expression(s: Seq<char>) -> bool {
    forall|i: int| 0 <= i < alnum_pieces(s).len() ==> #[trigger] piece_is_known(alnum_pieces(s)[i])
}

/// The scanner's configuration while it reads one lexeme.
pub ghost struct Scan {
    pub ii: int,
    pub ci: int,
    pub st: LexerState,
    pub mode: LexingMode,
    pub s: Seq<char>,
    pub closed: bool,
    pub done: bool,
}

/// The character after position `ci`, looking into the next word when the
/// current one ends.
pub open spec fn next_char(inp: Seq<Seq<char>>, ii: int, ci: int) -> Option<char> {
    if ci + 1 < inp[ii].len() {
        Some(inp[ii][ci + 1])
    } else if ii + 1 < inp.len() && inp[ii + 1].len() > 0 {
        Some(inp[ii + 1][0])
    } else {
        None
    }
}

pub open spec fn is_quoted_mode(m: LexingMode) -> bool {
    m is SingleQuotedString || m is DoubleQuotedString || m is BackticksQuotedString
}

pub open spec fn quote_of(m: LexingMode) -> char {
    match m {
        LexingMode::SingleQuotedString => '\'',
        LexingMode::DoubleQuotedString => '"',
        _ => '`',
    }
}

/// Whether a raw string ends before the character `ch`.
pub open spec fn raw_string_breaks(inp: Seq<Seq<char>>, c: Scan, ch: char) -> bool {
    let is_date = ch == '-' && spec_looks_like_date(c.s) && (next_char(inp, c.ii, c.ci) matches Some(n)
        && '0' <= n && n <= '9');
    !is_date && if spec_is_arithmetic_op_char(c.st, ch) {
        spec_looks_like_expression(c.s)
    } else {
        (inp.len() == 1 || (inp.len() > 1 && !c.st.possible_search_root)) && (ch == ' ' || ch == ','
            || spec_is_paren_char(ch) || spec_is_op_char(c.st, ch))
    }
}

/// The mode that the first character of a lexeme starts.
pub open spec fn start_mode(st: LexerState, ch: char) -> LexingMode {
    if ch == ' ' {
        LexingMode::Undefined
    } else if ch == '\'' {
        LexingMode::SingleQuotedString
    } else if ch == '"' {
        LexingMode::DoubleQuotedString
    } else if ch == '`' {
        LexingMode::BackticksQuotedString
    } else if ch == ',' {
        LexingMode::Comma
    } else if ch == '(' || ch == '{' {
        LexingMode::Open
    } else if ch == ')' || ch == '}' {
        LexingMode::Close
    } else if spec_is_op_char(st, ch) {
        LexingMode::Operator
    } else if spec_is_arithmetic_op_char(st, ch) {
        LexingMode::ArithmeticOperator
    } else {
        LexingMode::RawString
    }
}

/// Whether the first character is kept in the lexeme's text.
pub open spec fn start_keeps(ch: char) -> bool {
    !(ch == ' ' || ch == '\'' || ch == '"' || ch == '`' || ch == ',')
}

/// One step of the scanner on the character `ch` at the current position.
pub open spec fn step_char(inp: Seq<Seq<char>>, c: Scan, ch: char) -> Scan {
    match c.mode {
        LexingMode::Comma | LexingMode::Open | LexingMode::Close | LexingMode::ArithmeticOperator => Scan {
            done: true,
            ..c
        },
        LexingMode::SingleQuotedString | LexingMode::DoubleQuotedString
        | LexingMode::BackticksQuotedString => if ch == quote_of(c.mode) {
            Scan { ci: c.ci + 1, closed: true, done: true, ..c }
        } else {
            Scan { ci: c.ci + 1, s: c.s.push(ch), ..c }
        },
        LexingMode::Operator => if !spec_is_op_char(c.st, ch) {
            Scan { done: true, ..c }
        } else {
            Scan { ci: c.ci + 1, s: c.s.push(ch), ..c }
        },
        LexingMode::RawString => if raw_string_breaks(inp, c, ch) {
            Scan { done: true, ..c }
        } else {
            Scan { ci: c.ci + 1, s: c.s.push(ch), ..c }
        },
        LexingMode::Undefined => {
            let m = start_mode(c.st, ch);
            Scan {
                ci: c.ci + 1,
                mode: m,
                s: if start_keeps(ch) {
                    c.s.push(ch)
                } else {
                    c.s
                },
                st: if ch != ' ' {
                    LexerState { after_open: m is Open, ..c.st }
                } else {
                    c.st
                },
                ..c
            }
        },
    }
}

/// One turn of the scanning loop.
pub open spec fn scan_step(inp: Seq<Seq<char>>, c: Scan) -> Scan {
    if c.ii >= inp.len() {
        Scan { done: true, ..c }
    } else if c.ci == -1 && (is_quoted_mode(c.mode) || c.mode is Operator || (c.mode is RawString
        && c.s.len() > 0 && c.s.last() == '-' && spec_looks_like_date(c.s.drop_last()))) {
        Scan { ci: 0, ..c }
    } else if c.ci != -1 && c.ci >= inp[c.ii].len() {
        Scan {
            ii: c.ii + 1,
            ci: -1,
            st: LexerState { possible_search_root: false, ..c.st },
            ..c
        }
    } else {
        let ch = if c.ci == -1 {
            ' '
        } else {
            inp[c.ii][c.ci]
        };
        step_char(inp, c, ch)
    }
}

/// Modes that always carry at least one character.
pub open spec fn scan_inv(c: Scan) -> bool {
    (c.mode is RawString || c.mode is Operator || c.mode is ArithmeticOperator || c.mode is Open
        || c.mode is Close) ==> c.s.len() > 0
}

/// The scanner run until it stops.
pub open spec fn scan(inp: Seq<Seq<char>>, c: Scan) -> Scan
    decreases (inp.len() - c.ii) as nat, (part_len(inp, c.ii) + 1 - c.ci) as nat, if c.done {
        0nat
    } else {
        1nat
    },
{
    if !valid_pos(inp, c.ii, c.ci) || c.done {
        c
    } else {
        scan(inp, scan_step(inp, c))
    }
}

pub open spec fn pos_le(a: Scan, b: Scan) -> bool {
    a.ii < b.ii || (a.ii == b.ii && a.ci <= b.ci)
}

pub proof fn lemma_scan_progress(inp: Seq<Seq<char>>, c: Scan)
    requires
        valid_pos(inp, c.ii, c.ci),
        scan_inv(c),
    ensures
        valid_pos(inp, scan(inp, c).ii, scan(inp, c).ci),
        scan_inv(scan(inp, c)),
        pos_le(c, scan(inp, c)),
        scan(inp, c).s.len() >= c.s.len(),
        scan(inp, c).s.len() > c.s.len() ==> (scan(inp, c).ii > c.ii || scan(inp, c).ci > c.ci),
        c.mode is Undefined && scan(inp, c).s.len() == c.s.len() ==> scan(inp, c).mode is Undefined
            || scan(inp, c).mode is Comma || is_quoted_mode(scan(inp, c).mode)
            || scan(inp, c).ii > c.ii || scan(inp, c).ci > c.ci,
    decreases (inp.len() - c.ii) as nat, (part_len(inp, c.ii) + 1 - c.ci) as nat, if c.done {
        0nat
    } else {
        1nat
    },
{
    if !c.done {
        let n = scan_step(inp, c);
        lemma_scan_progress(inp, n);
    }
}

/// A scan that leaves the undecided mode has read at least one character.
proof fn lemma_scan_leaves_undefined(inp: Seq<Seq<char>>, c: Scan)
    requires
        valid_pos(inp, c.ii, c.ci),
        scan_inv(c),
        c.mode is Undefined,
    ensures
        !(scan(inp, c).mode is Undefined) ==> (scan(inp, c).ii > c.ii || (scan(inp, c).ii == c.ii
            && scan(inp, c).ci > c.ci)),
{
    if !c.done {
        let n = scan_step(inp, c);
        assert(scan(inp, c) == scan(inp, n));
        if c.ii < inp.len() {
            if c.ci != -1 && c.ci >= inp[c.ii].len() {
                assert(valid_pos(inp, n.ii, n.ci));
                lemma_scan_progress(inp, n);
            } else {
                assert(n.ii == c.ii && n.ci == c.ci + 1);
                assert(valid_pos(inp, n.ii, n.ci));
                assert(scan_inv(n));
                lemma_scan_progress(inp, n);
            }
        }
    }
}

/// What a scan keeps true at every step: the undecided mode has read
/// nothing, a bracket mode holds exactly its bracket, and a scan that stops
/// undecided or inside an open quote has reached the end of the input.
pub open spec fn scan_shape(inp: Seq<Seq<char>>, c: Scan) -> bool {
    &&& (c.mode is Undefined ==> c.s.len() == 0)
    &&& (c.mode is Open ==> c.s == seq!['('] || c.s == seq!['{'])
    &&& (c.mode is Close ==> c.s == seq![')'] || c.s == seq!['}'])
    &&& (c.done && (c.mode is Undefined || (is_quoted_mode(c.mode) && !c.closed)) ==> c.ii >= inp.len())
}

proof fn lemma_scan_shape(inp: Seq<Seq<char>>, c: Scan)
    requires
        valid_pos(inp, c.ii, c.ci),
        scan_inv(c),
        scan_shape(inp, c),
    ensures
        scan_shape(inp, scan(inp, c)),
        scan(inp, c).done,
    decreases (inp.len() - c.ii) as nat, (part_len(inp, c.ii) + 1 - c.ci) as nat, if c.done {
        0nat
    } else {
        1nat
    },
{
    if !c.done {
        let n = scan_step(inp, c);
        if c.ii < inp.len() && !(c.ci == -1 && (is_quoted_mode(c.mode) || c.mode is Operator || (
        c.mode is RawString && c.s.len() > 0 && c.s.last() == '-' && spec_looks_like_date(
            c.s.drop_last(),
        )))) && !(c.ci != -1 && c.ci >= inp[c.ii].len()) {
            let ch = if c.ci == -1 {
                ' '
            } else {
                inp[c.ii][c.ci]
            };
            assert(n == step_char(inp, c, ch));
            if c.mode is Undefined {
                assert(c.s.push(ch) =~= seq![ch]);
            }
        }
        assert(scan_shape(inp, n));
        lemma_scan_shape(inp, n);
    }
}

/// A lexer reads nothing only at the end of its input, and stays there.
pub proof fn lemma_next_lexeme_none_at_end(inp: Seq<Seq<char>>, ii: int, ci: int, st: LexerState)
    requires
        valid_pos(inp, ii, ci),
    ensures
        ({
            let (l, ii2, ci2, _st2) = spec_next_lexeme(inp, ii, ci, st);
            &&& (l is None ==> ii2 >= inp.len())
            &&& (ii >= inp.len() ==> l is None && ii2 == ii && ci2 == ci)
        }),
    decreases (inp.len() - ii) as nat, (part_len(inp, ii) + 1 - ci) as nat,
{
    let s0 = start_scan(ii, ci, st);
    lemma_scan_progress(inp, s0);
    lemma_scan_leaves_undefined(inp, s0);
    lemma_scan_shape(inp, s0);
    let f = scan(inp, s0);
    if ii >= inp.len() {
        assert(scan(inp, s0) == scan(inp, scan_step(inp, s0)));
        assert(f == scan_step(inp, s0));
    }
    match finish_scan(f) {
        Ok((l, _)) => {
            if l is None {
                reveal_strlit("(");
                reveal_strlit("{");
                reveal_strlit(")");
                reveal_strlit("}");
                assert("("@ =~= seq!['(']);
                assert("{"@ =~= seq!['{']);
                assert(")"@ =~= seq![')']);
                assert("}"@ =~= seq!['}']);
                assert(f.mode is Undefined || (is_quoted_mode(f.mode) && !f.closed));
            }
        },
        Err(st2) => {
            lemma_next_lexeme_none_at_end(inp, f.ii, f.ci, st2);
        },
    }
}

/// Reading a lexeme never moves the position backwards, and a lexeme that
/// is read moves it forwards.
pub proof fn lemma_next_lexeme_advances(inp: Seq<Seq<char>>, ii: int, ci: int, st: LexerState)
    requires
        valid_pos(inp, ii, ci),
    ensures
        ({
            let (l, ii2, ci2, _st2) = spec_next_lexeme(inp, ii, ci, st);
            &&& valid_pos(inp, ii2, ci2)
            &&& (ii < ii2 || (ii == ii2 && ci <= ci2))
            &&& (l is Some ==> (ii < ii2 || (ii == ii2 && ci < ci2)))
        }),
    decreases (inp.len() - ii) as nat, (part_len(inp, ii) + 1 - ci) as nat,
{
    let s0 = start_scan(ii, ci, st);
    lemma_scan_progress(inp, s0);
    lemma_scan_leaves_undefined(inp, s0);
    let f = scan(inp, s0);
    match finish_scan(f) {
        Ok(_) => {},
        Err(st2) => {
            lemma_next_lexeme_advances(inp, f.ii, f.ci, st2);
        },
    }
}

/// The effect of a lexeme on what the lexer remembers.
pub open spec fn post_update(st: LexerState, l: Option<(LexemeKind, Seq<char>)>) -> LexerState {
    let is = |k: LexemeKind| l matches Some(x) && x.0 == k;
    LexerState {
        first_lexeme: false,
        possible_search_root: is(LexemeKind::From) || (is(LexemeKind::Comma) && !st.before_from
            && !st.after_where),
        after_operator: is(LexemeKind::Operator),
        after_logical: is(LexemeKind::Where) || is(LexemeKind::And) || is(LexemeKind::Or) || is(
            LexemeKind::Open,
        ) || is(LexemeKind::CurlyOpen) || (is(LexemeKind::Comma) && st.after_where),
        ..st
    }
}

pub open spec fn is_word_operator(w: Seq<char>) -> bool {
    w == "eq"@ || w == "ne"@ || w == "gt"@ || w == "lt"@ || w == "ge"@ || w == "le"@ || w == "gte"@
        || w == "lte"@ || w == "regexp"@ || w == "rx"@ || w == "like"@ || w == "between"@ || w == "in"@
}

pub open spec fn is_word_arithmetic(w: Seq<char>) -> bool {
    w == "mul"@ || w == "div"@ || w == "mod"@ || w == "plus"@ || w == "minus"@
}

/// How the lexer classifies a raw word `s` (lower-cased to `w`): a keyword,
/// a word operator or a plain string, with its effect on the state; `None`
/// for `asc` in an ordering, which is skipped.
pub open spec fn classify_raw(st: LexerState, s: Seq<char>) -> Option<
    ((LexemeKind, Seq<char>), LexerState),
> {
    let w = unicode_lowercase(s);
    let ao = st.after_operator;
    let al = st.after_logical;
    let e = Seq::<char>::empty();
    if w == "select"@ && !ao {
        Some(((LexemeKind::Select, e), st))
    } else if w == "from"@ && !ao && !al {
        Some(((LexemeKind::From, e), LexerState { before_from: false, after_where: false, ..st }))
    } else if w == "where"@ && !ao && !al {
        Some(((LexemeKind::Where, e), LexerState { before_from: false, after_where: true, ..st }))
    } else if w == "or"@ && st.after_where && !ao && !al {
        Some(((LexemeKind::Or, e), st))
    } else if w == "and"@ && st.after_where && !ao && !al {
        Some(((LexemeKind::And, e), st))
    } else if w == "not"@ && st.after_where && !ao {
        Some(((LexemeKind::Not, e), st))
    } else if w == "order"@ && !ao && !al {
        Some(((LexemeKind::Order, e), LexerState { after_where: false, ..st }))
    } else if w == "by"@ && !ao && !al {
        Some(((LexemeKind::By, e), st))
    } else if w == "asc"@ && !ao && !st.before_from && !al {
        None
    } else if w == "desc"@ && !ao && !st.before_from && !al {
        Some(((LexemeKind::DescendingOrder, e), st))
    } else if w == "limit"@ && !ao && !al {
        Some(((LexemeKind::Limit, e), LexerState { after_where: false, ..st }))
    } else if w == "offset"@ && !ao && !al {
        Some(((LexemeKind::Offset, e), LexerState { after_where: false, ..st }))
    } else if w == "into"@ && !ao && !al {
        Some(((LexemeKind::Into, e), LexerState { after_where: false, ..st }))
    } else if w == "exists"@ && st.after_where && !ao {
        Some(((LexemeKind::Operator, w), st))
    } else if is_word_operator(w) && st.after_where && !ao && !al {
        Some(((LexemeKind::Operator, w), st))
    } else if is_word_arithmetic(w) && (st.before_from || st.after_where) && !ao && !al {
        Some(((LexemeKind::ArithmeticOperator, s), st))
    } else {
        Some(((LexemeKind::RawString, s), st))
    }
}

/// The lexeme that a finished scan makes, with the state's keyword effects;
/// `Err(state)` when the word is skipped and the next one is read instead.
pub open spec fn finish_scan(f: Scan) -> Result<(Option<(LexemeKind, Seq<char>)>, LexerState), LexerState> {
    let e = Seq::<char>::empty();
    match f.mode {
        LexingMode::SingleQuotedString | LexingMode::DoubleQuotedString
        | LexingMode::BackticksQuotedString => if f.closed {
            Ok((Some((LexemeKind::String, f.s)), f.st))
        } else {
            Ok((None, f.st))
        },
        LexingMode::Operator => Ok((Some((LexemeKind::Operator, f.s)), f.st)),
        LexingMode::ArithmeticOperator => Ok((Some((LexemeKind::ArithmeticOperator, f.s)), f.st)),
        LexingMode::Comma => Ok((Some((LexemeKind::Comma, e)), f.st)),
        LexingMode::Open => if f.s == "("@ {
            Ok((Some((LexemeKind::Open, e)), f.st))
        } else if f.s == "{"@ {
            Ok((Some((LexemeKind::CurlyOpen, e)), f.st))
        } else {
            Ok((None, f.st))
        },
        LexingMode::Close => if f.s == ")"@ {
            Ok((Some((LexemeKind::Close, e)), f.st))
        } else if f.s == "}"@ {
            Ok((Some((LexemeKind::CurlyClose, e)), f.st))
        } else {
            Ok((None, f.st))
        },
        LexingMode::RawString => match classify_raw(f.st, f.s) {
            Some((l, st)) => Ok((Some(l), st)),
            None => Err(f.st),
        },
        LexingMode::Undefined => Ok((None, f.st)),
    }
}

pub open spec fn start_scan(ii: int, ci: int, st: LexerState) -> Scan {
    Scan {
        ii,
        ci,
        st,
        mode: LexingMode::Undefined,
        s: Seq::empty(),
        closed: false,
        done: false,
    }
}

/// The next lexeme read from position (`ii`, `ci`) in state `st`, with the
/// position and state that follow.
pub open spec fn spec_next_lexeme(inp: Seq<Seq<char>>, ii: int, ci: int, st: LexerState) -> (
    Option<(LexemeKind, Seq<char>)>,
    int,
    int,
    LexerState,
)
    decreases (inp.len() - ii) as nat, (part_len(inp, ii) + 1 - ci) as nat,
{
    if !valid_pos(inp, ii, ci) {
        (None, ii, ci, st)
    } else {
        let f = scan(inp, start_scan(ii, ci, st));
        match finish_scan(f) {
            Ok((l, st2)) => (l, f.ii, f.ci, post_update(st2, l)),
            Err(st2) => {
                proof {
                    lemma_scan_progress(inp, start_scan(ii, ci, st));
                }
                let (l, ii3, ci3, st3) = spec_next_lexeme(inp, f.ii, f.ci, st2);
                (l, ii3, ci3, post_update(st3, l))
            },
        }
    }
}

/// The lexeme that the lexer reads `n` reads from position (`ii`, `ci`) in
/// state `st`, if it reads that many.
pub open spec fn lexer_nth(inp: Seq<Seq<char>>, ii: int, ci: int, st: LexerState, n: nat) -> Option<
    (LexemeKind, Seq<char>),
>
    decreases n,
{
    let (l, ii2, ci2, st2) = spec_next_lexeme(inp, ii, ci, st);
    if n == 0 {
        l
    } else if l is Some {
        lexer_nth(inp, ii2, ci2, st2, (n - 1) as nat)
    } else {
        None
    }
}

/// Once a lexer has read nothing, it reads nothing more.
pub proof fn lemma_lexer_nth_after_none(inp: Seq<Seq<char>>, ii: int, ci: int, st: LexerState, n: nat)
    requires
        spec_next_lexeme(inp, ii, ci, st).0 is None,
    ensures
        ({
            let (_l, ii2, ci2, st2) = spec_next_lexeme(inp, ii, ci, st);
            lexer_nth(inp, ii2, ci2, st2, n) is None
        }),
{
    let (_l, ii2, ci2, st2) = spec_next_lexeme(inp, ii, ci, st);
    if valid_pos(inp, ii, ci) {
        lemma_next_lexeme_none_at_end(inp, ii, ci, st);
    }
    if valid_pos(inp, ii2, ci2) {
        lemma_next_lexeme_none_at_end(inp, ii2, ci2, st2);
    }
    assert(spec_next_lexeme(inp, ii2, ci2, st2).0 is None);
}

fn is_op_char(st: &LexerState, c: char) -> (r: bool)
    ensures
        r == spec_is_op_char(*st, c),
{
    if !st.before_from && !st.after_where {
        return false;
    }
    c == '=' || c == '!' || c == '<' || c == '>' || c == '~'
}

fn is_arithmetic_op_char(st: &LexerState, c: char) -> (r: bool)
    ensures
        r == spec_is_arithmetic_op_char(*st, c),
{
    if c == '+' || c == '-' {
        (st.before_from || st.after_where) && !st.after_operator
    } else if c == '*' || c == '/' || c == '%' {
        (st.before_from || st.after_where) && !st.after_open && !st.after_operator
    } else {
        false
    }
}

fn is_paren_char(c: char) -> (r: bool)
    ensures
        r == spec_is_paren_char(c),
{
    c == '(' || c == ')' || c == '{' || c == '}'
}

fn is_alnum(c: char) -> (r: bool)
    ensures
        r == is_ascii_alnum(c),
{
    ('a' <= c && c <= 'z') || ('A' <= c && c <= 'Z') || ('0' <= c && c <= '9')
}

fn piece_known(p: &str) -> (r: bool)
    ensures
        r == piece_is_known(p@),
{
    if Field::parse_field(p).is_ok() {
        return true;
    }
    if Function::parse_name(p).is_ok() {
        return true;
    }
    parse_i64(p).is_some()
}

proof fn lemma_alnum_pieces_len(s: Seq<char>)
    ensures
        alnum_pieces(s).len() >= 1,
    decreases s.len(),
{
    if s.len() > 0 {
        lemma_alnum_pieces_len(s.drop_last());
    }
}

/// Whether every piece of the text between non-alphanumeric characters is a
/// field, a function or a number.
pub fn looks_like_expression(s: &str) -> (r: bool)
    ensures
        r == spec_looks_like_expression(s@),
{
    let n = s.unicode_len();
    let mut piece = String::new();
    let mut i: usize = 0;
    proof {
        assert(s@.take(0) =~= Seq::<char>::empty());
    }
    while i < n
        invariant
            n == s@.len(),
            i <= n,
            alnum_pieces(s@.take(i as int)).len() >= 1,
            piece@ == alnum_pieces(s@.take(i as int)).last(),
            forall|k: int|
                0 <= k < alnum_pieces(s@.take(i as int)).len() - 1 ==> #[trigger] piece_is_known(
                    alnum_pieces(s@.take(i as int))[k],
                ),
        decreases n - i,
    {
        let c = s.get_char(i);
        let ghost pre = s@.take(i as int);
        proof {
            assert(s@.take(i + 1).drop_last() =~= pre);
            lemma_alnum_pieces_len(pre);
        }
        if is_alnum(c) {
            push_char(&mut piece, c);
            proof {
                let r = alnum_pieces(pre);
                assert(alnum_pieces(s@.take(i + 1)) == r.update(r.len() - 1, r.last().push(c)));
                assert forall|k: int|
                    0 <= k < alnum_pieces(s@.take(i + 1)).len() - 1 implies #[trigger] piece_is_known(
                    alnum_pieces(s@.take(i + 1))[k],
                ) by {
                    assert(alnum_pieces(s@.take(i + 1))[k] == r[k]);
                }
            }
        } else {
            if !piece_known(piece.as_str()) {
                proof {
                    let r = alnum_pieces(pre);
                    assert(alnum_pieces(s@.take(i + 1)) == r.push(Seq::empty()));
                    lemma_prefix_pieces(s@, i as int + 1);
                    let k = r.len() - 1;
                    assert(alnum_pieces(s@.take(i + 1))[k] == piece@);
                    assert(alnum_pieces(s@)[k] == piece@);
                    assert(!piece_is_known(alnum_pieces(s@)[k]));
                }
                return false;
            }
            piece = String::new();
            proof {
                let r = alnum_pieces(pre);
                assert(alnum_pieces(s@.take(i + 1)) == r.push(Seq::empty()));
                assert forall|k: int|
                    0 <= k < alnum_pieces(s@.take(i + 1)).len() - 1 implies #[trigger] piece_is_known(
                    alnum_pieces(s@.take(i + 1))[k],
                ) by {
                    if k < r.len() - 1 {
                        assert(alnum_pieces(s@.take(i + 1))[k] == r[k]);
                    } else {
                        assert(alnum_pieces(s@.take(i + 1))[k] == r.last());
                    }
                }
            }
        }
        i = i + 1;
    }
    proof {
        assert(s@.take(n as int) =~= s@);
    }
    let last_ok = piece_known(piece.as_str());
    proof {
        let r = alnum_pieces(s@);
        if last_ok {
            assert forall|k: int| 0 <= k < r.len() implies #[trigger] piece_is_known(r[k]) by {
                if k == r.len() - 1 {
                    assert(r[k] == piece@);
                }
            }
        } else {
            assert(!piece_is_known(r[r.len() - 1]));
        }
    }
    last_ok
}

/// The pieces of a prefix are those of the whole text, except that the
/// prefix's last piece may continue.
proof fn lemma_prefix_pieces(s: Seq<char>, k: int)
    requires
        0 <= k <= s.len(),
    ensures
        alnum_pieces(s.take(k)).len() <= alnum_pieces(s).len(),
        forall|j: int|
            0 <= j < alnum_pieces(s.take(k)).len() - 1 ==> #[trigger] alnum_pieces(s)[j]
                == alnum_pieces(s.take(k))[j],
        k > 0 && !is_ascii_alnum(s[k - 1]) ==> alnum_pieces(s.take(k - 1)).last() == alnum_pieces(
            s,
        )[alnum_pieces(s.take(k - 1)).len() - 1] && alnum_pieces(s.take(k - 1)).len() < alnum_pieces(
            s,
        ).len(),
    decreases s.len() - k,
{
    lemma_alnum_pieces_len(s.take(k));
    if k < s.len() {
        lemma_prefix_pieces(s, k + 1);
        assert(s.take(k + 1).drop_last() =~= s.take(k));
        lemma_alnum_pieces_len(s.take(k));
        if k > 0 && !is_ascii_alnum(s[k - 1]) {
            assert(s.take(k).drop_last() =~= s.take(k - 1));
            lemma_alnum_pieces_len(s.take(k - 1));
        }
    } else {
        assert(s.take(k) =~= s);
        if k > 0 && !is_ascii_alnum(s[k - 1]) {
            assert(s.take(k).drop_last() =~= s.take(k - 1));
            lemma_alnum_pieces_len(s.take(k - 1));
        }
    }
}

/// Whether the text reads as a date (see `spec_looks_like_date`).
pub fn looks_like_date(s: &str) -> (r: bool)
    ensures
        r == spec_looks_like_date(s@),
{
    let pattern = match Pattern::new("(\\d{4})-?(\\d{2})?") {
        Some(p) => p,
        None => return false,
    };
    match pattern.captures(s) {
        Some(caps) => {
            if caps.len() < 2 {
                return false;
            }
            let year_ok = match &caps[1] {
                Some(y) => match parse_i32(y.as_str()) {
                    Some(year) => 1970 <= year && year < 3000,
                    None => false,
                },
                None => false,
            };
            if !year_ok {
                return false;
            }
            if caps.len() >= 3 {
                match &caps[2] {
                    Some(m) => match parse_i32(m.as_str()) {
                        Some(month) => 1 <= month && month <= 12,
                        None => false,
                    },
                    None => true,
                }
            } else {
                true
            }
        },
        None => false,
    }
}

impl Lexer {
    pub closed spec fn inp(&self) -> Seq<Seq<char>> {
        words(self.input@)
    }

    pub closed spec fn ii(&self) -> int {
        self.input_index as int
    }

    pub closed spec fn ci(&self) -> int {
        self.char_index as int
    }

    pub closed spec fn st(&self) -> LexerState {
        self.state
    }

    pub closed spec fn history(&self) -> Seq<LexerState> {
        self.state_history@
    }

    /// The reading position is inside the input and the words are of a
    /// length the position can count.
    pub open spec fn wf(&self) -> bool {
        valid_pos(self.inp(), self.ii(), self.ci()) && words_fit(self.inp())
    }

    /// A lexer at the start of the given words.
    pub fn new(input: Vec<String>) -> (r: Lexer)
        requires
            words_fit(words(input@)),
        ensures
            r.wf(),
            r.inp() == words(input@),
            r.ii() == 0,
            r.ci() == 0,
            r.st() == initial_state(),
            r.history().len() == 0,
    {
        Lexer {
            input,
            input_index: 0,
            char_index: 0,
            state: LexerState::new(),
            state_history: Vec::new(),
        }
    }

    /// The reading position: the word, and the character in it.
    pub fn position(&self) -> (r: (usize, isize))
        ensures
            r.0 == self.ii(),
            r.1 == self.ci(),
    {
        (self.input_index, self.char_index)
    }

    /// The words joined with single spaces.
    pub fn get_input_string(&self) -> (r: String)
        ensures
            r@ == join_words(self.inp()),
    {
        let mut s = String::new();
        let mut i: usize = 0;
        while i < self.input.len()
            invariant
                i <= self.input@.len(),
                s@ == join_words(words(self.input@).take(i as int)),
            decreases self.input@.len() - i,
        {
            if i > 0 {
                push_char(&mut s, ' ');
            }
            push_str(&mut s, self.input[i].as_str());
            assert(words(self.input@).take(i + 1).drop_last() =~= words(self.input@).take(i as int));
            i = i + 1;
        }
        assert(words(self.input@).take(self.input@.len() as int) =~= words(self.input@));
        s
    }

    /// Saves the state and starts afresh, as for a nested query.
    pub fn push_state(&mut self)
        ensures
            final(self).inp() == old(self).inp(),
            final(self).ii() == old(self).ii(),
            final(self).ci() == old(self).ci(),
            final(self).st() == initial_state(),
            final(self).history() == old(self).history().push(old(self).st()),
    {
        self.state_history.push(self.state);
        self.state = LexerState::new();
    }

    /// Restores the last saved state, or starts afresh when none is saved.
    pub fn pop_state(&mut self)
        ensures
            final(self).inp() == old(self).inp(),
            final(self).ii() == old(self).ii(),
            final(self).ci() == old(self).ci(),
            old(self).history().len() > 0 ==> final(self).st() == old(self).history().last()
                && final(self).history() == old(self).history().drop_last(),
            old(self).history().len() == 0 ==> final(self).st() == initial_state()
                && final(self).history().len() == 0,
    {
        if let Some(state) = self.state_history.pop() {
            self.state = state;
        } else {
            self.state = LexerState::new();
        }
    }

    fn current_char(&self, ci: usize) -> (r: char)
        requires
            self.input_index < self.input@.len(),
            ci < self.input@[self.input_index as int]@.len(),
        ensures
            r == self.inp()[self.ii()][ci as int],
    {
        self.input[self.input_index].as_str().get_char(ci)
    }

    fn next_char_is_digit(&self) -> (r: bool)
        requires
            self.input_index < self.input@.len(),
            -1 <= self.char_index < self.input@[self.input_index as int]@.len(),
            self.input@[self.input_index as int]@.len() < isize::MAX,
        ensures
            r == (next_char(self.inp(), self.ii(), self.ci()) matches Some(n) && '0' <= n && n <= '9'),
    {
        let part = self.input[self.input_index].as_str();
        let k = (self.char_index + 1) as usize;
        let n = if k < part.unicode_len() {
            Some(part.get_char(k))
        } else if self.input_index < self.input.len() - 1 && self.input[self.input_index + 1].as_str().unicode_len() > 0 {
            Some(self.input[self.input_index + 1].as_str().get_char(0))
        } else {
            None
        };
        match n {
            Some(c) => '0' <= c && c <= '9',
            None => false,
        }
    }

    /// Reads the next lexeme (see `spec_next_lexeme`); `None` at the end of
    /// the input or for a quoted string that is never closed.
    pub fn next_lexeme(&mut self) -> (r: Option<Lexeme>)
        requires
            old(self).wf(),
        ensures
            final(self).wf(),
            final(self).inp() == old(self).inp(),
            final(self).history() == old(self).history(),
            (opt_lexeme_view(r), final(self).ii(), final(self).ci(), final(self).st())
                == spec_next_lexeme(old(self).inp(), old(self).ii(), old(self).ci(), old(self).st()),
        decreases (old(self).inp().len() - old(self).ii()) as nat, (part_len(old(self).inp(), old(self).ii()) + 1 - old(self).ci()) as nat,
    {
        let ghost inp = self.inp();
        let ghost init = start_scan(self.ii(), self.ci(), self.st());
        let mut s = String::new();
        let mut mode = LexingMode::Undefined;
        let mut quote_closed = false;

        loop
            invariant_except_break
                self.wf(),
                self.inp() == inp,
                self.history() == old(self).history(),
                inp == old(self).inp(),
                !quote_closed,
                init == start_scan(old(self).ii(), old(self).ci(), old(self).st()),
                scan(inp, Scan {
                    ii: self.ii(),
                    ci: self.ci(),
                    st: self.st(),
                    mode,
                    s: s@,
                    closed: quote_closed,
                    done: false,
                }) == scan(inp, init),
            ensures
                self.wf(),
                self.inp() == inp,
                self.history() == old(self).history(),
                scan(inp, init) == (Scan {
                    ii: self.ii(),
                    ci: self.ci(),
                    st: self.st(),
                    mode,
                    s: s@,
                    closed: quote_closed,
                    done: true,
                }),
            decreases (inp.len() - self.ii()) as nat, (part_len(inp, self.ii()) + 1 - self.ci()) as nat,
        {
            let ghost cur = Scan {
                ii: self.ii(),
                ci: self.ci(),
                st: self.st(),
                mode,
                s: s@,
                closed: quote_closed,
                done: false,
            };
            let done = self.scan_once(&mut mode, &mut s, &mut quote_closed);
            let ghost nxt = Scan {
                ii: self.ii(),
                ci: self.ci(),
                st: self.st(),
                mode,
                s: s@,
                closed: quote_closed,
                done,
            };
            proof {
                assert(nxt == scan_step(inp, cur));
                assert(scan(inp, cur) == scan(inp, nxt));
                if done {
                    assert(scan(inp, nxt) == nxt);
                }
            }
            if done {
                break;
            }
        }

        let ghost f = scan(inp, init);
        let lexeme = match mode {
            LexingMode::SingleQuotedString | LexingMode::DoubleQuotedString
            | LexingMode::BackticksQuotedString => if quote_closed {
                Some(Lexeme::String(s))
            } else {
                None
            },
            LexingMode::Operator => Some(Lexeme::Operator(s)),
            LexingMode::ArithmeticOperator => Some(Lexeme::ArithmeticOperator(s)),
            LexingMode::Comma => Some(Lexeme::Comma),
            LexingMode::Open => if str_eq(s.as_str(), "(") {
                Some(Lexeme::Open)
            } else if str_eq(s.as_str(), "{") {
                Some(Lexeme::CurlyOpen)
            } else {
                None
            },
            LexingMode::Close => if str_eq(s.as_str(), ")") {
                Some(Lexeme::Close)
            } else if str_eq(s.as_str(), "}") {
                Some(Lexeme::CurlyClose)
            } else {
                None
            },
            LexingMode::RawString => {
                match self.classify(s) {
                    Some(l) => Some(l),
                    None => {
                        proof {
                            lemma_scan_progress(inp, init);
                        }
                        self.next_lexeme()
                    },
                }
            },
            LexingMode::Undefined => None,
        };
        self.apply_post_update(&lexeme);
        lexeme
    }

    /// One turn of the scanning loop (see `scan_step`); true when the loop stops.
    fn scan_once(&mut self, mode: &mut LexingMode, s: &mut String, closed: &mut bool) -> (done: bool)
        requires
            old(self).wf(),
            !*old(closed),
        ensures
            final(self).wf(),
            final(self).inp() == old(self).inp(),
            final(self).history() == old(self).history(),
            (Scan {
                ii: final(self).ii(),
                ci: final(self).ci(),
                st: final(self).st(),
                mode: *final(mode),
                s: final(s)@,
                closed: *final(closed),
                done,
            }) == scan_step(
                old(self).inp(),
                Scan {
                    ii: old(self).ii(),
                    ci: old(self).ci(),
                    st: old(self).st(),
                    mode: *old(mode),
                    s: old(s)@,
                    closed: *old(closed),
                    done: false,
                },
            ),
            !done ==> !*final(closed),
    {
        if self.input_index >= self.input.len() {
            return true;
        }
        let part_len_exec = self.input[self.input_index].as_str().unicode_len();
        if self.char_index == -1 {
            let skip = match *mode {
                LexingMode::SingleQuotedString
                | LexingMode::DoubleQuotedString
                | LexingMode::BackticksQuotedString => true,
                LexingMode::RawString => {
                    let n = s.as_str().unicode_len();
                    if n > 0 && s.as_str().get_char(n - 1) == '-' {
                        let prefix = s.as_str().substring_char(0, n - 1);
                        proof {
                            assert(prefix@ =~= s@.drop_last());
                        }
                        looks_like_date(prefix)
                    } else {
                        false
                    }
                },
                LexingMode::Operator => true,
                _ => false,
            };
            if skip {
                self.char_index = 0;
                return false;
            }
            self.step_on_char(mode, s, closed, ' ')
        } else {
            if self.char_index as usize >= part_len_exec {
                self.input_index = self.input_index + 1;
                self.char_index = -1;
                self.state.possible_search_root = false;
                return false;
            }
            let c = self.current_char(self.char_index as usize);
            self.step_on_char(mode, s, closed, c)
        }
    }

    /// The scanner's step on one character (see `step_char`).
    fn step_on_char(&mut self, mode: &mut LexingMode, s: &mut String, closed: &mut bool, c: char) -> (done: bool)
        requires
            old(self).wf(),
            old(self).input_index < old(self).input@.len(),
            -1 <= old(self).char_index < part_len(old(self).inp(), old(self).ii()),
            old(self).char_index == -1 ==> c == ' ',
            old(self).char_index >= 0 ==> c == old(self).inp()[old(self).ii()][old(self).ci()],
            !*old(closed),
        ensures
            final(self).wf(),
            final(self).inp() == old(self).inp(),
            final(self).history() == old(self).history(),
            (Scan {
                ii: final(self).ii(),
                ci: final(self).ci(),
                st: final(self).st(),
                mode: *final(mode),
                s: final(s)@,
                closed: *final(closed),
                done,
            }) == step_char(
                old(self).inp(),
                Scan {
                    ii: old(self).ii(),
                    ci: old(self).ci(),
                    st: old(self).st(),
                    mode: *old(mode),
                    s: old(s)@,
                    closed: *old(closed),
                    done: false,
                },
                c,
            ),
            !done ==> !*final(closed),
    {
        proof {
            assert(self.inp()[self.ii()] == self.input@[self.input_index as int]@);
        }
        match *mode {
            LexingMode::Comma | LexingMode::Open | LexingMode::Close | LexingMode::ArithmeticOperator => true,
            LexingMode::SingleQuotedString | LexingMode::DoubleQuotedString | LexingMode::BackticksQuotedString => {
                let q = match *mode {
                    LexingMode::SingleQuotedString => '\'',
                    LexingMode::DoubleQuotedString => '"',
                    _ => '`',
                };
                self.char_index = self.char_index + 1;
                if c == q {
                    *closed = true;
                    return true;
                }
                push_char(s, c);
                false
            },
            LexingMode::Operator => {
                if !is_op_char(&self.state, c) {
                    return true;
                }
                self.char_index = self.char_index + 1;
                push_char(s, c);
                false
            },
            LexingMode::RawString => {
                if self.raw_string_breaks_exec(s, c) {
                    return true;
                }
                self.char_index = self.char_index + 1;
                push_char(s, c);
                false
            },
            LexingMode::Undefined => {
                self.char_index = self.char_index + 1;
                if c == ' ' {
                } else if c == '\'' {
                    *mode = LexingMode::SingleQuotedString;
                } else if c == '"' {
                    *mode = LexingMode::DoubleQuotedString;
                } else if c == '`' {
                    *mode = LexingMode::BackticksQuotedString;
                } else if c == ',' {
                    *mode = LexingMode::Comma;
                } else if c == '(' || c == '{' {
                    push_char(s, c);
                    *mode = LexingMode::Open;
                } else if c == ')' || c == '}' {
                    push_char(s, c);
                    *mode = LexingMode::Close;
                } else {
                    *mode = if is_op_char(&self.state, c) {
                        LexingMode::Operator
                    } else if is_arithmetic_op_char(&self.state, c) {
                        LexingMode::ArithmeticOperator
                    } else {
                        LexingMode::RawString
                    };
                    push_char(s, c);
                }
                if c != ' ' {
                    self.state.after_open = match *mode {
                        LexingMode::Open => true,
                        _ => false,
                    };
                }
                false
            },
        }
    }

    /// Whether a raw string ends before `c` (see `raw_string_breaks`).
    fn raw_string_breaks_exec(&self, s: &String, c: char) -> (r: bool)
        requires
            self.wf(),
            self.input_index < self.input@.len(),
            -1 <= self.char_index < part_len(self.inp(), self.ii()),
        ensures
            r == raw_string_breaks(
                self.inp(),
                Scan {
                    ii: self.ii(),
                    ci: self.ci(),
                    st: self.st(),
                    mode: LexingMode::RawString,
                    s: s@,
                    closed: false,
                    done: false,
                },
                c,
            ),
    {
        proof {
            assert(self.inp()[self.ii()] == self.input@[self.input_index as int]@);
            assert(self.inp().len() == self.input@.len());
        }
        let is_date = c == '-' && looks_like_date(s.as_str()) && self.next_char_is_digit();
        if !is_date {
            if is_arithmetic_op_char(&self.state, c) {
                looks_like_expression(s.as_str())
            } else {
                (self.input.len() == 1 || (self.input.len() > 1 && !self.state.possible_search_root))
                    && (c == ' ' || c == ',' || is_paren_char(c) || is_op_char(&self.state, c))
            }
        } else {
            false
        }
    }

    fn classify(&mut self, s: String) -> (r: Option<Lexeme>)
        ensures
            final(self).inp() == old(self).inp(),
            final(self).ii() == old(self).ii(),
            final(self).ci() == old(self).ci(),
            final(self).history() == old(self).history(),
            match classify_raw(old(self).st(), s@) {
                Some((l, st)) => r matches Some(x) && lexeme_view(x) == l && final(self).st() == st,
                None => r is None && final(self).st() == old(self).st(),
            },
    {
        let lower = to_lowercase(s.as_str());
        let w = lower.as_str();
        let ao = self.state.after_operator;
        let al = self.state.after_logical;
        let aw = self.state.after_where;
        let bf = self.state.before_from;
        if str_eq(w, "select") && !ao {
            Some(Lexeme::Select)
        } else if str_eq(w, "from") && !ao && !al {
            self.state.before_from = false;
            self.state.after_where = false;
            Some(Lexeme::From)
        } else if str_eq(w, "where") && !ao && !al {
            self.state.before_from = false;
            self.state.after_where = true;
            Some(Lexeme::Where)
        } else if str_eq(w, "or") && aw && !ao && !al {
            Some(Lexeme::Or)
        } else if str_eq(w, "and") && aw && !ao && !al {
            Some(Lexeme::And)
        } else if str_eq(w, "not") && aw && !ao {
            Some(Lexeme::Not)
        } else if str_eq(w, "order") && !ao && !al {
            self.state.after_where = false;
            Some(Lexeme::Order)
        } else if str_eq(w, "by") && !ao && !al {
            Some(Lexeme::By)
        } else if str_eq(w, "asc") && !ao && !bf && !al {
            None
        } else if str_eq(w, "desc") && !ao && !bf && !al {
            Some(Lexeme::DescendingOrder)
        } else if str_eq(w, "limit") && !ao && !al {
            self.state.after_where = false;
            Some(Lexeme::Limit)
        } else if str_eq(w, "offset") && !ao && !al {
            self.state.after_where = false;
            Some(Lexeme::Offset)
        } else if str_eq(w, "into") && !ao && !al {
            self.state.after_where = false;
            Some(Lexeme::Into)
        } else if str_eq(w, "exists") && aw && !ao {
            Some(Lexeme::Operator(lower))
        } else if (str_eq(w, "eq") || str_eq(w, "ne") || str_eq(w, "gt") || str_eq(w, "lt")
            || str_eq(w, "ge") || str_eq(w, "le") || str_eq(w, "gte") || str_eq(w, "lte")
            || str_eq(w, "regexp") || str_eq(w, "rx") || str_eq(w, "like") || str_eq(w, "between")
            || str_eq(w, "in")) && aw && !ao && !al {
            Some(Lexeme::Operator(lower))
        } else if (str_eq(w, "mul") || str_eq(w, "div") || str_eq(w, "mod") || str_eq(w, "plus")
            || str_eq(w, "minus")) && (bf || aw) && !ao && !al {
            Some(Lexeme::ArithmeticOperator(s))
        } else {
            Some(Lexeme::RawString(s))
        }
    }

    fn apply_post_update(&mut self, l: &Option<Lexeme>)
        ensures
            final(self).inp() == old(self).inp(),
            final(self).ii() == old(self).ii(),
            final(self).ci() == old(self).ci(),
            final(self).history() == old(self).history(),
            final(self).st() == post_update(old(self).st(), opt_lexeme_view(*l)),
    {
        let (is_from, is_comma, is_op, is_logical) = match l {
            Some(Lexeme::From) => (true, false, false, false),
            Some(Lexeme::Comma) => (false, true, false, false),
            Some(Lexeme::Operator(_)) => (false, false, true, false),
            Some(Lexeme::Where) | Some(Lexeme::And) | Some(Lexeme::Or) | Some(Lexeme::Open)
            | Some(Lexeme::CurlyOpen) => (false, false, false, true),
            _ => (false, false, false, false),
        };
        self.state.first_lexeme = false;
        self.state.possible_search_root = is_from || (is_comma && !self.state.before_from
            && !self.state.after_where);
        self.state.after_operator = is_op;
        self.state.after_logical = is_logical || (is_comma && self.state.after_where);
    }
}

/// Saving the state and then restoring it gives the lexer back the state,
/// the saved states and the position it had: `before` is any lexer,
/// `pushed` what `push_state` makes of it, `popped` what `pop_state` makes
/// of `pushed`.
pub proof fn lemma_pop_state_undoes_push_state(before: Lexer, pushed: Lexer, popped: Lexer)
    requires
        pushed.inp() == before.inp(),
        pushed.ii() == before.ii(),
        pushed.ci() == before.ci(),
        pushed.st() == initial_state(),
        pushed.history() == before.history().push(before.st()),
        popped.inp() == pushed.inp(),
        popped.ii() == pushed.ii(),
        popped.ci() == pushed.ci(),
        pushed.history().len() > 0 ==> popped.st() == pushed.history().last()
            && popped.history() == pushed.history().drop_last(),
    ensures
        popped.inp() == before.inp(),
        popped.ii() == before.ii(),
        popped.ci() == before.ci(),
        popped.st() == before.st(),
        popped.history() == before.history(),
{
    assert(before.history().push(before.st()).drop_last() =~= before.history());
}

/// What one call of `next_lexeme` makes of lexer `a`, as its contract states it.
pub open spec fn next_lexeme_step(a: Lexer, b: Lexer) -> bool {
    let (_l, ii, ci, st) = spec_next_lexeme(a.inp(), a.ii(), a.ci(), a.st());
    &&& a.wf()
    &&& b.wf()
    &&& b.inp() == a.inp()
    &&& b.history() == a.history()
    &&& b.ii() == ii
    &&& b.ci() == ci
    &&& b.st() == st
}

/// What one call of `push_state` makes of lexer `a`, as its contract states it.
pub open spec fn push_state_step(a: Lexer, b: Lexer) -> bool {
    &&& b.inp() == a.inp()
    &&& b.ii() == a.ii()
    &&& b.ci() == a.ci()
    &&& b.st() == initial_state()
    &&& b.history() == a.history().push(a.st())
}

/// What one call of `pop_state` makes of lexer `a`, as its contract states it.
pub open spec fn pop_state_step(a: Lexer, b: Lexer) -> bool {
    &&& b.inp() == a.inp()
    &&& b.ii() == a.ii()
    &&& b.ci() == a.ci()
    &&& a.history().len() > 0 ==> b.st() == a.history().last() && b.history() == a.history().drop_last()
    &&& a.history().len() == 0 ==> b.st() == initial_state() && b.history().len() == 0
}

/// One call of `next_lexeme`, `push_state` or `pop_state`.
pub open spec fn lexer_call(a: Lexer, b: Lexer) -> bool {
    next_lexeme_step(a, b) || push_state_step(a, b) || pop_state_step(a, b)
}

/// Each lexer of the run comes from the one before by one call.
pub open spec fn is_lexer_run(run: Seq<Lexer>) -> bool {
    forall|k: int| 0 <= k < run.len() - 1 ==> #[trigger] lexer_call(run[k], run[k + 1])
}

/// Lexing never changes the input: across any run of calls of
/// `next_lexeme`, `push_state` and `pop_state` the lexer holds the same
/// words, so `get_input_string` gives the same text at the end as at the
/// start.
pub proof fn lemma_calls_keep_input(run: Seq<Lexer>)
    requires
        run.len() > 0,
        is_lexer_run(run),
    ensures
        run.last().inp() == run[0].inp(),
        join_words(run.last().inp()) == join_words(run[0].inp()),
    decreases run.len(),
{
    if run.len() > 1 {
        let prefix = run.drop_last();
        assert forall|k: int| 0 <= k < prefix.len() - 1 implies #[trigger] lexer_call(prefix[k], prefix[k + 1]) by {
            assert(lexer_call(run[k], run[k + 1]));
        }
        lemma_calls_keep_input(prefix);
        assert(lexer_call(run[run.len() - 2], run[run.len() - 2 + 1]));
    }
}

/// While a run stays deeper than the lexer it starts from, the saved
/// states keep, below the new ones, those of the start and then the state
/// that the first call saved.
proof fn lemma_saved_states_kept(run: Seq<Lexer>, j: int)
    requires
        is_lexer_run(run),
        run.len() >= 2,
        push_state_step(run[0], run[1]),
        forall|k: int| 0 < k < run.len() - 1 ==> #[trigger] run[k].history().len() > run[0].history().len(),
        1 <= j < run.len() - 1,
    ensures
        run[j].history().len() > run[0].history().len(),
        run[j].history().subrange(0, run[0].history().len() as int + 1) == run[0].history().push(run[0].st()),
    decreases j,
{
    let h = run[0].history().len() as int;
    let saved = run[0].history().push(run[0].st());
    if j == 1 {
        assert(run[1].history().subrange(0, h + 1) =~= saved);
    } else {
        lemma_saved_states_kept(run, j - 1);
        let a = run[j - 1];
        let b = run[j];
        assert(lexer_call(run[j - 1], run[j - 1 + 1]));
        assert(b.history().len() > h);
        if push_state_step(a, b) {
            assert(b.history().subrange(0, h + 1) =~= a.history().subrange(0, h + 1));
        } else if next_lexeme_step(a, b) {
        } else {
            assert(a.history().len() > 0);
            assert(b.history().subrange(0, h + 1) =~= a.history().subrange(0, h + 1));
        }
    }
}

/// Restoring undoes saving: when `push_state` is called on a lexer and the
/// run that follows stays deeper than it until a `pop_state` brings it
/// back to its depth (every later save restored), the lexer has again the
/// state and the saved states it had when `push_state` was called.
pub proof fn lemma_matched_pop_restores_state(run: Seq<Lexer>)
    requires
        run.len() >= 2,
        is_lexer_run(run),
        push_state_step(run[0], run[1]),
        forall|k: int| 0 < k < run.len() - 1 ==> #[trigger] run[k].history().len() > run[0].history().len(),
        run.last().history().len() == run[0].history().len(),
    ensures
        run.last().st() == run[0].st(),
        run.last().history() == run[0].history(),
        run.last().inp() == run[0].inp(),
{
    let n = run.len() as int;
    let h = run[0].history().len() as int;
    lemma_calls_keep_input(run);
    assert(n >= 3) by {
        if n == 2 {
            assert(run[1].history().len() == h + 1);
        }
    }
    lemma_saved_states_kept(run, n - 2);
    let a = run[n - 2];
    let b = run[n - 1];
    assert(lexer_call(run[n - 2], run[n - 2 + 1]));
    assert(!push_state_step(a, b));
    assert(!next_lexeme_step(a, b));
    assert(pop_state_step(a, b));
    assert(a.history().len() == h + 1);
    assert(a.history() =~= a.history().subrange(0, h + 1));
    assert(run[0].history().push(run[0].st()).drop_last() =~= run[0].history());
}

/// The words joined with single spaces.
pub open spec fn join_words(w: Seq<Seq<char>>) -> Seq<char>
    decreases w.len(),
{
    if w.len() == 0 {
        Seq::empty()
    } else if w.len() == 1 {
        w[0]
    } else {
        join_words(w.drop_last()).push(' ') + w.last()
    }
}

} // verus!
