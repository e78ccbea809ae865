//! `.hgignore` patterns (Mercurial). Lines hold regular expressions or
//! globs, as the last `syntax:` line says; `#` starts a comment unless it is
//! escaped. A path is ignored when any pattern matches it.

use vstd::prelude::*;

use crate::pattern::{escape, regex_compiles, regex_matches, spec_regex_escape, Pattern};
use crate::strings::{
    has_prefix, push_char, push_str, spec_trim, spec_trim_end, starts_with, str_eq, str_to_string,
    substring, trim, trim_end,
};

verus! {

/// A compiled `.hgignore` pattern.
pub struct HgignoreFilter {
    pub regex: Pattern,
}

impl HgignoreFilter {
    pub fn new(regex: Pattern) -> (r: HgignoreFilter)
        ensures
            r == (HgignoreFilter { regex }),
    {
        HgignoreFilter { regex }
    }
}

/// How the patterns of an `.hgignore` are written.
#[derive(Debug, Clone, Copy, PartialEq, Eq, Structural)]
pub enum Syntax {
    Regexp,
    Glob,
    RootGlob,
}

/// The syntax a `syntax:` line names: `regexp` or `re`, `glob`, `rootglob`.
pub open spec fn spec_syntax_from(s: Seq<char>) -> Option<Syntax> {
    if s == "regexp"@ || s == "re"@ {
        Some(Syntax::Regexp)
    } else if s == "glob"@ {
        Some(Syntax::Glob)
    } else if s == "rootglob"@ {
        Some(Syntax::RootGlob)
    } else {
        None
    }
}

impl Syntax {
    /// The syntax a `syntax:` line names, if it is one.
    pub fn from(s: &str) -> (r: Option<Syntax>)
        ensures
            r == spec_syntax_from(s@),
    {
        if str_eq(s, "regexp") || str_eq(s, "re") {
            Some(Syntax::Regexp)
        } else if str_eq(s, "glob") {
            Some(Syntax::Glob)
        } else if str_eq(s, "rootglob") {
            Some(Syntax::RootGlob)
        } else {
            None
        }
    }
}

/// The number of backslashes right before position `p`.
pub open spec fn backslashes_before(s: Seq<char>, p: int) -> nat
    decreases p,
{
    if p <= 0 || p > s.len() || s[p - 1] != '\\' {
        0
    } else {
        1 + backslashes_before(s, p - 1)
    }
}

/// Whether position `p` holds a `#` that starts a comment: one after an
/// even number of backslashes.
pub open spec fn comment_at(s: Seq<char>, p: int) -> bool {
    0 <= p < s.len() && s[p] == '#' && backslashes_before(s, p) % 2 == 0
}

/// The first position from `from` on where a comment starts.
pub open spec fn first_comment(s: Seq<char>, from: int) -> Option<int>
    decreases s.len() - from,
{
    if from < 0 || from >= s.len() {
        None
    } else if comment_at(s, from) {
        Some(from)
    } else {
        first_comment(s, from + 1)
    }
}

/// The text with each `\#`, read from the left, made a plain `#`.
pub open spec fn unescape_hashes(s: Seq<char>) -> Seq<char>
    decreases s.len(),
{
    if s.len() == 0 {
        Seq::empty()
    } else if s.len() >= 2 && s[0] == '\\' && s[1] == '#' {
        seq!['#'] + unescape_hashes(s.skip(2))
    } else {
        seq![s[0]] + unescape_hashes(s.skip(1))
    }
}

/// A line without its comment, and with its escaped hashes made plain; a
/// line without `#` stays as it is.
pub open spec fn spec_strip_hg_comment(s: Seq<char>) -> Seq<char> {
    if !s.contains('#') {
        s
    } else {
        unescape_hashes(
            match first_comment(s, 0) {
                Some(p) => s.take(p),
                None => s,
            },
        )
    }
}

/// The expression text for one character of a glob (after `**` has been
/// tried): `*` and `?` within a level, meta characters escaped.
pub open spec fn hg_glob_char(c: char) -> Seq<char> {
    if c == '.' {
        seq!['\\', '.']
    } else if c == '*' {
        seq!['[', '^', '/', ']', '*']
    } else if c == '?' {
        seq!['[', '^', '/', ']']
    } else if c == '[' || c == ']' || c == '(' || c == ')' || c == '^' || c == '$' || c == '+' || c
        == '{' || c == '}' || c == '|' || c == '\\' {
        seq!['\\', c]
    } else {
        seq![c]
    }
}

/// A glob as an expression, read from the left: `**` is any text.
pub open spec fn hg_glob_regex(g: Seq<char>) -> Seq<char>
    decreases g.len(),
{
    if g.len() == 0 {
        Seq::empty()
    } else if g.len() >= 2 && g[0] == '*' && g[1] == '*' {
        seq!['.', '*'] + hg_glob_regex(g.skip(2))
    } else {
        hg_glob_char(g[0]) + hg_glob_regex(g.skip(1))
    }
}

/// The text with each `.*/`, read from the left, made `(?:.*/)?`, so that
/// `**/` also matches no directory at all.
pub open spec fn optional_levels(s: Seq<char>) -> Seq<char>
    decreases s.len(),
{
    if s.len() == 0 {
        Seq::empty()
    } else if s.len() >= 3 && s[0] == '.' && s[1] == '*' && s[2] == '/' {
        seq!['(', '?', ':', '.', '*', '/', ')', '?'] + optional_levels(s.skip(3))
    } else {
        seq![s[0]] + optional_levels(s.skip(1))
    }
}

/// `/([^/]+/)*`: a slash and then any number of directory levels.
pub open spec fn hg_any_levels() -> Seq<char> {
    seq!['/', '(', '[', '^', '/', ']', '+', '/', ')', '*']
}

/// What a glob of the `.hgignore` in `dir` becomes: the text of its compiled
/// expression (the directory, any levels below it unless the glob is
/// rooted, the glob, then the end of a path component), or the error.
pub open spec fn spec_hg_glob(glob: Seq<char>, dir: Seq<char>, rooted: bool) -> Result<Seq<char>, Seq<char>> {
    let translated = hg_glob_regex(glob);
    if translated.len() == 0 {
        Err("Error parsing .hgignore pattern: "@ + glob)
    } else {
        let text = seq!['^'] + spec_regex_escape(dir) + (if rooted {
            seq!['/']
        } else {
            hg_any_levels()
        }) + optional_levels(translated) + "(?:/|$)"@;
        if regex_compiles(text) {
            Ok(text)
        } else {
            Err("Error creating regex pattern: "@ + text)
        }
    }
}

/// The text without the `^`s it starts with.
pub open spec fn skip_carets(s: Seq<char>) -> Seq<char>
    decreases s.len(),
{
    if s.len() > 0 && s[0] == '^' {
        skip_carets(s.skip(1))
    } else {
        s
    }
}

/// What a regular expression of the `.hgignore` in `dir` becomes: it
/// matches anywhere below the directory unless it starts with `^`, which
/// anchors it right below the directory.
pub open spec fn spec_hg_regexp(regexp: Seq<char>, dir: Seq<char>) -> Result<Seq<char>, Seq<char>> {
    let text = seq!['^'] + spec_regex_escape(dir) + (if has_prefix(regexp, seq!['^']) {
        seq!['/']
    } else {
        hg_any_levels() + seq!['.', '*']
    }) + skip_carets(regexp);
    if regex_compiles(text) {
        Ok(text)
    } else {
        Err("Error creating regex pattern: "@ + text)
    }
}

/// What a pattern becomes under a syntax.
pub open spec fn spec_hg_pattern(p: Seq<char>, dir: Seq<char>, syntax: Syntax) -> Result<Seq<char>, Seq<char>> {
    match syntax {
        Syntax::Glob => spec_hg_glob(p, dir, false),
        Syntax::RootGlob => spec_hg_glob(p, dir, true),
        Syntax::Regexp => spec_hg_regexp(p, dir),
    }
}

/// Whether any filter matches the path.
pub open spec fn spec_hg_ignored(fs: Seq<Seq<char>>, name: Seq<char>) -> bool {
    exists|i: int| 0 <= i < fs.len() && regex_matches(fs[i], name)
}

/// What a line of an `.hgignore` holds.
pub enum HgLine {
    /// Nothing but white space or a comment.
    Blank,
    /// A `syntax:` line: the syntax it names, if known, and its text.
    SyntaxDirective(Option<Syntax>, String),
    /// A `subinclude:` line and the file it names.
    SubInclude(String),
    /// A pattern.
    Pattern(String),
}

/// What a line holds: without its comment and trailing white space, a
/// `syntax:` or `subinclude:` line (their text trimmed), a pattern, or
/// nothing.
pub open spec fn spec_hg_line(raw: Seq<char>) -> (int, Seq<char>) {
    let l = spec_trim_end(spec_strip_hg_comment(raw));
    if l.len() == 0 {
        (0, Seq::empty())
    } else if has_prefix(l, "syntax:"@) {
        (1, spec_trim(l.skip(7)))
    } else if has_prefix(l, "subinclude:"@) {
        (2, spec_trim(l.skip(11)))
    } else {
        (3, l)
    }
}

/// A line's kind, as `spec_hg_line` numbers them, and its text.
pub open spec fn hg_line_view(l: HgLine) -> (int, Seq<char>) {
    match l {
        HgLine::Blank => (0, Seq::empty()),
        HgLine::SyntaxDirective(_, t) => (1, t@),
        HgLine::SubInclude(t) => (2, t@),
        HgLine::Pattern(t) => (3, t@),
    }
}

/// The number of backslashes that end the text.
pub open spec fn trailing_backslashes(s: Seq<char>) -> nat
    decreases s.len(),
{
    if s.len() == 0 || s.last() != '\\' {
        0
    } else {
        1 + trailing_backslashes(s.drop_last())
    }
}

proof fn lemma_backslashes_before(s: Seq<char>, p: int)
    requires
        0 <= p <= s.len(),
    ensures
        backslashes_before(s, p) == trailing_backslashes(s.take(p)),
    decreases p,
{
    if p > 0 && s[p - 1] == '\\' {
        assert(s.take(p).drop_last() =~= s.take(p - 1));
        lemma_backslashes_before(s, p - 1);
    }
}

/// The line without its comment, escaped hashes made plain
/// (`spec_strip_hg_comment`).
pub fn strip_hg_comment(line: &str) -> (r: String)
    ensures
        r@ == spec_strip_hg_comment(line@),
{
    let ghost s = line@;
    let n = line.unicode_len();
    let mut has_hash = false;
    let mut cut = n;
    let mut run: usize = 0;
    let mut i: usize = 0;
    while i < n
        invariant
            n == s.len(),
            s == line@,
            i <= n,
            run == trailing_backslashes(s.take(i as int)),
            run <= i,
            has_hash == s.take(i as int).contains('#'),
            cut == n ==> first_comment(s, 0) == first_comment(s, i as int),
            cut < n ==> first_comment(s, 0) == Some(cut as int) && has_hash,
            cut <= n,
        decreases n - i,
    {
        let c = line.get_char(i);
        proof {
            assert(s.take(i + 1).drop_last() =~= s.take(i as int));
            lemma_backslashes_before(s, i as int);
            if s.take(i as int).contains('#') {
                let k = choose|k: int| 0 <= k < i && #[trigger] s.take(i as int)[k] == '#';
                assert(s.take(i + 1)[k] == '#');
            }
            if c == '#' {
                assert(s.take(i + 1)[i as int] == '#');
            }
            if s.take(i + 1).contains('#') && c != '#' {
                let k = choose|k: int| 0 <= k < i + 1 && #[trigger] s.take(i + 1)[k] == '#';
                assert(s.take(i as int)[k] == '#');
            }
        }
        if c == '#' {
            has_hash = true;
            if cut == n && run % 2 == 0 {
                cut = i;
            }
        }
        if c == '\\' {
            run = run + 1;
        } else {
            run = 0;
        }
        i = i + 1;
    }
    proof {
        assert(s.take(n as int) =~= s);
    }
    if !has_hash {
        return str_to_string(line);
    }
    let kept = substring(line, 0, cut);
    proof {
        assert(kept@ =~= match first_comment(s, 0) {
            Some(p) => s.take(p),
            None => s,
        });
    }
    let ghost k = kept@;
    let m = kept.unicode_len();
    let mut out = String::new();
    let mut j: usize = 0;
    assert(k.skip(0) =~= k);
    while j < m
        invariant
            m == k.len(),
            k == kept@,
            j <= m,
            out@ + unescape_hashes(k.skip(j as int)) == unescape_hashes(k),
        decreases m - j,
    {
        let ghost rest = k.skip(j as int);
        let ghost before = out@;
        let c = kept.as_str().get_char(j);
        if c == '\\' && j + 1 < m && kept.as_str().get_char(j + 1) == '#' {
            push_char(&mut out, '#');
            proof {
                assert(rest.skip(2) =~= k.skip(j + 2));
                assert(before.push('#') =~= before + seq!['#']);
                assert(out@ + unescape_hashes(k.skip(j + 2)) =~= before + unescape_hashes(rest));
            }
            j = j + 2;
        } else {
            push_char(&mut out, c);
            proof {
                assert(rest.skip(1) =~= k.skip(j + 1));
                assert(before.push(c) =~= before + seq![c]);
                assert(out@ + unescape_hashes(k.skip(j + 1)) =~= before + unescape_hashes(rest));
            }
            j = j + 1;
        }
    }
    proof {
        assert(k.skip(m as int) =~= Seq::<char>::empty());
        assert(out@ + Seq::<char>::empty() =~= out@);
    }
    out
}

/// What a line of an `.hgignore` holds (`spec_hg_line`).
pub fn hg_line(raw: &str) -> (r: HgLine)
    ensures
        hg_line_view(r) == spec_hg_line(raw@),
        r matches HgLine::SyntaxDirective(s, t) ==> s == spec_syntax_from(t@),
{
    let stripped = strip_hg_comment(raw);
    let line = trim_end(stripped.as_str());
    let n = line.unicode_len();
    if n == 0 {
        return HgLine::Blank;
    }
    if starts_with(line.as_str(), "syntax:") {
        proof {
            reveal_strlit("syntax:");
        }
        let rest = substring(line.as_str(), 7, n);
        assert(rest@ =~= line@.skip(7));
        let directive = trim(rest.as_str());
        let syntax = Syntax::from(directive.as_str());
        HgLine::SyntaxDirective(syntax, directive)
    } else if starts_with(line.as_str(), "subinclude:") {
        proof {
            reveal_strlit("subinclude:");
        }
        let rest = substring(line.as_str(), 11, n);
        assert(rest@ =~= line@.skip(11));
        HgLine::SubInclude(trim(rest.as_str()))
    } else {
        HgLine::Pattern(line)
    }
}

/// The glob as an expression (`hg_glob_regex`).
fn hg_glob_to_regex(glob: &str) -> (r: String)
    ensures
        r@ == hg_glob_regex(glob@),
{
    let ghost g = glob@;
    let n = glob.unicode_len();
    let mut out = String::new();
    let mut i: usize = 0;
    assert(g.skip(0) =~= g);
    while i < n
        invariant
            n == g.len(),
            g == glob@,
            i <= n,
            out@ + hg_glob_regex(g.skip(i as int)) == hg_glob_regex(g),
        decreases n - i,
    {
        let c = glob.get_char(i);
        let ghost rest = g.skip(i as int);
        let ghost before = out@;
        assert(rest[0] == c);
        if c == '*' && i + 1 < n && glob.get_char(i + 1) == '*' {
            push_char(&mut out, '.');
            push_char(&mut out, '*');
            proof {
                assert(before.push('.').push('*') =~= before + seq!['.', '*']);
                assert(rest.skip(2) =~= g.skip(i + 2));
                assert(out@ + hg_glob_regex(g.skip(i + 2)) =~= before + hg_glob_regex(rest));
            }
            i = i + 2;
        } else {
            if c == '.' {
                push_char(&mut out, '\\');
                push_char(&mut out, '.');
                assert(before.push('\\').push('.') =~= before + seq!['\\', '.']);
            } else if c == '*' {
                proof {
                    reveal_strlit("[^/]*");
                    assert("[^/]*"@ =~= seq!['[', '^', '/', ']', '*']);
                }
                push_str(&mut out, "[^/]*");
            } else if c == '?' {
                proof {
                    reveal_strlit("[^/]");
                    assert("[^/]"@ =~= seq!['[', '^', '/', ']']);
                }
                push_str(&mut out, "[^/]");
            } else if c == '[' || c == ']' || c == '(' || c == ')' || c == '^' || c == '$' || c == '+'
                || c == '{' || c == '}' || c == '|' || c == '\\' {
                push_char(&mut out, '\\');
                push_char(&mut out, c);
                assert(before.push('\\').push(c) =~= before + seq!['\\', c]);
            } else {
                push_char(&mut out, c);
                assert(before.push(c) =~= before + seq![c]);
            }
            proof {
                assert(rest.skip(1) =~= g.skip(i + 1));
                assert(out@ + hg_glob_regex(g.skip(i + 1)) =~= before + hg_glob_regex(rest));
            }
            i = i + 1;
        }
    }
    proof {
        assert(g.skip(n as int) =~= Seq::<char>::empty());
        assert(out@ + Seq::<char>::empty() =~= out@);
    }
    out
}

/// The text with each `.*/` made `(?:.*/)?` (`optional_levels`).
fn with_optional_levels(s: &str) -> (r: String)
    ensures
        r@ == optional_levels(s@),
{
    let ghost t = s@;
    let n = s.unicode_len();
    let mut out = String::new();
    let mut i: usize = 0;
    assert(t.skip(0) =~= t);
    while i < n
        invariant
            n == t.len(),
            t == s@,
            i <= n,
            out@ + optional_levels(t.skip(i as int)) == optional_levels(t),
        decreases n - i,
    {
        let c = s.get_char(i);
        let ghost rest = t.skip(i as int);
        let ghost before = out@;
        if c == '.' && n - i >= 3 && s.get_char(i + 1) == '*' && s.get_char(i + 2) == '/' {
            proof {
                reveal_strlit("(?:.*/)?");
                assert("(?:.*/)?"@ =~= seq!['(', '?', ':', '.', '*', '/', ')', '?']);
                assert(rest.skip(3) =~= t.skip(i + 3));
            }
            push_str(&mut out, "(?:.*/)?");
            proof {
                assert(out@ + optional_levels(t.skip(i + 3)) =~= before + optional_levels(rest));
            }
            i = i + 3;
        } else {
            push_char(&mut out, c);
            proof {
                assert(rest.skip(1) =~= t.skip(i + 1));
                assert(before.push(c) =~= before + seq![c]);
                assert(out@ + optional_levels(t.skip(i + 1)) =~= before + optional_levels(rest));
            }
            i = i + 1;
        }
    }
    proof {
        assert(t.skip(n as int) =~= Seq::<char>::empty());
        assert(out@ + Seq::<char>::empty() =~= out@);
    }
    out
}

/// The expression for a glob of the `.hgignore` in `file_path`, compiled
/// (`spec_hg_glob`).
pub fn convert_hgignore_glob(glob: &str, file_path: &str, rooted: bool) -> (r: Result<Pattern, String>)
    ensures
        match spec_hg_glob(glob@, file_path@, rooted) {
            Ok(text) => r matches Ok(p) && p.source() == text,
            Err(e) => r matches Err(m) && m@ == e,
        },
{
    let translated = hg_glob_to_regex(glob);
    if translated.unicode_len() == 0 {
        let mut msg = str_to_string("Error parsing .hgignore pattern: ");
        push_str(&mut msg, glob);
        return Err(msg);
    }
    let levels = with_optional_levels(translated.as_str());
    let mut text = String::new();
    push_char(&mut text, '^');
    let escaped = escape(file_path);
    push_str(&mut text, escaped.as_str());
    if rooted {
        push_char(&mut text, '/');
    } else {
        proof {
            reveal_strlit("/([^/]+/)*");
            assert("/([^/]+/)*"@ =~= hg_any_levels());
        }
        push_str(&mut text, "/([^/]+/)*");
    }
    push_str(&mut text, levels.as_str());
    push_str(&mut text, "(?:/|$)");
    proof {
        assert(text@ =~= seq!['^'] + spec_regex_escape(file_path@) + (if rooted {
            seq!['/']
        } else {
            hg_any_levels()
        }) + optional_levels(translated@) + "(?:/|$)"@);
    }
    match Pattern::new(text.as_str()) {
        Some(p) => Ok(p),
        None => {
            let mut msg = str_to_string("Error creating regex pattern: ");
            push_str(&mut msg, text.as_str());
            Err(msg)
        },
    }
}

/// The text without the `^`s it starts with.
fn strip_carets(s: &str) -> (r: String)
    ensures
        r@ == skip_carets(s@),
{
    let n = s.unicode_len();
    let mut i: usize = 0;
    assert(s@.skip(0) =~= s@);
    while i < n && s.get_char(i) == '^'
        invariant
            n == s@.len(),
            i <= n,
            skip_carets(s@.skip(i as int)) == skip_carets(s@),
        decreases n - i,
    {
        assert(s@.skip(i as int).skip(1) =~= s@.skip(i + 1));
        i = i + 1;
    }
    let r = substring(s, i, n);
    assert(s@.subrange(i as int, n as int) =~= s@.skip(i as int));
    r
}

/// The expression for a regular expression of the `.hgignore` in
/// `file_path`, compiled (`spec_hg_regexp`).
pub fn convert_hgignore_regexp(regexp: &str, file_path: &str) -> (r: Result<Pattern, String>)
    ensures
        match spec_hg_regexp(regexp@, file_path@) {
            Ok(text) => r matches Ok(p) && p.source() == text,
            Err(e) => r matches Err(m) && m@ == e,
        },
{
    let mut text = String::new();
    push_char(&mut text, '^');
    let escaped = escape(file_path);
    push_str(&mut text, escaped.as_str());
    let anchored = starts_with(regexp, "^");
    proof {
        reveal_strlit("^");
        assert("^"@ =~= seq!['^']);
    }
    if !anchored {
        proof {
            reveal_strlit("/([^/]+/)*");
            assert("/([^/]+/)*"@ =~= hg_any_levels());
        }
        push_str(&mut text, "/([^/]+/)*");
        push_char(&mut text, '.');
        push_char(&mut text, '*');
    } else {
        push_char(&mut text, '/');
    }
    let body = strip_carets(regexp);
    push_str(&mut text, body.as_str());
    proof {
        assert(text@ =~= seq!['^'] + spec_regex_escape(file_path@) + (if has_prefix(
            regexp@,
            seq!['^'],
        ) {
            seq!['/']
        } else {
            hg_any_levels() + seq!['.', '*']
        }) + skip_carets(regexp@));
    }
    match Pattern::new(text.as_str()) {
        Some(p) => Ok(p),
        None => {
            let mut msg = str_to_string("Error creating regex pattern: ");
            push_str(&mut msg, text.as_str());
            Err(msg)
        },
    }
}

/// The filter of a pattern under a syntax (`spec_hg_pattern`).
pub fn convert_hgignore_pattern(pattern: &str, file_path: &str, syntax: &Syntax) -> (r: Result<
    HgignoreFilter,
    String,
>)
    ensures
        match spec_hg_pattern(pattern@, file_path@, *syntax) {
            Ok(text) => r matches Ok(f) && f.regex.source() == text,
            Err(e) => r matches Err(m) && m@ == e,
        },
{
    let converted = match syntax {
        Syntax::Glob => convert_hgignore_glob(pattern, file_path, false),
        Syntax::RootGlob => convert_hgignore_glob(pattern, file_path, true),
        Syntax::Regexp => convert_hgignore_regexp(pattern, file_path),
    };
    match converted {
        Ok(regex) => Ok(HgignoreFilter { regex }),
        Err(e) => Err(e),
    }
}

/// The texts of the filters' expressions.
pub open spec fn hg_filters_view(v: Seq<HgignoreFilter>) -> Seq<Seq<char>> {
    Seq::new(v.len(), |i: int| v[i].regex.source())
}

/// Whether any filter matches the path (`spec_hg_ignored`).
pub fn matches_hgignore_filter(hgignore_filters: &[HgignoreFilter], file_name: &str) -> (r: bool)
    ensures
        r == spec_hg_ignored(hg_filters_view(hgignore_filters@), file_name@),
{
    let ghost fs = hg_filters_view(hgignore_filters@);
    let mut i: usize = 0;
    while i < hgignore_filters.len()
        invariant
            fs == hg_filters_view(hgignore_filters@),
            i <= hgignore_filters@.len(),
            forall|j: int| 0 <= j < i ==> !regex_matches(#[trigger] fs[j], file_name@),
        decreases hgignore_filters@.len() - i,
    {
        assert(fs[i as int] == hgignore_filters@[i as int].regex.source());
        if hgignore_filters[i].regex.is_match(file_name) {
            return true;
        }
        i = i + 1;
    }
    false
}

/// What a reader of `.hgignore` lines asks for after a line.
pub enum HgStep {
    /// Go on with the next line.
    Next,
    /// Warn that a `syntax:` line names no known syntax (the text is given);
    /// the previous syntax stays in effect.
    UnknownSyntax(String),
    /// Read the file that a `subinclude:` line names (the text is given), and
    /// hand its result to `include_result`.
    Include(String),
}

/// Reads the lines of one `.hgignore` in turn: keeps the syntax in effect,
/// the filters gathered, and the first error, after which lines are passed
/// over.
pub struct HgignoreReader {
    syntax: Syntax,
    filters: Vec<HgignoreFilter>,
    err: String,
}

impl HgignoreReader {
    /// The syntax in effect.
    pub closed spec fn syntax(&self) -> Syntax {
        self.syntax
    }

    /// The expressions of the filters gathered, in order.
    pub closed spec fn filters(&self) -> Seq<Seq<char>> {
        hg_filters_view(self.filters@)
    }

    /// The error met, empty while there is none.
    pub closed spec fn err(&self) -> Seq<char> {
        self.err@
    }

    /// A reader before the first line: regular expressions, no filters, no
    /// error.
    pub fn new() -> (r: HgignoreReader)
        ensures
            r.syntax() == Syntax::Regexp,
            r.filters() == Seq::<Seq<char>>::empty(),
            r.err() == Seq::<char>::empty(),
    {
        let r = HgignoreReader { syntax: Syntax::Regexp, filters: Vec::new(), err: String::new() };
        assert(r.filters() =~= Seq::<Seq<char>>::empty());
        r
    }

    /// Reads one line of the file in directory `dir_path`: a `syntax:` line
    /// changes the syntax, a pattern adds its filter or sets the error, a
    /// `subinclude:` line asks for the file it names. Once there is an
    /// error, lines change nothing.
    pub fn read_line(&mut self, raw: &str, dir_path: &str) -> (r: HgStep)
        ensures
            old(self).err().len() > 0 ==> *final(self) == *old(self) && r is Next,
            old(self).err().len() == 0 ==> ({
                let (kind, text) = spec_hg_line(raw@);
                if kind == 1 {
                    match spec_syntax_from(text) {
                        Some(s) => r is Next && final(self).syntax() == s && final(self).filters()
                            == old(self).filters() && final(self).err() == old(self).err(),
                        None => (r matches HgStep::UnknownSyntax(t) && t@ == text) && *final(self)
                            == *old(self),
                    }
                } else if kind == 2 {
                    (r matches HgStep::Include(t) && t@ == text) && *final(self) == *old(self)
                } else if kind == 3 {
                    r is Next && final(self).syntax() == old(self).syntax() && match spec_hg_pattern(
                        text,
                        dir_path@,
                        old(self).syntax(),
                    ) {
                        Ok(f) => final(self).filters() == old(self).filters().push(f)
                            && final(self).err() == old(self).err(),
                        Err(e) => final(self).filters() == old(self).filters() && final(self).err()
                            == e,
                    }
                } else {
                    r is Next && *final(self) == *old(self)
                }
            }),
    {
        if self.err.unicode_len() > 0 {
            return HgStep::Next;
        }
        match hg_line(raw) {
            HgLine::Blank => HgStep::Next,
            HgLine::SyntaxDirective(Some(s), _) => {
                self.syntax = s;
                HgStep::Next
            },
            HgLine::SyntaxDirective(None, t) => HgStep::UnknownSyntax(t),
            HgLine::SubInclude(t) => HgStep::Include(t),
            HgLine::Pattern(p) => {
                match convert_hgignore_pattern(p.as_str(), dir_path, &self.syntax) {
                    Ok(f) => {
                        let ghost before = self.filters@;
                        self.filters.push(f);
                        assert(hg_filters_view(self.filters@) =~= hg_filters_view(before).push(
                            f.regex.source(),
                        ));
                    },
                    Err(e) => {
                        self.err = e;
                    },
                }
                HgStep::Next
            },
        }
    }

    /// Takes in what reading a subincluded file gave: its filters follow
    /// those gathered so far, or its error becomes the reader's.
    pub fn include_result(&mut self, included: Result<Vec<HgignoreFilter>, String>)
        ensures
            final(self).syntax() == old(self).syntax(),
            match included {
                Ok(v) => final(self).filters() == old(self).filters() + hg_filters_view(v@)
                    && final(self).err() == old(self).err(),
                Err(e) => final(self).filters() == old(self).filters() && final(self).err() == e@,
            },
    {
        match included {
            Ok(v) => {
                let ghost before = self.filters@;
                let mut v = v;
                self.filters.append(&mut v);
                assert(hg_filters_view(self.filters@) =~= hg_filters_view(before) + hg_filters_view(
                    included->Ok_0@,
                ));
            },
            Err(e) => {
                self.err = e;
            },
        }
    }

    /// The filters of the file, or its error.
    pub fn finish(self) -> (r: Result<Vec<HgignoreFilter>, String>)
        ensures
            self.err().len() == 0 ==> (r matches Ok(v) && hg_filters_view(v@) == self.filters()),
            self.err().len() > 0 ==> (r matches Err(e) && e@ == self.err()),
    {
        if self.err.unicode_len() == 0 {
            Ok(self.filters)
        } else {
            Err(self.err)
        }
    }
}

} // verus!
