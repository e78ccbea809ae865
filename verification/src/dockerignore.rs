//! `.dockerignore` patterns. Each pattern is anchored at the directory of
//! its file and becomes one regular expression; of the patterns that match
//! a path, the last one decides, and a negated one re-includes the path.

use vstd::prelude::*;

use crate::gitignore::{skip_separators, strip_separators};
use crate::pattern::{escape, regex_compiles, regex_matches, spec_regex_escape, Pattern};
use crate::strings::{
    has_prefix, push_char, push_str, spec_trim, spec_trim_start, starts_with, str_to_string,
    substring, trim, trim_start, words,
};

verus! {

/// A compiled `.dockerignore` pattern and whether it re-includes what it
/// matches.
pub struct DockerignoreFilter {
    pub regex: Pattern,
    pub negate: bool,
}

impl DockerignoreFilter {
    pub fn new(regex: Pattern, negate: bool) -> (r: DockerignoreFilter)
        ensures
            r == (DockerignoreFilter { regex, negate }),
    {
        DockerignoreFilter { regex, negate }
    }
}

/// A filter as its expression's text and its flag.
pub open spec fn docker_filter_view(f: DockerignoreFilter) -> (Seq<char>, bool) {
    (f.regex.source(), f.negate)
}

pub open spec fn docker_filters_view(v: Seq<DockerignoreFilter>) -> Seq<(Seq<char>, bool)> {
    Seq::new(v.len(), |i: int| docker_filter_view(v[i]))
}

/// Where the character class that opens before position `j` closes: the
/// first `]` from `j` on, a backslash escaping the character after it.
pub open spec fn class_end(s: Seq<char>, j: int) -> Option<int>
    decreases s.len() - j,
{
    if j < 0 || j >= s.len() {
        None
    } else if s[j] == ']' {
        Some(j)
    } else if s[j] == '\\' {
        if j + 2 >= s.len() {
            None
        } else {
            class_end(s, j + 2)
        }
    } else {
        class_end(s, j + 1)
    }
}

/// A class that closes does so at a `]` at or after where the search starts.
pub proof fn lemma_class_end_range(s: Seq<char>, j: int)
    ensures
        class_end(s, j) matches Some(e) ==> j <= e < s.len() && s[e] == ']',
    decreases s.len() - j,
{
    if 0 <= j < s.len() && s[j] != ']' {
        if s[j] == '\\' {
            if j + 2 < s.len() {
                lemma_class_end_range(s, j + 2);
            }
        } else {
            lemma_class_end_range(s, j + 1);
        }
    }
}

/// Characters that stand for themselves only when escaped.
pub open spec fn docker_escaped(c: char) -> bool {
    c == '.' || c == ']' || c == '(' || c == ')' || c == '^' || c == '$' || c == '+' || c == '{'
        || c == '}' || c == '|' || c == '\\'
}

/// A glob as an expression, read from the left: `**/` any leading
/// directories, `**` any text, `*` and `?` within one level, a closed
/// character class as it is, an unclosed `[` and the other meta characters
/// escaped.
pub open spec fn docker_glob_regex(s: Seq<char>) -> Seq<char>
    decreases s.len(),
{
    if s.len() == 0 {
        Seq::empty()
    } else if s[0] == '*' && s.len() >= 2 && s[1] == '*' {
        if s.len() >= 3 && s[2] == '/' {
            seq!['(', '?', ':', '.', '*', '/', ')', '?'] + docker_glob_regex(s.skip(3))
        } else {
            seq!['.', '*'] + docker_glob_regex(s.skip(2))
        }
    } else if s[0] == '*' {
        seq!['[', '^', '/', ']', '*'] + docker_glob_regex(s.skip(1))
    } else if s[0] == '?' {
        seq!['[', '^', '/', ']'] + docker_glob_regex(s.skip(1))
    } else if s[0] == '[' {
        match class_end(s, 1) {
            Some(e) => {
                proof {
                    lemma_class_end_range(s, 1);
                }
                s.take(e + 1) + docker_glob_regex(s.skip(e + 1))
            },
            None => seq!['\\', '['] + docker_glob_regex(s.skip(1)),
        }
    } else if docker_escaped(s[0]) {
        seq!['\\', s[0]] + docker_glob_regex(s.skip(1))
    } else {
        seq![s[0]] + docker_glob_regex(s.skip(1))
    }
}

/// The text without its trailing slashes.
pub open spec fn skip_trailing_slashes(s: Seq<char>) -> Seq<char>
    decreases s.len(),
{
    if s.len() > 0 && s.last() == '/' {
        skip_trailing_slashes(s.drop_last())
    } else {
        s
    }
}

/// The expression for a glob of the `.dockerignore` in `dir`, anchored at
/// the directory and covering everything below a match.
pub open spec fn dockerignore_regex_text(body: Seq<char>, dir: Seq<char>) -> Seq<char> {
    seq!['^'] + spec_regex_escape(dir) + seq!['/'] + docker_glob_regex(body) + "(?:/.*)?$"@
}

/// What a glob becomes: the text of its compiled expression, or the error.
pub open spec fn spec_docker_glob(glob: Seq<char>, dir: Seq<char>) -> Result<Seq<char>, Seq<char>> {
    let body = skip_trailing_slashes(skip_separators(glob));
    if body.len() == 0 {
        Err("Error parsing .dockerignore pattern: "@ + glob)
    } else {
        let text = dockerignore_regex_text(body, dir);
        if regex_compiles(text) {
            Ok(text)
        } else {
            Err("Error creating regex pattern: "@ + text)
        }
    }
}

/// Whether a pattern re-includes what it matches.
pub open spec fn docker_negated(p: Seq<char>) -> bool {
    p.len() > 0 && p[0] == '!'
}

/// The glob of a pattern: after a `!` and the white space that follows it.
pub open spec fn docker_glob_of(p: Seq<char>) -> Seq<char> {
    if docker_negated(p) {
        spec_trim_start(p.skip(1))
    } else {
        p
    }
}

/// What a pattern becomes: its filter, or the error.
pub open spec fn spec_docker_pattern(p: Seq<char>, dir: Seq<char>) -> Result<(Seq<char>, bool), Seq<char>> {
    match spec_docker_glob(docker_glob_of(p), dir) {
        Ok(text) => Ok((text, docker_negated(p))),
        Err(_) => Err("Error creating regex while parsing .dockerignore glob: "@ + docker_glob_of(p)),
    }
}

/// A path with backslashes turned into slashes.
pub open spec fn slashes_only(s: Seq<char>) -> Seq<char>
    decreases s.len(),
{
    if s.len() == 0 {
        Seq::empty()
    } else {
        slashes_only(s.drop_last()).push(
            if s.last() == '\\' {
                '/'
            } else {
                s.last()
            },
        )
    }
}

/// A path with each `//`, read from the left, made one slash.
pub open spec fn single_slashes(s: Seq<char>) -> Seq<char>
    decreases s.len(),
{
    if s.len() == 0 {
        Seq::empty()
    } else if s.len() >= 2 && s[0] == '/' && s[1] == '/' {
        seq!['/'] + single_slashes(s.skip(2))
    } else {
        seq![s[0]] + single_slashes(s.skip(1))
    }
}

/// Whether the filters exclude a path: the last filter that matches decides,
/// and no match leaves the path in.
pub open spec fn spec_docker_excluded(fs: Seq<(Seq<char>, bool)>, name: Seq<char>) -> bool
    decreases fs.len(),
{
    if fs.len() == 0 {
        false
    } else if regex_matches(fs.last().0, name) {
        !fs.last().1
    } else {
        spec_docker_excluded(fs.drop_last(), name)
    }
}

/// A line without the byte order marks it starts with.
pub open spec fn skip_marks(s: Seq<char>) -> Seq<char>
    decreases s.len(),
{
    if s.len() > 0 && s[0] == '\u{feff}' {
        skip_marks(s.skip(1))
    } else {
        s
    }
}

/// The filters of the lines of a `.dockerignore`, `first` telling whether
/// the lines start the file: blank lines and comments are skipped, and the
/// first pattern that fails makes the error.
pub open spec fn spec_docker_lines(lines: Seq<Seq<char>>, dir: Seq<char>, first: bool) -> Result<
    Seq<(Seq<char>, bool)>,
    Seq<char>,
>
    decreases lines.len(),
{
    if lines.len() == 0 {
        Ok(Seq::empty())
    } else {
        let l = spec_trim(
            if first {
                skip_marks(lines[0])
            } else {
                lines[0]
            },
        );
        if l.len() == 0 || has_prefix(l, seq!['#']) {
            spec_docker_lines(lines.drop_first(), dir, false)
        } else {
            match spec_docker_pattern(l, dir) {
                Ok(f) => match spec_docker_lines(lines.drop_first(), dir, false) {
                    Ok(fs) => Ok(seq![f] + fs),
                    Err(e) => Err(e),
                },
                Err(e) => Err(e),
            }
        }
    }
}

/// Where the character class that opens at position `i` closes
/// (`class_end` over the text from `i`, searched from the next character).
fn find_char_class_end(s: &str, i: usize) -> (r: Option<usize>)
    requires
        i < s@.len(),
    ensures
        match class_end(s@.skip(i as int), 1) {
            Some(e) => r matches Some(x) && x == i + e,
            None => r is None,
        },
{
    let n = s.unicode_len();
    let ghost t = s@.skip(i as int);
    let mut j = i + 1;
    while j < n
        invariant
            n == s@.len(),
            t == s@.skip(i as int),
            i < n,
            i + 1 <= j,
            class_end(t, 1) == class_end(t, j - i),
        decreases n - j,
    {
        let d = s.get_char(j);
        assert(t[j - i] == d);
        if d == ']' {
            return Some(j);
        }
        if d == '\\' {
            if n - j <= 2 {
                return None;
            }
            j = j + 2;
        } else {
            j = j + 1;
        }
    }
    None
}

/// The glob as an expression (`docker_glob_regex`).
fn docker_glob_to_regex(glob: &str) -> (r: String)
    ensures
        r@ == docker_glob_regex(glob@),
{
    let ghost g = glob@;
    let n = glob.unicode_len();
    let mut out = String::new();
    let mut i: usize = 0;
    assert(g.skip(0) =~= g);
    while i < n
        invariant
            n == g.len(),
            g == glob@,
            i <= n,
            out@ + docker_glob_regex(g.skip(i as int)) == docker_glob_regex(g),
        decreases n - i,
    {
        let c = glob.get_char(i);
        let ghost rest = g.skip(i as int);
        let ghost before = out@;
        assert(rest[0] == c);
        if c == '*' && i + 1 < n && glob.get_char(i + 1) == '*' {
            if i + 2 < n && glob.get_char(i + 2) == '/' {
                proof {
                    reveal_strlit("(?:.*/)?");
                    assert("(?:.*/)?"@ =~= seq!['(', '?', ':', '.', '*', '/', ')', '?']);
                    assert(rest.skip(3) =~= g.skip(i + 3));
                }
                push_str(&mut out, "(?:.*/)?");
                proof {
                    assert(out@ + docker_glob_regex(g.skip(i + 3)) =~= before + docker_glob_regex(rest));
                }
                i = i + 3;
            } else {
                proof {
                    reveal_strlit(".*");
                    assert(".*"@ =~= seq!['.', '*']);
                    assert(rest.skip(2) =~= g.skip(i + 2));
                }
                push_str(&mut out, ".*");
                proof {
                    assert(out@ + docker_glob_regex(g.skip(i + 2)) =~= before + docker_glob_regex(rest));
                }
                i = i + 2;
            }
        } else if c == '[' {
            let end = find_char_class_end(glob, i);
            proof {
                lemma_class_end_range(rest, 1);
            }
            match end {
                Some(e) => {
                    let class = substring(glob, i, e + 1);
                    push_str(&mut out, class.as_str());
                    proof {
                        assert(class_end(rest, 1) == Some(e - i));
                        assert(class@ =~= rest.take(e - i + 1));
                        assert(rest.skip(e - i + 1) =~= g.skip(e + 1));
                        assert(out@ + docker_glob_regex(g.skip(e + 1)) =~= before + docker_glob_regex(rest));
                    }
                    i = e + 1;
                },
                None => {
                    proof {
                        reveal_strlit("\\[");
                        assert("\\["@ =~= seq!['\\', '[']);
                        assert(class_end(rest, 1) is None);
                        assert(rest.skip(1) =~= g.skip(i + 1));
                    }
                    push_str(&mut out, "\\[");
                    proof {
                        assert(out@ + docker_glob_regex(g.skip(i + 1)) =~= before + docker_glob_regex(rest));
                    }
                    i = i + 1;
                },
            }
        } else {
            if c == '*' {
                proof {
                    reveal_strlit("[^/]*");
                    assert("[^/]*"@ =~= seq!['[', '^', '/', ']', '*']);
                }
                push_str(&mut out, "[^/]*");
            } else if c == '?' {
                proof {
                    reveal_strlit("[^/]");
                    assert("[^/]"@ =~= seq!['[', '^', '/', ']']);
                }
                push_str(&mut out, "[^/]");
            } else if c == '.' || c == ']' || c == '(' || c == ')' || c == '^' || c == '$' || c == '+'
                || c == '{' || c == '}' || c == '|' || c == '\\' {
                push_char(&mut out, '\\');
                push_char(&mut out, c);
                assert(before.push('\\').push(c) =~= before + seq!['\\', c]);
            } else {
                push_char(&mut out, c);
                assert(before.push(c) =~= before + seq![c]);
            }
            proof {
                assert(rest.skip(1) =~= g.skip(i + 1));
                assert(out@ + docker_glob_regex(g.skip(i + 1)) =~= before + docker_glob_regex(rest));
            }
            i = i + 1;
        }
    }
    proof {
        assert(g.skip(n as int) =~= Seq::<char>::empty());
        assert(out@ + Seq::<char>::empty() =~= out@);
    }
    out
}

/// The text without its trailing slashes.
fn strip_trailing_slashes(s: &str) -> (r: String)
    ensures
        r@ == skip_trailing_slashes(s@),
{
    let n = s.unicode_len();
    let mut j: usize = n;
    assert(s@.take(n as int) =~= s@);
    while j > 0 && s.get_char(j - 1) == '/'
        invariant
            n == s@.len(),
            j <= n,
            skip_trailing_slashes(s@.take(j as int)) == skip_trailing_slashes(s@),
        decreases j,
    {
        assert(s@.take(j as int).drop_last() =~= s@.take(j - 1));
        j = j - 1;
    }
    let r = substring(s, 0, j);
    assert(s@.subrange(0, j as int) =~= s@.take(j as int));
    r
}

/// The expression for a glob of the `.dockerignore` in `file_path`,
/// compiled (`spec_docker_glob`).
pub fn convert_dockerignore_glob(glob: &str, file_path: &str) -> (r: Result<Pattern, String>)
    ensures
        match spec_docker_glob(glob@, file_path@) {
            Ok(text) => r matches Ok(p) && p.source() == text,
            Err(e) => r matches Err(m) && m@ == e,
        },
{
    let leading = strip_separators(glob);
    let body = strip_trailing_slashes(leading.as_str());
    if body.unicode_len() == 0 {
        let mut msg = str_to_string("Error parsing .dockerignore pattern: ");
        push_str(&mut msg, glob);
        return Err(msg);
    }
    let mut text = str_to_string("^");
    proof {
        reveal_strlit("^");
        reveal_strlit("/");
        assert("^"@ =~= seq!['^']);
        assert("/"@ =~= seq!['/']);
    }
    let escaped = escape(file_path);
    push_str(&mut text, escaped.as_str());
    push_str(&mut text, "/");
    let translated = docker_glob_to_regex(body.as_str());
    push_str(&mut text, translated.as_str());
    push_str(&mut text, "(?:/.*)?$");
    proof {
        assert(text@ =~= dockerignore_regex_text(body@, file_path@));
    }
    match Pattern::new(text.as_str()) {
        Some(p) => Ok(p),
        None => {
            let mut msg = str_to_string("Error creating regex pattern: ");
            push_str(&mut msg, text.as_str());
            Err(msg)
        },
    }
}

/// The filter of one `.dockerignore` pattern (`spec_docker_pattern`).
pub fn convert_dockerignore_pattern(pattern: &str, file_path: &str) -> (r: Result<DockerignoreFilter, String>)
    ensures
        match spec_docker_pattern(pattern@, file_path@) {
            Ok(f) => r matches Ok(filter) && docker_filter_view(filter) == f,
            Err(e) => r matches Err(m) && m@ == e,
        },
{
    let negate = starts_with(pattern, "!");
    proof {
        reveal_strlit("!");
        if pattern@.len() > 0 && pattern@[0] == '!' {
            assert(pattern@.take(1) =~= "!"@);
        }
        if negate {
            assert(pattern@.take(1)[0] == pattern@[0]);
        }
        assert(negate == docker_negated(pattern@));
    }
    let glob = if negate {
        let rest = substring(pattern, 1, pattern.unicode_len());
        assert(rest@ =~= pattern@.skip(1));
        trim_start(rest.as_str())
    } else {
        str_to_string(pattern)
    };
    match convert_dockerignore_glob(glob.as_str(), file_path) {
        Ok(regex) => Ok(DockerignoreFilter { regex, negate }),
        Err(_) => {
            let mut msg = str_to_string("Error creating regex while parsing .dockerignore glob: ");
            push_str(&mut msg, glob.as_str());
            Err(msg)
        },
    }
}

/// The path with backslashes turned into slashes, then each `//` made one
/// slash.
fn normalize_separators(s: &str) -> (r: String)
    ensures
        r@ == single_slashes(slashes_only(s@)),
{
    let n = s.unicode_len();
    let mut slashed = String::new();
    let mut i: usize = 0;
    while i < n
        invariant
            n == s@.len(),
            i <= n,
            slashed@ == slashes_only(s@.take(i as int)),
        decreases n - i,
    {
        let c = s.get_char(i);
        assert(s@.take(i + 1).drop_last() =~= s@.take(i as int));
        push_char(
            &mut slashed,
            if c == '\\' {
                '/'
            } else {
                c
            },
        );
        i = i + 1;
    }
    assert(s@.take(n as int) =~= s@);
    let ghost t = slashed@;
    let m = slashed.unicode_len();
    let mut out = String::new();
    let mut k: usize = 0;
    assert(t.skip(0) =~= t);
    while k < m
        invariant
            m == t.len(),
            t == slashed@,
            k <= m,
            out@ + single_slashes(t.skip(k as int)) == single_slashes(t),
        decreases m - k,
    {
        let ghost rest = t.skip(k as int);
        let ghost before = out@;
        let c = slashed.as_str().get_char(k);
        if c == '/' && k + 1 < m && slashed.as_str().get_char(k + 1) == '/' {
            push_char(&mut out, '/');
            proof {
                assert(rest.skip(2) =~= t.skip(k + 2));
                assert(before.push('/') =~= before + seq!['/']);
                assert(out@ + single_slashes(t.skip(k + 2)) =~= before + single_slashes(rest));
            }
            k = k + 2;
        } else {
            push_char(&mut out, c);
            proof {
                assert(rest.skip(1) =~= t.skip(k + 1));
                assert(before.push(c) =~= before + seq![c]);
                assert(out@ + single_slashes(t.skip(k + 1)) =~= before + single_slashes(rest));
            }
            k = k + 1;
        }
    }
    proof {
        assert(t.skip(m as int) =~= Seq::<char>::empty());
        assert(out@ + Seq::<char>::empty() =~= out@);
    }
    out
}

/// Whether the filters exclude a path (`spec_docker_excluded`, over the
/// path with its separators normalized).
pub fn matches_dockerignore_filter(dockerignore_filters: &Vec<DockerignoreFilter>, file_name: &str) -> (r: bool)
    ensures
        r == spec_docker_excluded(
            docker_filters_view(dockerignore_filters@),
            single_slashes(slashes_only(file_name@)),
        ),
{
    let name = normalize_separators(file_name);
    let ghost fs = docker_filters_view(dockerignore_filters@);
    let mut matched = false;
    let mut i: usize = 0;
    while i < dockerignore_filters.len()
        invariant
            fs == docker_filters_view(dockerignore_filters@),
            i <= dockerignore_filters@.len(),
            matched == spec_docker_excluded(fs.take(i as int), name@),
        decreases dockerignore_filters@.len() - i,
    {
        let filter = &dockerignore_filters[i];
        assert(fs.take(i + 1).drop_last() =~= fs.take(i as int));
        assert(fs.take(i + 1).last() == docker_filter_view(*filter));
        if filter.regex.is_match(name.as_str()) {
            matched = !filter.negate;
        }
        i = i + 1;
    }
    assert(fs.take(dockerignore_filters@.len() as int) =~= fs);
    matched
}

/// The line without the byte order marks it starts with.
fn strip_marks(s: &str) -> (r: String)
    ensures
        r@ == skip_marks(s@),
{
    let n = s.unicode_len();
    let mut i: usize = 0;
    assert(s@.skip(0) =~= s@);
    while i < n && s.get_char(i) == '\u{feff}'
        invariant
            n == s@.len(),
            i <= n,
            skip_marks(s@.skip(i as int)) == skip_marks(s@),
        decreases n - i,
    {
        assert(s@.skip(i as int).skip(1) =~= s@.skip(i + 1));
        i = i + 1;
    }
    let r = substring(s, i, n);
    assert(s@.subrange(i as int, n as int) =~= s@.skip(i as int));
    r
}

/// The filters of the lines of a `.dockerignore` in `dir_path`
/// (`spec_docker_lines`), or the error of the first pattern that fails.
pub fn dockerignore_filters_from_lines(lines: &Vec<String>, dir_path: &str) -> (r: Result<
    Vec<DockerignoreFilter>,
    String,
>)
    ensures
        match spec_docker_lines(words(lines@), dir_path@, true) {
            Ok(fs) => r matches Ok(v) && docker_filters_view(v@) == fs,
            Err(e) => r matches Err(m) && m@ == e,
        },
{
    let mut result: Vec<DockerignoreFilter> = Vec::new();
    let mut i: usize = 0;
    let ghost all = words(lines@);
    assert(all.skip(0) =~= all);
    while i < lines.len()
        invariant
            all == words(lines@),
            i <= lines@.len(),
            spec_docker_lines(all, dir_path@, true) == match spec_docker_lines(
                all.skip(i as int),
                dir_path@,
                i == 0,
            ) {
                Ok(fs) => Ok(docker_filters_view(result@) + fs),
                Err(e) => Err(e),
            },
        decreases lines@.len() - i,
    {
        let ghost rest = all.skip(i as int);
        assert(rest[0] == lines@[i as int]@);
        assert(rest.drop_first() =~= all.skip(i + 1));
        let raw = lines[i].as_str();
        let unmarked = if i == 0 {
            strip_marks(raw)
        } else {
            str_to_string(raw)
        };
        let line = trim(unmarked.as_str());
        proof {
            reveal_strlit("#");
            assert("#"@ =~= seq!['#']);
        }
        if line.unicode_len() == 0 || starts_with(line.as_str(), "#") {
            i = i + 1;
            continue;
        }
        match convert_dockerignore_pattern(line.as_str(), dir_path) {
            Ok(filter) => {
                let ghost before = result@;
                result.push(filter);
                proof {
                    assert(docker_filters_view(result@) =~= docker_filters_view(before).push(
                        docker_filter_view(filter),
                    ));
                    match spec_docker_lines(all.skip(i + 1), dir_path@, false) {
                        Ok(fs) => {
                            assert(docker_filters_view(before) + (seq![docker_filter_view(filter)]
                                + fs) =~= docker_filters_view(result@) + fs);
                        },
                        Err(_) => {},
                    }
                }
            },
            Err(e) => {
                return Err(e);
            },
        }
        i = i + 1;
    }
    proof {
        assert(all.skip(lines@.len() as int) =~= Seq::<Seq<char>>::empty());
        assert(docker_filters_view(result@) + Seq::<(Seq<char>, bool)>::empty() =~= docker_filters_view(
            result@,
        ));
    }
    Ok(result)
}

} // verus!
