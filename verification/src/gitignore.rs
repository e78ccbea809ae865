//! `.gitignore` patterns. Each pattern becomes regular expressions over
//! full paths below the directory of its file; a file is ignored when an
//! applicable expression matches it and no negated one does.

use vstd::prelude::*;

use crate::pattern::{regex_compiles, regex_matches, Pattern};
use crate::strings::{
    contains_str, has_infix, has_prefix, push_char, push_str, spec_trim, starts_with, str_to_string,
    substring, trim, words,
};

verus! {

/// A compiled `.gitignore` pattern: the expression, whether it applies to
/// directories only, and whether it re-includes what it matches.
pub struct GitignoreFilter {
    pub regex: Pattern,
    pub only_dir: bool,
    pub negate: bool,
}

impl GitignoreFilter {
    pub fn new(regex: Pattern, only_dir: bool, negate: bool) -> (r: GitignoreFilter)
        ensures
            r == (GitignoreFilter { regex, only_dir, negate }),
    {
        GitignoreFilter { regex, only_dir, negate }
    }
}

/// A filter as its expression's text and its two flags.
pub open spec fn git_filter_view(f: GitignoreFilter) -> (Seq<char>, bool, bool) {
    (f.regex.source(), f.only_dir, f.negate)
}

pub open spec fn git_filters_view(v: Seq<GitignoreFilter>) -> Seq<(Seq<char>, bool, bool)> {
    Seq::new(v.len(), |i: int| git_filter_view(v[i]))
}

/// The expression text for one character of a glob: `?` and `*` stay
/// within a directory level, `.` is a literal dot.
pub open spec fn git_glob_char(c: char) -> Seq<char> {
    if c == '?' {
        seq!['[', '^', '/', ']', '+']
    } else if c == '.' {
        seq!['\\', '.']
    } else if c == '*' {
        seq!['[', '^', '/', ']', '*']
    } else {
        seq![c]
    }
}

/// A glob as an expression, read from the left: `**` is any text, every
/// other character as `git_glob_char` gives it.
pub open spec fn git_glob_regex(g: Seq<char>) -> Seq<char>
    decreases g.len(),
{
    if g.len() == 0 {
        Seq::empty()
    } else if g.len() >= 2 && g[0] == '*' && g[1] == '*' {
        seq!['.', '*'] + git_glob_regex(g.skip(2))
    } else {
        git_glob_char(g[0]) + git_glob_regex(g.skip(1))
    }
}

/// The text without its leading slashes and backslashes.
pub open spec fn skip_separators(s: Seq<char>) -> Seq<char>
    decreases s.len(),
{
    if s.len() > 0 && (s[0] == '/' || s[0] == '\\') {
        skip_separators(s.skip(1))
    } else {
        s
    }
}

/// The text with every backslash doubled.
pub open spec fn double_backslashes(s: Seq<char>) -> Seq<char>
    decreases s.len(),
{
    if s.len() == 0 {
        Seq::empty()
    } else if s.last() == '\\' {
        double_backslashes(s.drop_last()).push('\\').push('\\')
    } else {
        double_backslashes(s.drop_last()).push(s.last())
    }
}

/// `/([^/]+/)*`: a slash and then any number of directory levels.
pub open spec fn any_levels() -> Seq<char> {
    seq!['/', '(', '[', '^', '/', ']', '+', '/', ')', '*']
}

/// The expression for a glob of the `.gitignore` in `dir`: the directory,
/// any levels below it, then the glob without leading separators.
pub open spec fn gitignore_regex_text(glob: Seq<char>, dir: Seq<char>) -> Seq<char> {
    double_backslashes(dir) + any_levels() + skip_separators(git_glob_regex(glob))
}

/// The text without any `!`.
pub open spec fn without_bangs(s: Seq<char>) -> Seq<char>
    decreases s.len(),
{
    if s.len() == 0 {
        Seq::empty()
    } else if s.last() == '!' {
        without_bangs(s.drop_last())
    } else {
        without_bangs(s.drop_last()).push(s.last())
    }
}

/// Whether a pattern re-includes what it matches (it starts with `!`).
pub open spec fn git_negated(p: Seq<char>) -> bool {
    p.len() > 0 && p[0] == '!'
}

/// The expressions a pattern stands for, each with whether it applies to
/// directories only: a pattern ending in `/` matches the directory and
/// everything below it; a negated pattern loses its `!`s.
pub open spec fn git_candidates(p: Seq<char>, dir: Seq<char>) -> Seq<(Seq<char>, bool)> {
    let body = if git_negated(p) {
        without_bangs(p)
    } else {
        p
    };
    if body.len() > 0 && body.last() == '/' {
        let d = body.drop_last();
        seq![
            (gitignore_regex_text(d, dir), true),
            (gitignore_regex_text(d + seq!['/', '*', '*'], dir), false),
        ]
    } else {
        seq![(gitignore_regex_text(body, dir), false)]
    }
}

/// The candidates whose expressions compile, with the negation flag.
pub open spec fn compiled(c: Seq<(Seq<char>, bool)>, negate: bool) -> Seq<(Seq<char>, bool, bool)>
    decreases c.len(),
{
    if c.len() == 0 {
        Seq::empty()
    } else {
        let rest = compiled(c.drop_last(), negate);
        if regex_compiles(c.last().0) {
            rest.push((c.last().0, c.last().1, negate))
        } else {
            rest
        }
    }
}

proof fn lemma_compiled_push(c: Seq<(Seq<char>, bool)>, x: (Seq<char>, bool), negate: bool)
    ensures
        compiled(c.push(x), negate) == if regex_compiles(x.0) {
            compiled(c, negate).push((x.0, x.1, negate))
        } else {
            compiled(c, negate)
        },
{
    assert(c.push(x).drop_last() =~= c);
}

/// The filters of one `.gitignore` pattern.
pub open spec fn spec_git_pattern(p: Seq<char>, dir: Seq<char>) -> Seq<(Seq<char>, bool, bool)> {
    compiled(git_candidates(p, dir), git_negated(p))
}

/// Whether a filter applies to a file or directory and its expression
/// matches the name.
pub open spec fn git_hits(f: (Seq<char>, bool, bool), name: Seq<char>, is_dir: bool) -> bool {
    (!f.1 || is_dir) && regex_matches(f.0, name)
}

/// A name is ignored when a filter that does not negate hits it and no
/// negating filter does.
pub open spec fn spec_git_ignored(fs: Seq<(Seq<char>, bool, bool)>, name: Seq<char>, is_dir: bool) -> bool {
    &&& !exists|i: int| 0 <= i < fs.len() && git_hits(fs[i], name, is_dir) && fs[i].2
    &&& exists|i: int| 0 <= i < fs.len() && git_hits(fs[i], name, is_dir) && !fs[i].2
}

/// Whether a line of a `.gitignore` holds a pattern: it is not blank and is
/// no comment.
pub open spec fn git_pattern_line(l: Seq<char>) -> bool {
    spec_trim(l).len() > 0 && !has_prefix(l, seq!['#'])
}

/// The filters of the lines of a `.gitignore`, in order.
pub open spec fn spec_git_lines(lines: Seq<Seq<char>>, dir: Seq<char>) -> Seq<(Seq<char>, bool, bool)>
    decreases lines.len(),
{
    if lines.len() == 0 {
        Seq::empty()
    } else {
        let rest = spec_git_lines(lines.drop_last(), dir);
        if git_pattern_line(lines.last()) {
            rest + spec_git_pattern(lines.last(), dir)
        } else {
            rest
        }
    }
}

/// The glob as an expression (`git_glob_regex`).
fn glob_to_regex(glob: &str) -> (r: String)
    ensures
        r@ == git_glob_regex(glob@),
{
    let ghost g = glob@;
    let n = glob.unicode_len();
    let mut out = String::new();
    let mut i: usize = 0;
    assert(g.skip(0) =~= g);
    while i < n
        invariant
            n == g.len(),
            g == glob@,
            i <= n,
            out@ + git_glob_regex(g.skip(i as int)) == git_glob_regex(g),
        decreases n - i,
    {
        let c = glob.get_char(i);
        let ghost rest = g.skip(i as int);
        if c == '*' && i + 1 < n && glob.get_char(i + 1) == '*' {
            proof {
                reveal_strlit(".*");
                assert(rest.skip(2) =~= g.skip(i + 2));
                assert(".*"@ =~= seq!['.', '*']);
            }
            push_str(&mut out, ".*");
            proof {
                assert(out@ + git_glob_regex(g.skip(i + 2)) =~= git_glob_regex(g)) by {
                    assert(git_glob_regex(rest) == seq!['.', '*'] + git_glob_regex(g.skip(i + 2)));
                }
            }
            i = i + 2;
        } else {
            let ghost before = out@;
            if c == '?' {
                proof {
                    reveal_strlit("[^/]+");
                    assert("[^/]+"@ =~= seq!['[', '^', '/', ']', '+']);
                }
                push_str(&mut out, "[^/]+");
            } else if c == '.' {
                proof {
                    reveal_strlit("\\.");
                    assert("\\."@ =~= seq!['\\', '.']);
                }
                push_str(&mut out, "\\.");
            } else if c == '*' {
                proof {
                    reveal_strlit("[^/]*");
                    assert("[^/]*"@ =~= seq!['[', '^', '/', ']', '*']);
                }
                push_str(&mut out, "[^/]*");
            } else {
                push_char(&mut out, c);
                assert(before.push(c) =~= before + seq![c]);
            }
            proof {
                assert(rest.skip(1) =~= g.skip(i + 1));
                assert(out@ == before + git_glob_char(c));
                assert(git_glob_regex(rest) == git_glob_char(c) + git_glob_regex(g.skip(i + 1)));
                assert(out@ + git_glob_regex(g.skip(i + 1)) =~= before + git_glob_regex(rest));
            }
            i = i + 1;
        }
    }
    proof {
        assert(g.skip(n as int) =~= Seq::<char>::empty());
        assert(out@ + Seq::<char>::empty() =~= out@);
    }
    out
}

/// The text without its leading slashes and backslashes.
pub fn strip_separators(s: &str) -> (r: String)
    ensures
        r@ == skip_separators(s@),
{
    let n = s.unicode_len();
    let mut i: usize = 0;
    assert(s@.skip(0) =~= s@);
    while i < n && (s.get_char(i) == '/' || s.get_char(i) == '\\')
        invariant
            n == s@.len(),
            i <= n,
            skip_separators(s@.skip(i as int)) == skip_separators(s@),
        decreases n - i,
    {
        assert(s@.skip(i as int).skip(1) =~= s@.skip(i + 1));
        i = i + 1;
    }
    let r = substring(s, i, n);
    assert(s@.subrange(i as int, n as int) =~= s@.skip(i as int));
    r
}

/// The text with every backslash doubled.
fn with_doubled_backslashes(s: &str) -> (r: String)
    ensures
        r@ == double_backslashes(s@),
{
    let n = s.unicode_len();
    let mut out = String::new();
    let mut i: usize = 0;
    while i < n
        invariant
            n == s@.len(),
            i <= n,
            out@ == double_backslashes(s@.take(i as int)),
        decreases n - i,
    {
        let c = s.get_char(i);
        assert(s@.take(i + 1).drop_last() =~= s@.take(i as int));
        if c == '\\' {
            push_char(&mut out, '\\');
        }
        push_char(&mut out, c);
        i = i + 1;
    }
    assert(s@.take(n as int) =~= s@);
    out
}

/// The text without any `!`.
fn remove_bangs(s: &str) -> (r: String)
    ensures
        r@ == without_bangs(s@),
{
    let n = s.unicode_len();
    let mut out = String::new();
    let mut i: usize = 0;
    while i < n
        invariant
            n == s@.len(),
            i <= n,
            out@ == without_bangs(s@.take(i as int)),
        decreases n - i,
    {
        let c = s.get_char(i);
        assert(s@.take(i + 1).drop_last() =~= s@.take(i as int));
        if c != '!' {
            push_char(&mut out, c);
        }
        i = i + 1;
    }
    assert(s@.take(n as int) =~= s@);
    out
}

/// The expression for a glob of the `.gitignore` in `file_path`
/// (`gitignore_regex_text`), compiled; `None` when it does not compile.
pub fn convert_gitignore_glob(glob: &str, file_path: &str) -> (r: Option<Pattern>)
    ensures
        r is Some <==> regex_compiles(gitignore_regex_text(glob@, file_path@)),
        r matches Some(p) ==> p.source() == gitignore_regex_text(glob@, file_path@),
{
    let translated = glob_to_regex(glob);
    let stripped = strip_separators(translated.as_str());
    let mut text = with_doubled_backslashes(file_path);
    proof {
        reveal_strlit("/([^/]+/)*");
        assert("/([^/]+/)*"@ =~= any_levels());
    }
    push_str(&mut text, "/([^/]+/)*");
    push_str(&mut text, stripped.as_str());
    Pattern::new(text.as_str())
}

/// The filters of one `.gitignore` pattern (`spec_git_pattern`).
pub fn convert_gitignore_pattern(pattern: &str, file_path: &str) -> (r: Vec<GitignoreFilter>)
    ensures
        git_filters_view(r@) == spec_git_pattern(pattern@, file_path@),
{
    let mut result: Vec<GitignoreFilter> = Vec::new();
    let negate = starts_with(pattern, "!");
    proof {
        reveal_strlit("!");
        assert("!"@ =~= seq!['!']);
        if pattern@.len() > 0 && pattern@[0] == '!' {
            assert(pattern@.take(1) =~= "!"@);
        }
        if negate {
            assert(pattern@.take(1)[0] == pattern@[0]);
        }
        assert(negate == git_negated(pattern@));
    }
    let mut body = if negate {
        remove_bangs(pattern)
    } else {
        str_to_string(pattern)
    };
    let ghost cands = git_candidates(pattern@, file_path@);
    let n = body.unicode_len();
    if n > 0 && body.as_str().get_char(n - 1) == '/' {
        let dir_only = substring(body.as_str(), 0, n - 1);
        proof {
            assert(dir_only@ =~= body@.drop_last());
        }
        match convert_gitignore_glob(dir_only.as_str(), file_path) {
            Some(regex) => result.push(GitignoreFilter { regex, only_dir: true, negate }),
            None => {},
        }
        body = dir_only;
        proof {
            reveal_strlit("/**");
            assert("/**"@ =~= seq!['/', '*', '*']);
        }
        push_str(&mut body, "/**");
        let ghost first = result@;
        match convert_gitignore_glob(body.as_str(), file_path) {
            Some(regex) => result.push(GitignoreFilter { regex, only_dir: false, negate }),
            None => {},
        }
        proof {
            let e = Seq::<(Seq<char>, bool)>::empty();
            assert(seq![cands[0]] =~= e.push(cands[0]));
            assert(cands =~= e.push(cands[0]).push(cands[1]));
            lemma_compiled_push(e, cands[0], negate);
            lemma_compiled_push(e.push(cands[0]), cands[1], negate);
            assert(compiled(e, negate) =~= Seq::<(Seq<char>, bool, bool)>::empty());
            assert(git_filters_view(result@) =~= compiled(cands, negate));
        }
    } else {
        match convert_gitignore_glob(body.as_str(), file_path) {
            Some(regex) => result.push(GitignoreFilter { regex, only_dir: false, negate }),
            None => {},
        }
        proof {
            let e = Seq::<(Seq<char>, bool)>::empty();
            assert(cands =~= e.push(cands[0]));
            lemma_compiled_push(e, cands[0], negate);
            assert(compiled(e, negate) =~= Seq::<(Seq<char>, bool, bool)>::empty());
            assert(git_filters_view(result@) =~= compiled(cands, negate));
        }
    }
    result
}

/// Whether the filters ignore a file or directory of the given name
/// (`spec_git_ignored`); with no filters nothing is ignored.
pub fn matches_gitignore_filter(
    gitignore_filters: &Option<Vec<GitignoreFilter>>,
    file_name: &str,
    is_dir: bool,
) -> (r: bool)
    ensures
        r == match *gitignore_filters {
            Some(v) => spec_git_ignored(git_filters_view(v@), file_name@, is_dir),
            None => false,
        },
{
    if gitignore_filters.is_none() {
        return false;
    }
    let filters = gitignore_filters.as_ref().unwrap();
    let ghost fs = git_filters_view(filters@);
    let mut matched = false;
    let mut i: usize = 0;
    while i < filters.len()
        invariant
            *gitignore_filters == Some(*filters),
            fs == git_filters_view(filters@),
            i <= filters@.len(),
            forall|j: int| 0 <= j < i ==> !(git_hits(fs[j], file_name@, is_dir) && fs[j].2),
            matched == exists|j: int|
                0 <= j < i && git_hits(fs[j], file_name@, is_dir) && !fs[j].2,
        decreases filters@.len() - i,
    {
        let filter = &filters[i];
        assert(fs[i as int] == git_filter_view(*filter));
        if !(filter.only_dir && !is_dir) {
            let is_match = filter.regex.is_match(file_name);
            if is_match && filter.negate {
                assert(git_hits(fs[i as int], file_name@, is_dir) && fs[i as int].2);
                assert(exists|j: int|
                    0 <= j < fs.len() && git_hits(fs[j], file_name@, is_dir) && fs[j].2);
                assert(!spec_git_ignored(fs, file_name@, is_dir));
                return false;
            }
            if is_match {
                matched = true;
            }
        }
        i = i + 1;
    }
    matched
}

/// The filters of the lines of a `.gitignore` in `dir_path`
/// (`spec_git_lines`): blank lines and comments are skipped.
pub fn gitignore_filters_from_lines(lines: &Vec<String>, dir_path: &str) -> (r: Vec<GitignoreFilter>)
    ensures
        git_filters_view(r@) == spec_git_lines(words(lines@), dir_path@),
{
    let mut result: Vec<GitignoreFilter> = Vec::new();
    let mut i: usize = 0;
    while i < lines.len()
        invariant
            i <= lines@.len(),
            git_filters_view(result@) == spec_git_lines(words(lines@).take(i as int), dir_path@),
        decreases lines@.len() - i,
    {
        let line = lines[i].as_str();
        let trimmed = trim(line);
        proof {
            reveal_strlit("#");
            assert("#"@ =~= seq!['#']);
            assert(words(lines@).take(i + 1).drop_last() =~= words(lines@).take(i as int));
            assert(words(lines@).take(i + 1).last() == line@);
        }
        if trimmed.unicode_len() > 0 && !starts_with(line, "#") {
            let ghost before = result@;
            let mut converted = convert_gitignore_pattern(line, dir_path);
            result.append(&mut converted);
            proof {
                assert(git_filters_view(result@) =~= git_filters_view(before) + spec_git_pattern(
                    line@,
                    dir_path@,
                ));
            }
        }
        i = i + 1;
    }
    assert(words(lines@).take(lines@.len() as int) =~= words(lines@));
    result
}

/// The filters of a directory holding a `.gitignore`: those of the
/// repository's `info/exclude` file when there is one, then the one that
/// hides `.git/`, then those of the `.gitignore`.
pub fn gitignore_filters_for_dir(
    exclude_lines: &Option<Vec<String>>,
    gitignore_lines: &Vec<String>,
    dir_path: &str,
) -> (r: Vec<GitignoreFilter>)
    ensures
        git_filters_view(r@) == (match *exclude_lines {
            Some(v) => spec_git_lines(words(v@), dir_path@),
            None => Seq::empty(),
        }) + spec_git_pattern(".git/"@, dir_path@) + spec_git_lines(words(gitignore_lines@), dir_path@),
{
    let mut result: Vec<GitignoreFilter> = match exclude_lines {
        Some(lines) => gitignore_filters_from_lines(lines, dir_path),
        None => Vec::new(),
    };
    let ghost first = result@;
    let mut git_dir = convert_gitignore_pattern(".git/", dir_path);
    result.append(&mut git_dir);
    let ghost second = result@;
    let mut own = gitignore_filters_from_lines(gitignore_lines, dir_path);
    result.append(&mut own);
    proof {
        assert(git_filters_view(second) =~= git_filters_view(first) + spec_git_pattern(".git/"@, dir_path@));
        assert(git_filters_view(result@) =~= git_filters_view(second) + spec_git_lines(
            words(gitignore_lines@),
            dir_path@,
        ));
    }
    result
}

/// The position of the first `=` in a text, if any.
pub open spec fn first_eq(s: Seq<char>) -> Option<int>
    decreases s.len(),
{
    if s.len() == 0 {
        None
    } else if s[0] == '=' {
        Some(0)
    } else {
        match first_eq(s.skip(1)) {
            Some(k) => Some(k + 1),
            None => None,
        }
    }
}

/// Whether a line of a `.gitconfig` names the global excludes file: it is no
/// comment and mentions `excludesFile`.
pub open spec fn names_excludes_file(l: Seq<char>) -> bool {
    !has_prefix(l, seq![';']) && !has_prefix(l, seq!['#']) && has_infix(l, "excludesFile"@)
}

/// The global excludes file of a `.gitconfig`: the first line that names it,
/// if that line has exactly one `=`, gives the trimmed text after it.
pub open spec fn spec_excludes_file(lines: Seq<Seq<char>>) -> Option<Seq<char>>
    decreases lines.len(),
{
    if lines.len() == 0 {
        None
    } else if names_excludes_file(lines[0]) {
        match first_eq(lines[0]) {
            Some(k) => {
                let after = lines[0].skip(k + 1);
                if first_eq(after) is None {
                    Some(spec_trim(after))
                } else {
                    None
                }
            },
            None => None,
        }
    } else {
        spec_excludes_file(lines.drop_first())
    }
}

/// The position of the first `=` at or after `from`.
fn find_eq(s: &str, from: usize) -> (r: Option<usize>)
    requires
        from <= s@.len(),
    ensures
        match first_eq(s@.skip(from as int)) {
            Some(k) => r matches Some(x) && x == from + k,
            None => r is None,
        },
        r matches Some(k) ==> from <= k < s@.len() && s@[k as int] == '=',
{
    let n = s.unicode_len();
    let mut i = from;
    while i < n
        invariant
            n == s@.len(),
            from <= i <= n,
            first_eq(s@.skip(from as int)) == match first_eq(s@.skip(i as int)) {
                Some(k) => Some(k + (i - from)),
                None => None,
            },
        decreases n - i,
    {
        assert(s@.skip(i as int).skip(1) =~= s@.skip(i + 1));
        if s.get_char(i) == '=' {
            return Some(i);
        }
        i = i + 1;
    }
    assert(s@.skip(n as int) =~= Seq::<char>::empty());
    None
}

/// The global excludes file named in the lines of a `.gitconfig`
/// (`spec_excludes_file`).
pub fn excludes_file_from_gitconfig(lines: &Vec<String>) -> (r: Option<String>)
    ensures
        match r {
            Some(s) => spec_excludes_file(words(lines@)) == Some(s@),
            None => spec_excludes_file(words(lines@)) is None,
        },
{
    let mut i: usize = 0;
    proof {
        reveal_strlit(";");
        reveal_strlit("#");
        assert(";"@ =~= seq![';']);
        assert("#"@ =~= seq!['#']);
        assert(words(lines@).skip(0) =~= words(lines@));
    }
    while i < lines.len()
        invariant
            i <= lines@.len(),
            spec_excludes_file(words(lines@).skip(i as int)) == spec_excludes_file(words(lines@)),
        decreases lines@.len() - i,
    {
        let line = lines[i].as_str();
        proof {
            reveal_strlit(";");
            reveal_strlit("#");
            assert(";"@ =~= seq![';']);
            assert("#"@ =~= seq!['#']);
        }
        let ghost rest = words(lines@).skip(i as int);
        assert(rest[0] == line@);
        assert(rest.drop_first() =~= words(lines@).skip(i + 1));
        if !starts_with(line, ";") && !starts_with(line, "#") && contains_str(line, "excludesFile") {
            let n = line.unicode_len();
            assert(line@.skip(0) =~= line@);
            assert(names_excludes_file(rest[0]));
            match find_eq(line, 0) {
                Some(k) => {
                    assert(first_eq(rest[0]) == Some(k as int));
                    match find_eq(line, k + 1) {
                        Some(_) => {
                            assert(first_eq(rest[0].skip(k + 1)) is Some);
                            assert(spec_excludes_file(rest) is None);
                            return None;
                        },
                        None => {
                            let after = substring(line, k + 1, n);
                            assert(after@ =~= line@.skip(k + 1));
                            let trimmed = trim(after.as_str());
                            assert(spec_excludes_file(rest) == Some(trimmed@));
                            return Some(trimmed);
                        },
                    }
                },
                None => {
                    return None;
                },
            }
        }
        i = i + 1;
    }
    assert(words(lines@).skip(lines@.len() as int) =~= Seq::<Seq<char>>::empty());
    None
}

} // verus!
