//! Roots whose path is read as a regular expression: the path is taken
//! part by part (between `/`s); a part that looks like a regular
//! expression is matched, whole, against the names of the directories
//! below each base found so far, and any other part is appended to every
//! base. The caller lists each base directory; the rules are here.

use vstd::prelude::*;

use crate::pattern::{regex_matches, Pattern};
use crate::strings::{push_char, push_str};

verus! {

/// The characters that make a part of a path read as a regular expression.
pub open spec fn is_rx_char(c: char) -> bool {
    c == '*' || c == '+' || c == '?' || c == '(' || c == ')' || c == '[' || c == ']' || c == '{'
        || c == '}' || c == '|' || c == '^' || c == '$' || c == '\\'
}

/// Whether a part of a path reads as a regular expression: it holds one of
/// the characters of `is_rx_char`.
pub open spec fn spec_looks_like_regexp(s: Seq<char>) -> bool {
    exists|i: int| 0 <= i < s.len() && is_rx_char(#[trigger] s[i])
}

/// Whether a part of a path reads as a regular expression (see
/// `spec_looks_like_regexp`).
pub fn looks_like_regexp(s: &str) -> (r: bool)
    ensures
        r == spec_looks_like_regexp(s@),
{
    let n = s.unicode_len();
    let mut i: usize = 0;
    while i < n
        invariant
            n == s@.len(),
            i <= n,
            forall|j: int| 0 <= j < i ==> !is_rx_char(#[trigger] s@[j]),
        decreases n - i,
    {
        let c = s.get_char(i);
        if c == '*' || c == '+' || c == '?' || c == '(' || c == ')' || c == '[' || c == ']' || c
            == '{' || c == '}' || c == '|' || c == '^' || c == '$' || c == '\\' {
            assert(is_rx_char(s@[i as int]));
            return true;
        }
        i = i + 1;
    }
    false
}

/// The parts of a text between the separators `c`, in order (a text
/// without one is a single part).
pub open spec fn split_on(s: Seq<char>, c: char) -> Seq<Seq<char>>
    decreases s.len(),
{
    if s.len() == 0 {
        seq![Seq::empty()]
    } else {
        let r = split_on(s.drop_last(), c);
        if s.last() == c {
            r.push(Seq::empty())
        } else {
            r.update(r.len() - 1, r.last().push(s.last()))
        }
    }
}

/// The views of a vector of texts.
pub open spec fn texts_of(v: Seq<String>) -> Seq<Seq<char>> {
    v.map_values(|s: String| s@)
}

/// The parts of a path between its `/`s (see `split_on`).
pub fn path_parts(path: &str) -> (r: Vec<String>)
    ensures
        texts_of(r@) == split_on(path@, '/'),
{
    let n = path.unicode_len();
    let mut parts: Vec<String> = Vec::new();
    parts.push(String::new());
    let mut i: usize = 0;
    assert(path@.take(0) =~= Seq::<char>::empty());
    assert(texts_of(parts@) =~= split_on(path@.take(0), '/'));
    while i < n
        invariant
            n == path@.len(),
            i <= n,
            parts@.len() > 0,
            texts_of(parts@) == split_on(path@.take(i as int), '/'),
        decreases n - i,
    {
        let c = path.get_char(i);
        let ghost before = parts@;
        proof {
            assert(path@.take(i + 1).drop_last() =~= path@.take(i as int));
            assert(path@.take(i + 1).last() == c);
        }
        if c == '/' {
            parts.push(String::new());
            assert(texts_of(parts@) =~= texts_of(before).push(Seq::empty()));
        } else {
            let last = parts.len() - 1;
            let mut cur = parts.remove(last);
            push_char(&mut cur, c);
            parts.push(cur);
            assert(texts_of(parts@) =~= texts_of(before).update(
                texts_of(before).len() - 1,
                texts_of(before).last().push(c),
            ));
        }
        i = i + 1;
    }
    assert(path@.take(n as int) =~= path@);
    parts
}

/// The pattern a part that reads as a regular expression is matched with:
/// the part, anchored at both ends.
pub open spec fn spec_anchored(part: Seq<char>) -> Seq<char> {
    seq!['^'] + part + seq!['$']
}

/// The part anchored at both ends (see `spec_anchored`).
pub fn anchored(part: &str) -> (r: String)
    ensures
        r@ == spec_anchored(part@),
{
    let mut r = String::new();
    push_char(&mut r, '^');
    push_str(&mut r, part);
    push_char(&mut r, '$');
    assert(r@ =~= spec_anchored(part@));
    r
}

/// The path of an entry named `name` in the directory `base`: the name
/// alone below the current directory (an empty base), else the base and
/// the name joined by one `/`.
pub open spec fn child_path(base: Seq<char>, name: Seq<char>) -> Seq<char> {
    if base.len() == 0 {
        name
    } else if base.last() == '/' {
        base + name
    } else {
        base + seq!['/'] + name
    }
}

/// The path of an entry in a directory (see `child_path`).
pub fn join_child(base: &str, name: &str) -> (r: String)
    ensures
        r@ == child_path(base@, name@),
{
    let n = base.unicode_len();
    let mut r = String::new();
    push_str(&mut r, base);
    if n > 0 && base.get_char(n - 1) != '/' {
        push_char(&mut r, '/');
    }
    push_str(&mut r, name);
    assert(r@ =~= child_path(base@, name@));
    r
}

/// The paths, below `base`, of the directories of a listing (each entry a
/// name and whether it is a directory) whose names the pattern matches, in
/// the listing's order.
pub open spec fn matched_dirs(base: Seq<char>, pattern: Seq<char>, listing: Seq<(String, bool)>) -> Seq<Seq<char>>
    decreases listing.len(),
{
    if listing.len() == 0 {
        Seq::empty()
    } else {
        let rest = matched_dirs(base, pattern, listing.drop_last());
        let (name, is_dir) = listing.last();
        if is_dir && regex_matches(pattern, name@) {
            rest.push(child_path(base, name@))
        } else {
            rest
        }
    }
}

/// One step of a regular-expression root: the paths of the directories
/// listed in `base` whose names the part's pattern matches (see
/// `matched_dirs`).
pub fn regexp_root_step(base: &str, part: &Pattern, listing: &Vec<(String, bool)>) -> (r: Vec<String>)
    ensures
        texts_of(r@) == matched_dirs(base@, part.source(), listing@),
{
    let mut r: Vec<String> = Vec::new();
    let mut i: usize = 0;
    while i < listing.len()
        invariant
            i <= listing@.len(),
            texts_of(r@) == matched_dirs(base@, part.source(), listing@.take(i as int)),
        decreases listing@.len() - i,
    {
        let ghost before = r@;
        proof {
            assert(listing@.take(i + 1).drop_last() =~= listing@.take(i as int));
            assert(listing@.take(i + 1).last() == listing@[i as int]);
        }
        let (name, is_dir) = (&listing[i].0, listing[i].1);
        if is_dir && part.is_match(name.as_str()) {
            let p = join_child(base, name.as_str());
            r.push(p);
            assert(texts_of(r@) =~= texts_of(before).push(child_path(base@, name@)));
        }
        i = i + 1;
    }
    assert(listing@.take(listing@.len() as int) =~= listing@);
    r
}

/// The bases a part that reads as a regular expression is matched below:
/// the bases found so far, or, before the first, the root directory for a
/// part that starts with `/` and the current directory (an empty base)
/// otherwise.
pub fn regexp_bases(bases: Vec<String>, part: &str) -> (r: Vec<String>)
    ensures
        bases@.len() > 0 ==> r == bases,
        bases@.len() == 0 ==> texts_of(r@) == seq![if part@.len() > 0 && part@[0] == '/' {
            seq!['/']
        } else {
            Seq::<char>::empty()
        }],
{
    if bases.len() > 0 {
        return bases;
    }
    let mut b = String::new();
    if part.unicode_len() > 0 && part.get_char(0) == '/' {
        push_char(&mut b, '/');
    }
    let mut r: Vec<String> = Vec::new();
    r.push(b);
    assert(texts_of(r@) =~= seq![b@]);
    r
}

/// The bases once a part that does not read as a regular expression is
/// taken: the part alone before the first base, else each base with `/`
/// and the part after it.
pub open spec fn appended(bases: Seq<Seq<char>>, part: Seq<char>) -> Seq<Seq<char>> {
    if bases.len() == 0 {
        seq![part]
    } else {
        bases.map_values(|b: Seq<char>| b + seq!['/'] + part)
    }
}

/// Takes a part that does not read as a regular expression (see `appended`).
pub fn append_part(bases: &Vec<String>, part: &str) -> (r: Vec<String>)
    ensures
        texts_of(r@) == appended(texts_of(bases@), part@),
{
    let mut r: Vec<String> = Vec::new();
    if bases.len() == 0 {
        let mut p = String::new();
        push_str(&mut p, part);
        r.push(p);
        assert(texts_of(r@) =~= seq![part@]);
        return r;
    }
    let mut i: usize = 0;
    while i < bases.len()
        invariant
            i <= bases@.len(),
            r@.len() == i,
            forall|j: int| 0 <= j < i ==> #[trigger] r@[j]@ == bases@[j]@ + seq!['/'] + part@,
        decreases bases@.len() - i,
    {
        let mut p = String::new();
        push_str(&mut p, bases[i].as_str());
        push_char(&mut p, '/');
        push_str(&mut p, part);
        r.push(p);
        i = i + 1;
    }
    assert(texts_of(r@) =~= appended(texts_of(bases@), part@));
    r
}

} // verus!
