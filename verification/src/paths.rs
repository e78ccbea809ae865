//! Search roots written with a leading `~`: the user's home directory and
//! the path below it; and how deep a path found by an outside file index
//! lies below a root.

use vstd::prelude::*;

use crate::strings::{has_prefix, push_char, push_str, starts_with};

verus! {

#[verifier::external_type_specification]
#[verifier::external_body]
pub struct ExUserDirs(directories::UserDirs);

/// Calls `directories::UserDirs::new`, which looks the user's directories
/// up in the environment; `None` when no home directory can be found.
/// Nothing is stated of the result: it depends on the machine.
#[verifier::external_body]
fn user_dirs() -> (r: Option<directories::UserDirs>) {
    directories::UserDirs::new()
}

/// Calls `directories::UserDirs::home_dir` and gives the path as text.
/// Nothing is stated of the result: it is what the environment held.
#[verifier::external_body]
fn home_dir_of(dirs: &directories::UserDirs) -> (r: String) {
    dirs.home_dir().to_string_lossy().to_string()
}

/// The user's home directory, when the environment gives one.
pub fn home_dir() -> (r: Option<String>) {
    match user_dirs() {
        Some(dirs) => Some(home_dir_of(&dirs)),
        None => None,
    }
}

/// The pieces of a path between its slashes, empty pieces included.
pub open spec fn split_slash(p: Seq<char>) -> Seq<Seq<char>>
    decreases p.len(),
{
    if p.len() == 0 {
        seq![Seq::<char>::empty()]
    } else {
        let init = split_slash(p.drop_last());
        if p.last() == '/' {
            init.push(Seq::<char>::empty())
        } else {
            init.update(init.len() - 1, init.last().push(p.last()))
        }
    }
}

/// Pieces joined with single slashes.
pub open spec fn join_slash(parts: Seq<Seq<char>>) -> Seq<char>
    decreases parts.len(),
{
    if parts.len() == 0 {
        Seq::empty()
    } else if parts.len() == 1 {
        parts[0]
    } else {
        join_slash(parts.drop_last()) + seq!['/'] + parts.last()
    }
}

/// A piece that names a directory: neither empty (doubled or trailing
/// slashes) nor `.`.
pub open spec fn is_named_piece(s: Seq<char>) -> bool {
    s.len() > 0 && s != seq!['.']
}

/// The path after its first piece, as a relative path: its named pieces
/// joined with slashes.
pub open spec fn tail_after_first(p: Seq<char>) -> Seq<char> {
    join_slash(split_slash(p).drop_first().filter(|s: Seq<char>| is_named_piece(s)))
}

/// `home` with `rest` below it: a slash between them unless `home` is empty
/// or already ends with one.
pub open spec fn spec_join_below(home: Seq<char>, rest: Seq<char>) -> Seq<char> {
    if home.len() == 0 {
        rest
    } else if home.last() == '/' {
        home + rest
    } else {
        home + seq!['/'] + rest
    }
}

/// The pieces strictly between the first and the last one.
pub open spec fn inner_pieces(parts: Seq<Seq<char>>) -> Seq<Seq<char>> {
    if parts.len() >= 2 {
        parts.subrange(1, parts.len() - 1)
    } else {
        Seq::empty()
    }
}

proof fn lemma_split_nonempty(p: Seq<char>)
    ensures
        split_slash(p).len() >= 1,
    decreases p.len(),
{
    if p.len() > 0 {
        lemma_split_nonempty(p.drop_last());
    }
}

/// The path that replaces the first piece of `path` (the `~`) with `home`:
/// the named pieces that follow it, below `home`.
pub fn expand_home(path: &str, home: &str) -> (r: String)
    ensures
        r@ == spec_join_below(home@, tail_after_first(path@)),
{
    let n = path.unicode_len();
    let ghost p = path@;
    let ghost pred = |s: Seq<char>| is_named_piece(s);
    let mut rest = String::new();
    let mut cur = String::new();
    let mut i: usize = 0;
    let mut seen_slash = false;
    proof {
        assert(p.take(0) =~= Seq::<char>::empty());
        reveal(Seq::filter);
        assert(inner_pieces(split_slash(p.take(0))) =~= Seq::<Seq<char>>::empty());
    }
    while i < n
        invariant
            n == p.len(),
            p == path@,
            i <= n,
            split_slash(p.take(i as int)).len() >= 1,
            seen_slash <==> split_slash(p.take(i as int)).len() >= 2,
            cur@ == split_slash(p.take(i as int)).last(),
            rest@ == join_slash(
                inner_pieces(split_slash(p.take(i as int))).filter(pred),
            ),
            pred == (|s: Seq<char>| is_named_piece(s)),
        decreases n - i,
    {
        let c = path.get_char(i);
        let ghost parts = split_slash(p.take(i as int));
        proof {
            assert(p.take(i + 1).drop_last() =~= p.take(i as int));
            assert(p.take(i + 1).last() == c);
            lemma_split_nonempty(p.take(i + 1));
        }
        if c == '/' {
            proof {
                assert(split_slash(p.take(i + 1)) == parts.push(Seq::<char>::empty()));
                assert(inner_pieces(parts.push(Seq::<char>::empty())) =~= parts.drop_first());
                reveal(Seq::filter);
            }
            if seen_slash {
                let named = cur.unicode_len() > 0 && !(cur.unicode_len() == 1 && cur.as_str().get_char(0) == '.');
                proof {
                    assert(parts.drop_first() =~= inner_pieces(parts).push(parts.last()));
                    if cur@ == seq!['.'] {
                        assert(cur@.len() == 1 && cur@[0] == '.');
                    }
                    if cur@.len() == 1 && cur@[0] == '.' {
                        assert(cur@ =~= seq!['.']);
                    }
                    assert(named == is_named_piece(parts.last()));
                    assert(inner_pieces(parts).push(parts.last()).drop_last()
                        =~= inner_pieces(parts));
                }
                if named {
                    let ghost before = inner_pieces(parts).filter(pred);
                    proof {
                        assert(parts.drop_first().filter(pred) == before.push(parts.last()));
                    }
                    if rest.unicode_len() > 0 {
                        proof {
                            if before.len() == 0 {
                                assert(join_slash(before) =~= Seq::<char>::empty());
                            }
                            assert(before.push(parts.last()).drop_last() =~= before);
                        }
                        push_char(&mut rest, '/');
                        push_str(&mut rest, cur.as_str());
                    } else {
                        proof {
                            if before.len() > 0 {
                                broadcast use vstd::seq_lib::group_filter_ensures;
                                lemma_join_nonempty(before);
                            }
                            assert(before.len() == 0);
                            assert(before.push(parts.last()) =~= seq![parts.last()]);
                        }
                        push_str(&mut rest, cur.as_str());
                    }
                } else {
                    proof {
                        assert(parts.drop_first().filter(pred)
                            == inner_pieces(parts).filter(pred));
                    }
                }
            } else {
                proof {
                    assert(parts.drop_first() =~= Seq::<Seq<char>>::empty());
                    assert(parts.drop_last() =~= Seq::<Seq<char>>::empty());
                }
            }
            cur = String::new();
            seen_slash = true;
            proof {
                assert(cur@ =~= Seq::<char>::empty());
            }
        } else {
            proof {
                let last = parts.len() - 1;
                assert(split_slash(p.take(i + 1)) == parts.update(last, parts.last().push(c)));
                assert(inner_pieces(parts.update(last, parts.last().push(c))) =~= inner_pieces(parts));
            }
            push_char(&mut cur, c);
        }
        i = i + 1;
    }
    proof {
        assert(p.take(n as int) =~= p);
    }
    let ghost parts = split_slash(p);
    let named = cur.unicode_len() > 0 && !(cur.unicode_len() == 1 && cur.as_str().get_char(0) == '.');
    proof {
        reveal(Seq::filter);
        if cur@ == seq!['.'] {
            assert(cur@.len() == 1 && cur@[0] == '.');
        }
        if cur@.len() == 1 && cur@[0] == '.' {
            assert(cur@ =~= seq!['.']);
        }
    }
    if seen_slash && named {
        let ghost before = inner_pieces(parts).filter(pred);
        proof {
            assert(parts.drop_first() =~= inner_pieces(parts).push(parts.last()));
            assert(inner_pieces(parts).push(parts.last()).drop_last()
                =~= inner_pieces(parts));
            assert(parts.drop_first().filter(pred) == before.push(parts.last()));
            assert(before.push(parts.last()).drop_last() =~= before);
        }
        if rest.unicode_len() > 0 {
            push_char(&mut rest, '/');
            push_str(&mut rest, cur.as_str());
        } else {
            proof {
                if before.len() > 0 {
                    broadcast use vstd::seq_lib::group_filter_ensures;
                    lemma_join_nonempty(before);
                }
                assert(before.push(parts.last()) =~= seq![parts.last()]);
            }
            push_str(&mut rest, cur.as_str());
        }
    } else {
        proof {
            if parts.len() >= 2 {
                assert(parts.drop_first() =~= inner_pieces(parts).push(parts.last()));
                assert(inner_pieces(parts).push(parts.last()).drop_last()
                    =~= inner_pieces(parts));
                assert(parts.drop_first().filter(pred) == inner_pieces(parts).filter(pred));
            } else {
                assert(parts.drop_first() =~= Seq::<Seq<char>>::empty());
                assert(inner_pieces(parts) =~= Seq::<Seq<char>>::empty());
            }
        }
    }
    let hn = home.unicode_len();
    let mut out = String::new();
    push_str(&mut out, home);
    if hn > 0 && home.get_char(hn - 1) != '/' {
        push_char(&mut out, '/');
    }
    push_str(&mut out, rest.as_str());
    proof {
        if hn > 0 {
            assert(home@.last() == home@[hn - 1]);
        }
        assert(rest@ == tail_after_first(p));
    }
    out
}

/// A join of pieces that are all named is never empty when there is a piece.
proof fn lemma_join_nonempty(parts: Seq<Seq<char>>)
    requires
        parts.len() > 0,
        forall|k: int| 0 <= k < parts.len() ==> is_named_piece(#[trigger] parts[k]),
    ensures
        join_slash(parts).len() > 0,
    decreases parts.len(),
{
    if parts.len() > 1 {
        lemma_join_nonempty(parts.drop_last());
    }
}

/// How many times `c` occurs in `s`.
pub open spec fn count_char(s: Seq<char>, c: char) -> nat
    decreases s.len(),
{
    if s.len() == 0 {
        0
    } else {
        count_char(s.drop_last(), c) + if s.last() == c {
            1nat
        } else {
            0nat
        }
    }
}

proof fn lemma_count_char_bound(s: Seq<char>, c: char)
    ensures
        count_char(s, c) <= s.len(),
    decreases s.len(),
{
    if s.len() > 0 {
        lemma_count_char_bound(s.drop_last(), c);
    }
}

/// The depth below `root_prefix` of a path that an outside file index
/// reported: one more than the number of separators after the prefix;
/// `None` for a path that is not below the prefix, or is the prefix itself.
pub open spec fn spec_external_index_depth(path: Seq<char>, root_prefix: Seq<char>) -> Option<u32> {
    if !has_prefix(path, root_prefix) || path.len() == root_prefix.len() {
        None
    } else {
        Some((count_char(path.skip(root_prefix.len() as int), '/') + 1) as u32)
    }
}

/// The depth below a root of a path that an outside file index (such as
/// `plocate`) found, counted in path components.
pub fn external_index_depth(path: &str, root_prefix: &str) -> (r: Option<u32>)
    requires
        path@.len() < u32::MAX,
    ensures
        r == spec_external_index_depth(path@, root_prefix@),
{
    if !starts_with(path, root_prefix) {
        return None;
    }
    let n = path.unicode_len();
    let start = root_prefix.unicode_len();
    if n == start {
        return None;
    }
    let ghost rel = path@.skip(start as int);
    let mut count: u32 = 0;
    let mut i: usize = start;
    while i < n
        invariant
            start <= i <= n,
            n == path@.len(),
            n < u32::MAX,
            rel == path@.skip(start as int),
            count == count_char(rel.take(i - start), '/'),
        decreases n - i,
    {
        proof {
            lemma_count_char_bound(rel.take(i - start), '/');
            assert(rel.take(i - start + 1).drop_last() =~= rel.take(i - start));
        }
        if path.get_char(i) == '/' {
            count = count + 1;
        }
        i = i + 1;
    }
    proof {
        assert(rel.take(n - start) =~= rel);
        lemma_count_char_bound(rel, '/');
    }
    Some(count + 1)
}

} // verus!
