//! References to the columns of aliased roots (`alias.field`), resolved
//! against the values that the search has recorded for each alias.

use vstd::prelude::*;

use crate::expr::{spec_expr_text, Expr};
use crate::query::{root_aliases, Root};
use crate::strings::{
    find_str, is_ascii_alnum, lemma_find_in_range, lemma_push_contains, push_str, spec_find, str_eq,
    str_to_string, substring,
};

verus! {

/// A character of an alias or a field name: an ASCII letter or digit, or `_`.
pub open spec fn is_name_char(c: char) -> bool {
    is_ascii_alnum(c) || c == '_'
}

/// Whether every character is one of a name.
pub open spec fn all_name_chars(s: Seq<char>) -> bool {
    forall|i: int| 0 <= i < s.len() ==> #[trigger] is_name_char(s[i])
}

/// The alias and the field of a text of the form `alias.field`, where both
/// are names that are not empty.
pub open spec fn spec_alias_reference(s: Seq<char>) -> Option<(Seq<char>, Seq<char>)> {
    match spec_find(s, seq!['.']) {
        Some(i) => if 0 < i && i + 1 < s.len() && all_name_chars(s.take(i)) && all_name_chars(
            s.skip(i + 1),
        ) {
            Some((s.take(i), s.skip(i + 1)))
        } else {
            None
        },
        None => None,
    }
}

fn is_name(s: &str) -> (r: bool)
    ensures
        r == all_name_chars(s@),
{
    let n = s.unicode_len();
    let mut i: usize = 0;
    while i < n
        invariant
            n == s@.len(),
            i <= n,
            forall|j: int| 0 <= j < i ==> #[trigger] is_name_char(s@[j]),
        decreases n - i,
    {
        let c = s.get_char(i);
        let ok = ('a' <= c && c <= 'z') || ('A' <= c && c <= 'Z') || ('0' <= c && c <= '9') || c
            == '_';
        if !ok {
            assert(!is_name_char(s@[i as int]));
            return false;
        }
        i = i + 1;
    }
    true
}

/// The alias and the field of a text `alias.field` (`spec_alias_reference`).
pub fn alias_reference(s: &str) -> (r: Option<(String, String)>)
    ensures
        match spec_alias_reference(s@) {
            Some((a, f)) => r matches Some((x, y)) && x@ == a && y@ == f,
            None => r is None,
        },
{
    proof {
        reveal_strlit(".");
        assert("."@ =~= seq!['.']);
    }
    match find_str(s, ".") {
        None => None,
        Some(i) => {
            let n = s.unicode_len();
            proof {
                lemma_find_in_range(s@, seq!['.']);
            }
            if i == 0 || i >= n - 1 {
                return None;
            }
            let alias = substring(s, 0, i);
            let field = substring(s, i + 1, n);
            assert(alias@ =~= s@.take(i as int));
            assert(field@ =~= s@.skip(i + 1));
            if is_name(alias.as_str()) && is_name(field.as_str()) {
                Some((alias, field))
            } else {
                None
            }
        },
    }
}

/// The values recorded for an alias: those of its first entry.
pub open spec fn recorded_for(
    context: Seq<(String, Vec<(String, String)>)>,
    alias: Seq<char>,
) -> Option<Seq<(String, String)>>
    decreases context.len(),
{
    if context.len() == 0 {
        None
    } else if context[0].0@ == alias {
        Some(context[0].1@)
    } else {
        recorded_for(context.drop_first(), alias)
    }
}

/// The value recorded for a field: that of its first entry.
pub open spec fn recorded_value(values: Seq<(String, String)>, field: Seq<char>) -> Option<Seq<char>>
    decreases values.len(),
{
    if values.len() == 0 {
        None
    } else if values[0].0@ == field {
        Some(values[0].1@)
    } else {
        recorded_value(values.drop_first(), field)
    }
}

/// What a column expression that may name another root's column stands for.
pub enum AliasLookup {
    /// Evaluate the expression itself; `true` when it names a column of the
    /// root being searched, whose recorded values then take the result.
    Evaluate(bool),
    /// The value recorded for the other root's column; `None` when that root
    /// has no value recorded for it.
    Recorded(Option<String>),
    /// The expression names an alias that no root declares and that has no
    /// values recorded: an error with this message.
    Invalid(String),
}

fn find_recorded<'a>(context: &'a Vec<(String, Vec<(String, String)>)>, alias: &str) -> (r: Option<
    &'a Vec<(String, String)>,
>)
    ensures
        match recorded_for(context@, alias@) {
            Some(v) => r matches Some(x) && x@ == v,
            None => r is None,
        },
{
    let mut i: usize = 0;
    assert(context@.skip(0) =~= context@);
    while i < context.len()
        invariant
            i <= context@.len(),
            recorded_for(context@.skip(i as int), alias@) == recorded_for(context@, alias@),
        decreases context@.len() - i,
    {
        let ghost rest = context@.skip(i as int);
        assert(rest[0] == context@[i as int]);
        assert(rest.drop_first() =~= context@.skip(i + 1));
        if str_eq(context[i].0.as_str(), alias) {
            return Some(&context[i].1);
        }
        i = i + 1;
    }
    None
}

fn find_value(values: &Vec<(String, String)>, field: &str) -> (r: Option<String>)
    ensures
        match recorded_value(values@, field@) {
            Some(v) => r matches Some(x) && x@ == v,
            None => r is None,
        },
{
    let mut i: usize = 0;
    assert(values@.skip(0) =~= values@);
    while i < values.len()
        invariant
            i <= values@.len(),
            recorded_value(values@.skip(i as int), field@) == recorded_value(values@, field@),
        decreases values@.len() - i,
    {
        let ghost rest = values@.skip(i as int);
        assert(rest[0] == values@[i as int]);
        assert(rest.drop_first() =~= values@.skip(i + 1));
        if str_eq(values[i].0.as_str(), field) {
            return Some(str_to_string(values[i].1.as_str()));
        }
        i = i + 1;
    }
    None
}

/// Whether some root declares the alias.
pub fn declares_alias(roots: &Vec<Root>, alias: &str) -> (r: bool)
    ensures
        r == root_aliases(roots@).contains(alias@),
{
    let mut found = false;
    let mut i: usize = 0;
    while i < roots.len()
        invariant
            i <= roots@.len(),
            found == root_aliases(roots@.take(i as int)).contains(alias@),
        decreases roots@.len() - i,
    {
        let ghost before = roots@.take(i as int);
        assert(roots@.take(i + 1).drop_last() =~= before);
        assert(roots@.take(i + 1).last() == roots@[i as int]);
        match &roots[i].options.alias {
            Some(a) => {
                if str_eq(a.as_str(), alias) {
                    found = true;
                }
                assert(root_aliases(roots@.take(i + 1)) == root_aliases(before).push(a@));
                proof {
                    lemma_push_contains(root_aliases(before), a@, alias@);
                }
            },
            None => {},
        }
        i = i + 1;
    }
    assert(roots@.take(roots@.len() as int) =~= roots@);
    found
}

/// What a column expression stands for when its text reads `alias.field`:
/// a column of the root being searched, the value recorded for another
/// root's column, or an error for an alias that is unknown (named as a root
/// alias, or declared by a root but with nothing recorded yet). Any other
/// expression, such as the value `readme.md`, is evaluated itself.
pub fn resolve_alias_reference(
    column_expr: &Expr,
    current_alias: &Option<String>,
    record_context: &Vec<(String, Vec<(String, String)>)>,
    roots: &Vec<Root>,
) -> (r: AliasLookup)
    ensures
        match spec_alias_reference(spec_expr_text(*column_expr)) {
            None => r matches AliasLookup::Evaluate(u) && !u,
            Some((a, f)) => if (current_alias matches Some(c) && c@ == a) {
                r matches AliasLookup::Evaluate(u) && u
            } else {
                match recorded_for(record_context@, a) {
                    Some(values) => match recorded_value(values, f) {
                        Some(v) => r matches AliasLookup::Recorded(Some(x)) && x@ == v,
                        None => r matches AliasLookup::Recorded(None),
                    },
                    None => if column_expr.root_alias is Some || root_aliases(roots@).contains(a) {
                        r matches AliasLookup::Invalid(m) && m@ == "Invalid root alias: "@ + a
                    } else {
                        r matches AliasLookup::Evaluate(u) && !u
                    },
                }
            },
        },
{
    let text = column_expr.to_string();
    match alias_reference(text.as_str()) {
        None => AliasLookup::Evaluate(false),
        Some((alias, field)) => {
            let current = match current_alias {
                Some(c) => str_eq(c.as_str(), alias.as_str()),
                None => false,
            };
            if current {
                return AliasLookup::Evaluate(true);
            }
            match find_recorded(record_context, alias.as_str()) {
                Some(values) => AliasLookup::Recorded(find_value(values, field.as_str())),
                None => {
                    if column_expr.root_alias.is_some() || declares_alias(roots, alias.as_str()) {
                        let mut m = str_to_string("Invalid root alias: ");
                        push_str(&mut m, alias.as_str());
                        AliasLookup::Invalid(m)
                    } else {
                        AliasLookup::Evaluate(false)
                    }
                },
            }
        },
    }
}

} // verus!
