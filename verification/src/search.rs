//! Whether a file meets the `where` condition of a query, decided from the
//! values that the condition's operands take for that file.
//!
//! Reading those values (file metadata, contents, the clock) and turning
//! them into typed values is the caller's part; the decision itself is
//! here: the comparison table of each value type, date spans, `in` lists,
//! `exists`, regular expressions, and the short-circuit of `and` and `or`.

use vstd::prelude::*;

use crate::expr::{spec_expr_text, Expr};
use crate::operators::{LogicalOp, Op};
use crate::query::TraversalMode;
use crate::pattern::{escape, regex_compiles, regex_matches, spec_regex_escape, Pattern};
use crate::strings::{push_char, push_str, str_eq, str_to_string};

verus! {

/// The value an operand takes for a file, by the type it compares as.
pub enum Value {
    Text(String),
    Int(i64),
    Bool(bool),
    /// A moment as the span of seconds it covers (a date written to the day
    /// covers the whole day), `None` for a text that reads as no date.
    DateTime(Option<(i64, i64)>),
}

impl Value {
    /// A copy of the value.
    pub fn duplicate(&self) -> (r: Value)
        ensures
            r == *self,
    {
        match self {
            Value::Text(s) => Value::Text(s.clone()),
            Value::Int(i) => Value::Int(*i),
            Value::Bool(b) => Value::Bool(*b),
            Value::DateTime(d) => Value::DateTime(*d),
        }
    }
}

/// `a` comes before `b` in the order of texts: at the first character where
/// they differ the smaller one, or else the shorter text first.
pub open spec fn text_lt(a: Seq<char>, b: Seq<char>) -> bool
    decreases a.len(),
{
    if b.len() == 0 {
        false
    } else if a.len() == 0 {
        true
    } else if a[0] != b[0] {
        (a[0] as u32) < (b[0] as u32)
    } else {
        text_lt(a.drop_first(), b.drop_first())
    }
}

/// Whether `a` comes before `b` in the order of texts.
pub fn text_less(a: &str, b: &str) -> (r: bool)
    ensures
        r == text_lt(a@, b@),
{
    let n = a.unicode_len();
    let m = b.unicode_len();
    let mut i: usize = 0;
    assert(a@.skip(0) =~= a@ && b@.skip(0) =~= b@);
    while i < n && i < m
        invariant
            n == a@.len(),
            m == b@.len(),
            i <= n,
            i <= m,
            text_lt(a@, b@) == text_lt(a@.skip(i as int), b@.skip(i as int)),
        decreases n - i,
    {
        let x = a.get_char(i);
        let y = b.get_char(i);
        assert(a@.skip(i as int)[0] == x && b@.skip(i as int)[0] == y);
        if x != y {
            return (x as u32) < (y as u32);
        }
        assert(a@.skip(i as int).drop_first() =~= a@.skip(i + 1));
        assert(b@.skip(i as int).drop_first() =~= b@.skip(i + 1));
        i = i + 1;
    }
    if i == m {
        false
    } else {
        true
    }
}

/// Whether the comparison holds of the field's value `f` and the value `v`
/// it is compared with, both of one type; `None` where that is not decided
/// by the order of the two values: texts under `=`, `!=`, `like` and `=~`
/// (which the value decides as a pattern, see `spec_text_pattern`), lists,
/// subqueries, and values of two types.
pub open spec fn spec_compare(op: Op, f: Value, v: Value) -> Option<bool> {
    match (f, v) {
        (Value::Text(a), Value::Text(b)) => match op {
            Op::Eeq => Some(b@ == a@),
            Op::Ene => Some(b@ != a@),
            Op::Gt => Some(text_lt(b@, a@)),
            Op::Gte => Some(!text_lt(a@, b@)),
            Op::Lt => Some(text_lt(a@, b@)),
            Op::Lte => Some(!text_lt(b@, a@)),
            Op::Eq | Op::Ne | Op::Like | Op::NotLike | Op::Rx | Op::NotRx | Op::In | Op::NotIn => None,
            _ => Some(false),
        },
        (Value::Int(a), Value::Int(b)) => match op {
            Op::Eq | Op::Eeq => Some(a == b),
            Op::Ne | Op::Ene => Some(a != b),
            Op::Gt => Some(a > b),
            Op::Gte => Some(a >= b),
            Op::Lt => Some(a < b),
            Op::Lte => Some(a <= b),
            Op::In | Op::NotIn => None,
            _ => Some(false),
        },
        (Value::Bool(a), Value::Bool(b)) => match op {
            Op::Eq | Op::Eeq => Some(a == b),
            Op::Ne | Op::Ene => Some(a != b),
            Op::Gt => Some(a && !b),
            Op::Gte => Some(a || !b),
            Op::Lt => Some(!a && b),
            Op::Lte => Some(!a || b),
            Op::In | Op::NotIn => None,
            _ => Some(false),
        },
        (Value::DateTime(a), Value::DateTime(b)) => match op {
            Op::In | Op::NotIn => None,
            _ => match (a, b) {
                (Some((dt, _)), Some((start, finish))) => match op {
                    Op::Eeq => Some(dt == start),
                    Op::Ene => Some(dt != start),
                    Op::Eq => Some(start <= dt && dt <= finish),
                    Op::Ne => Some(dt < start || dt > finish),
                    Op::Gt => Some(dt > finish),
                    Op::Gte => Some(dt >= start),
                    Op::Lt => Some(dt < start),
                    Op::Lte => Some(dt <= finish),
                    _ => Some(false),
                },
                _ => Some(false),
            },
        },
        _ => None,
    }
}

/// Compares two values (see `spec_compare`).
pub fn compare(op: Op, f: &Value, v: &Value) -> (r: Option<bool>)
    ensures
        r == spec_compare(op, *f, *v),
{
    match (f, v) {
        (Value::Text(a), Value::Text(b)) => match op {
            Op::Eeq => Some(str_eq(b.as_str(), a.as_str())),
            Op::Ene => Some(!str_eq(b.as_str(), a.as_str())),
            Op::Gt => Some(text_less(b.as_str(), a.as_str())),
            Op::Gte => Some(!text_less(a.as_str(), b.as_str())),
            Op::Lt => Some(text_less(a.as_str(), b.as_str())),
            Op::Lte => Some(!text_less(b.as_str(), a.as_str())),
            Op::Eq | Op::Ne | Op::Like | Op::NotLike | Op::Rx | Op::NotRx | Op::In | Op::NotIn => None,
            _ => Some(false),
        },
        (Value::Int(a), Value::Int(b)) => match op {
            Op::Eq | Op::Eeq => Some(*a == *b),
            Op::Ne | Op::Ene => Some(*a != *b),
            Op::Gt => Some(*a > *b),
            Op::Gte => Some(*a >= *b),
            Op::Lt => Some(*a < *b),
            Op::Lte => Some(*a <= *b),
            Op::In | Op::NotIn => None,
            _ => Some(false),
        },
        (Value::Bool(a), Value::Bool(b)) => match op {
            Op::Eq | Op::Eeq => Some(*a == *b),
            Op::Ne | Op::Ene => Some(*a != *b),
            Op::Gt => Some(*a && !*b),
            Op::Gte => Some(*a || !*b),
            Op::Lt => Some(!*a && *b),
            Op::Lte => Some(!*a || *b),
            Op::In | Op::NotIn => None,
            _ => Some(false),
        },
        (Value::DateTime(a), Value::DateTime(b)) => match op {
            Op::In | Op::NotIn => None,
            _ => match (a, b) {
                (Some((dt, _)), Some((start, finish))) => {
                    let dt = *dt;
                    let start = *start;
                    let finish = *finish;
                    match op {
                        Op::Eeq => Some(dt == start),
                        Op::Ene => Some(dt != start),
                        Op::Eq => Some(start <= dt && dt <= finish),
                        Op::Ne => Some(dt < start || dt > finish),
                        Op::Gt => Some(dt > finish),
                        Op::Gte => Some(dt >= start),
                        Op::Lt => Some(dt < start),
                        Op::Lte => Some(dt <= finish),
                        _ => Some(false),
                    }
                },
                _ => Some(false),
            },
        },
        _ => None,
    }
}

/// Whether a list item matches the field's value: the same text, number
/// or truth value, or a moment within the item's span; a text that reads
/// as no date matches nothing.
pub open spec fn spec_item_matches(f: Value, a: Value) -> bool {
    match (f, a) {
        (Value::Text(x), Value::Text(y)) => x@ == y@,
        (Value::Int(x), Value::Int(y)) => x == y,
        (Value::Bool(x), Value::Bool(y)) => x == y,
        (Value::DateTime(Some((dt, _))), Value::DateTime(Some((start, finish)))) => start <= dt && dt
            <= finish,
        _ => false,
    }
}

fn item_matches(f: &Value, a: &Value) -> (r: bool)
    ensures
        r == spec_item_matches(*f, *a),
{
    match (f, a) {
        (Value::Text(x), Value::Text(y)) => str_eq(x.as_str(), y.as_str()),
        (Value::Int(x), Value::Int(y)) => *x == *y,
        (Value::Bool(x), Value::Bool(y)) => *x == *y,
        (Value::DateTime(Some((dt, _))), Value::DateTime(Some((start, finish)))) => *start <= *dt
            && *dt <= *finish,
        _ => false,
    }
}

/// `=~` and `!=~` on texts: whether the value, as a regular expression,
/// matches the field's text (`!=~`: does not), or the error for a value
/// that does not compile.
pub open spec fn spec_regex_outcome(negate: bool, f: Seq<char>, pattern: Seq<char>) -> Result<bool, Seq<char>> {
    if regex_compiles(pattern) {
        Ok(regex_matches(pattern, f) != negate)
    } else {
        Err("Incorrect regex expression: "@ + pattern)
    }
}

/// Matches the field's text against the value as a regular expression.
pub fn regex_outcome(negate: bool, f: &str, pattern: &str) -> (r: Result<bool, String>)
    ensures
        match r {
            Ok(b) => spec_regex_outcome(negate, f@, pattern@) == Ok::<bool, Seq<char>>(b),
            Err(e) => spec_regex_outcome(negate, f@, pattern@) == Err::<bool, Seq<char>>(e@),
        },
{
    match Pattern::new(pattern) {
        Some(p) => {
            let m = p.is_match(f);
            Ok(m != negate)
        },
        None => {
            let mut e = str_to_string("Incorrect regex expression: ");
            push_str(&mut e, pattern);
            Err(e)
        },
    }
}

/// The regular expression a wildcard pattern stands for, without its
/// anchors: `any` matches any run of characters, `one` any one character,
/// and every other character itself.
pub open spec fn wildcard_body(p: Seq<char>, any: char, one: char) -> Seq<char>
    decreases p.len(),
{
    if p.len() == 0 {
        Seq::empty()
    } else {
        let c = p.last();
        wildcard_body(p.drop_last(), any, one) + if c == any {
            ".*"@
        } else if c == one {
            "."@
        } else {
            spec_regex_escape(seq![c])
        }
    }
}

/// The regular expression that matches a whole text against a wildcard
/// pattern.
pub open spec fn wildcard_regex(p: Seq<char>, any: char, one: char) -> Seq<char> {
    "^"@ + wildcard_body(p, any, one) + "$"@
}

/// Whether a value compared with `=` or `!=` is a glob pattern: it holds a
/// `*` or a `?`.
pub open spec fn spec_is_glob(v: Seq<char>) -> bool {
    v.contains('*') || v.contains('?')
}

/// `=` (`!=`: negated) on texts with a glob value: whether the whole field
/// text matches the glob (`*` any run, `?` any character); a glob whose
/// expression does not compile compares as plain text.
pub open spec fn spec_glob_outcome(negate: bool, f: Seq<char>, v: Seq<char>) -> bool {
    let r = wildcard_regex(v, '*', '?');
    if regex_compiles(r) {
        regex_matches(r, f) != negate
    } else {
        (f == v) != negate
    }
}

/// `like` (`not like`: negated): whether the whole field text matches the
/// pattern (`%` any run, `_` any character), or the error for a pattern
/// whose expression does not compile.
pub open spec fn spec_like_outcome(negate: bool, f: Seq<char>, v: Seq<char>) -> Result<bool, Seq<char>> {
    let r = wildcard_regex(v, '%', '_');
    if regex_compiles(r) {
        Ok(regex_matches(r, f) != negate)
    } else {
        Err("Incorrect LIKE expression: "@ + v)
    }
}

fn wildcard_to_regex(p: &str, any: char, one: char) -> (r: String)
    ensures
        r@ == wildcard_regex(p@, any, one),
{
    let n = p.unicode_len();
    let mut out = str_to_string("^");
    let mut i: usize = 0;
    while i < n
        invariant
            n == p@.len(),
            i <= n,
            out@ == "^"@ + wildcard_body(p@.take(i as int), any, one),
        decreases n - i,
    {
        let c = p.get_char(i);
        assert(p@.take(i + 1).drop_last() =~= p@.take(i as int));
        assert(p@.take(i + 1).last() == c);
        let ghost before = out@;
        if c == any {
            push_str(&mut out, ".*");
        } else if c == one {
            push_str(&mut out, ".");
        } else {
            let mut one_char = String::new();
            push_char(&mut one_char, c);
            assert(one_char@ =~= seq![c]);
            let e = escape(one_char.as_str());
            push_str(&mut out, e.as_str());
        }
        assert(out@ =~= "^"@ + wildcard_body(p@.take(i + 1), any, one));
        i = i + 1;
    }
    assert(p@.take(n as int) =~= p@);
    push_str(&mut out, "$");
    out
}

fn is_glob(v: &str) -> (r: bool)
    ensures
        r == spec_is_glob(v@),
{
    let n = v.unicode_len();
    let mut i: usize = 0;
    while i < n
        invariant
            n == v@.len(),
            i <= n,
            forall|j: int| 0 <= j < i ==> v@[j] != '*' && v@[j] != '?',
        decreases n - i,
    {
        let c = v.get_char(i);
        if c == '*' || c == '?' {
            assert(v@.contains(c) && v@[i as int] == c);
            return true;
        }
        i = i + 1;
    }
    assert(!v@.contains('*') && !v@.contains('?'));
    false
}

/// Matches the field's text against a glob value (see `spec_glob_outcome`).
pub fn glob_outcome(negate: bool, f: &str, v: &str) -> (r: bool)
    ensures
        r == spec_glob_outcome(negate, f@, v@),
{
    let re = wildcard_to_regex(v, '*', '?');
    match Pattern::new(re.as_str()) {
        Some(p) => p.is_match(f) != negate,
        None => str_eq(f, v) != negate,
    }
}

/// Matches the field's text against a LIKE pattern (see `spec_like_outcome`).
pub fn like_outcome(negate: bool, f: &str, v: &str) -> (r: Result<bool, String>)
    ensures
        match r {
            Ok(b) => spec_like_outcome(negate, f@, v@) == Ok::<bool, Seq<char>>(b),
            Err(e) => spec_like_outcome(negate, f@, v@) == Err::<bool, Seq<char>>(e@),
        },
{
    let re = wildcard_to_regex(v, '%', '_');
    match Pattern::new(re.as_str()) {
        Some(p) => Ok(p.is_match(f) != negate),
        None => {
            let mut e = str_to_string("Incorrect LIKE expression: ");
            push_str(&mut e, v);
            Err(e)
        },
    }
}

/// The outcome of a text comparison that the value decides as a pattern:
/// `=~`, `like`, and `=` or `!=` with a glob value, negated for the `not`
/// forms and `!=`; `None` for the other comparisons.
pub open spec fn spec_text_pattern(op: Op, f: Seq<char>, v: Seq<char>) -> Option<Result<bool, Seq<char>>> {
    match op {
        Op::Rx => Some(spec_regex_outcome(false, f, v)),
        Op::NotRx => Some(spec_regex_outcome(true, f, v)),
        Op::Like => Some(spec_like_outcome(false, f, v)),
        Op::NotLike => Some(spec_like_outcome(true, f, v)),
        Op::Eq => Some(Ok(if spec_is_glob(v) {
            spec_glob_outcome(false, f, v)
        } else {
            f == v
        })),
        Op::Ne => Some(Ok(if spec_is_glob(v) {
            spec_glob_outcome(true, f, v)
        } else {
            f != v
        })),
        _ => None,
    }
}

fn text_pattern(op: Op, f: &str, v: &str) -> (r: Option<Result<bool, String>>)
    ensures
        outcome_view(r) == spec_text_pattern(op, f@, v@),
{
    match op {
        Op::Rx => Some(regex_outcome(false, f, v)),
        Op::NotRx => Some(regex_outcome(true, f, v)),
        Op::Like => Some(like_outcome(false, f, v)),
        Op::NotLike => Some(like_outcome(true, f, v)),
        Op::Eq => Some(Ok(if is_glob(v) {
            glob_outcome(false, f, v)
        } else {
            str_eq(f, v)
        })),
        Op::Ne => Some(Ok(if is_glob(v) {
            glob_outcome(true, f, v)
        } else {
            !str_eq(f, v)
        })),
        _ => None,
    }
}

/// The value given for an operand, found by the operand's text (the
/// first entry with that text).
pub open spec fn spec_lookup(vals: Seq<(String, Value)>, key: Seq<char>) -> Option<Value>
    decreases vals.len(),
{
    if vals.len() == 0 {
        None
    } else if vals[0].0@ == key {
        Some(vals[0].1)
    } else {
        spec_lookup(vals.drop_first(), key)
    }
}

fn lookup<'a>(vals: &'a Vec<(String, Value)>, key: &str) -> (r: Option<&'a Value>)
    ensures
        match r {
            Some(v) => spec_lookup(vals@, key@) == Some(*v),
            None => spec_lookup(vals@, key@) is None,
        },
{
    let mut i: usize = 0;
    assert(vals@.skip(0) =~= vals@);
    while i < vals.len()
        invariant
            i <= vals@.len(),
            spec_lookup(vals@, key@) == spec_lookup(vals@.skip(i as int), key@),
        decreases vals@.len() - i,
    {
        assert(vals@.skip(i as int)[0] == vals@[i as int]);
        if str_eq(vals[i].0.as_str(), key) {
            return Some(&vals[i].1);
        }
        assert(vals@.skip(i as int).drop_first() =~= vals@.skip(i + 1));
        i = i + 1;
    }
    None
}

/// Whether some item of an `in` list matches the field's value, the items
/// taken in turn; `None` when an item's value is not given before a match.
pub open spec fn spec_in_args(f: Value, args: Seq<Expr>, vals: Seq<(String, Value)>) -> Option<bool>
    decreases args.len(),
{
    if args.len() == 0 {
        Some(false)
    } else {
        match spec_lookup(vals, spec_expr_text(args[0])) {
            None => None,
            Some(a) => if spec_item_matches(f, a) {
                Some(true)
            } else {
                spec_in_args(f, args.drop_first(), vals)
            },
        }
    }
}

fn in_args(f: &Value, args: &Vec<Expr>, vals: &Vec<(String, Value)>) -> (r: Option<bool>)
    ensures
        r == spec_in_args(*f, args@, vals@),
{
    let mut i: usize = 0;
    assert(args@.skip(0) =~= args@);
    while i < args.len()
        invariant
            i <= args@.len(),
            spec_in_args(*f, args@, vals@) == spec_in_args(*f, args@.skip(i as int), vals@),
        decreases args@.len() - i,
    {
        assert(args@.skip(i as int)[0] == args@[i as int]);
        assert(args@.skip(i as int).drop_first() =~= args@.skip(i + 1));
        let key = args[i].to_string();
        match lookup(vals, key.as_str()) {
            None => {
                return None;
            },
            Some(a) => {
                if item_matches(f, a) {
                    return Some(true);
                }
            },
        }
        i = i + 1;
    }
    assert(args@.skip(i as int).len() == 0);
    Some(false)
}

/// The text of a text value.
pub open spec fn value_text(v: Value) -> Option<Seq<char>> {
    match v {
        Value::Text(s) => Some(s@),
        _ => None,
    }
}

/// The outcome of one comparison node (see `spec_conforms`).
pub open spec fn spec_compare_node(e: Expr, op: Op, vals: Seq<(String, Value)>) -> Option<Result<bool, Seq<char>>> {
    if op == Op::Exists || op == Op::NotExists {
        match e.right {
            Some(right) => match right.args {
                Some(a) => Some(Ok((a@.len() > 0) != (op == Op::NotExists))),
                None => if right.subquery is Some {
                    None
                } else {
                    Some(Ok(op == Op::NotExists))
                },
            },
            None => None,
        }
    } else {
        match e.left {
            None => None,
            Some(l) => match spec_lookup(vals, spec_expr_text(*l)) {
                None => None,
                Some(f) => if op == Op::In || op == Op::NotIn {
                    match e.right {
                        Some(right) => match right.args {
                            Some(args) => match spec_in_args(f, args@, vals) {
                                Some(b) => Some(Ok(b != (op == Op::NotIn))),
                                None => None,
                            },
                            None => None,
                        },
                        None => None,
                    }
                } else {
                    match e.right {
                        None => None,
                        Some(r) => match spec_lookup(vals, spec_expr_text(*r)) {
                            None => None,
                            Some(v) => if spec_text_pattern(op, Seq::empty(), Seq::empty()) is Some
                                && value_text(f) is Some && value_text(v) is Some {
                                spec_text_pattern(op, value_text(f)->0, value_text(v)->0)
                            } else {
                                match spec_compare(op, f, v) {
                                    Some(b) => Some(Ok(b)),
                                    None => None,
                                }
                            },
                        },
                    }
                },
            },
        }
    }
}

/// Whether a file meets a condition, given the values `vals` that the
/// condition's operands take for it, each under the operand's text:
/// `Some(Ok(b))` when that decides it, `Some(Err(..))` for a regular
/// expression or LIKE pattern that does not compile, `None` when it rests
/// on something not given (an operand's value, a subquery).
/// `and` does not look at its right side once the left one is false, nor
/// `or` once it is true. A node with neither kind of operator is false.
pub open spec fn spec_conforms(e: Expr, vals: Seq<(String, Value)>) -> Option<Result<bool, Seq<char>>>
    decreases e,
{
    match e.logical_op {
        Some(lop) => {
            let left = match e.left {
                Some(l) => spec_conforms(*l, vals),
                None => Some(Ok(false)),
            };
            let right = match e.right {
                Some(r) => spec_conforms(*r, vals),
                None => Some(Ok(false)),
            };
            match left {
                Some(Ok(lb)) => if (lop == LogicalOp::And && !lb) || (lop == LogicalOp::Or && lb) {
                    Some(Ok(lb))
                } else {
                    right
                },
                _ => left,
            }
        },
        None => match e.op {
            Some(op) => spec_compare_node(e, op, vals),
            None => Some(Ok(false)),
        },
    }
}

pub open spec fn outcome_view(r: Option<Result<bool, String>>) -> Option<Result<bool, Seq<char>>> {
    match r {
        Some(Ok(b)) => Some(Ok(b)),
        Some(Err(e)) => Some(Err(e@)),
        None => None,
    }
}

fn compare_node(e: &Expr, op: Op, vals: &Vec<(String, Value)>) -> (r: Option<Result<bool, String>>)
    ensures
        outcome_view(r) == spec_compare_node(*e, op, vals@),
{
    if op == Op::Exists || op == Op::NotExists {
        let negate = op == Op::NotExists;
        return match &e.right {
            Some(right) => match &right.args {
                Some(a) => Some(Ok((a.len() > 0) != negate)),
                None => if right.subquery.is_some() {
                    None
                } else {
                    Some(Ok(negate))
                },
            },
            None => None,
        };
    }
    let left = match &e.left {
        Some(l) => l,
        None => {
            return None;
        },
    };
    let left_key = left.to_string();
    let f = match lookup(vals, left_key.as_str()) {
        Some(f) => f,
        None => {
            return None;
        },
    };
    if op == Op::In || op == Op::NotIn {
        return match &e.right {
            Some(right) => match &right.args {
                Some(args) => match in_args(f, args, vals) {
                    Some(b) => Some(Ok(b != (op == Op::NotIn))),
                    None => None,
                },
                None => None,
            },
            None => None,
        };
    }
    let right = match &e.right {
        Some(r) => r,
        None => {
            return None;
        },
    };
    let right_key = right.to_string();
    let v = match lookup(vals, right_key.as_str()) {
        Some(v) => v,
        None => {
            return None;
        },
    };
    if op == Op::Rx || op == Op::NotRx || op == Op::Like || op == Op::NotLike || op == Op::Eq || op == Op::Ne {
        match (f, v) {
            (Value::Text(a), Value::Text(b)) => {
                return text_pattern(op, a.as_str(), b.as_str());
            },
            _ => {},
        }
    }
    match compare(op, f, v) {
        Some(b) => Some(Ok(b)),
        None => None,
    }
}

/// Decides a condition for a file (see `spec_conforms`).
pub fn conforms(e: &Expr, vals: &Vec<(String, Value)>) -> (r: Option<Result<bool, String>>)
    ensures
        outcome_view(r) == spec_conforms(*e, vals@),
    decreases e,
{
    match e.logical_op {
        Some(lop) => {
            let left = match &e.left {
                Some(l) => conforms(l, vals),
                None => Some(Ok(false)),
            };
            match left {
                Some(Ok(lb)) => {
                    if (lop == LogicalOp::And && !lb) || (lop == LogicalOp::Or && lb) {
                        Some(Ok(lb))
                    } else {
                        match &e.right {
                            Some(r) => conforms(r, vals),
                            None => Some(Ok(false)),
                        }
                    }
                },
                other => other,
            }
        },
        None => match e.op {
            Some(op) => compare_node(e, op, vals),
            None => Some(Ok(false)),
        },
    }
}

/// A directory's level (its root is at level 1) and the base that its
/// subdirectories count from. With the number of components of its
/// canonical path, the level is measured from the base (the root's own
/// count, or this directory's when it is the root, `root_depth` 0), never
/// below 1; without one, it is one below its parent's.
pub fn dir_depth(canonical_depth: Option<u32>, root_depth: u32) -> (r: (u32, u32))
    requires
        canonical_depth is None ==> root_depth < u32::MAX,
    ensures
        match canonical_depth {
            Some(c) => {
                let base = if root_depth == 0 {
                    c
                } else {
                    root_depth
                };
                r.0 == (if c >= base {
                    c - base
                } else {
                    0
                }) + 1 && r.1 == base
            },
            None => r.0 == root_depth + 1 && r.1 == root_depth + 1,
        },
{
    match canonical_depth {
        Some(c) => {
            let base = if root_depth == 0 {
                c
            } else {
                root_depth
            };
            let above = if c >= base {
                c - base
            } else {
                0
            };
            (above + 1, base)
        },
        None => (root_depth + 1, root_depth + 1),
    }
}

/// How the walk goes into a subdirectory: not at all, at once (depth
/// first), or after the rest of the current level (breadth first).
#[derive(Debug, Clone, Copy, PartialEq, Eq, Structural)]
pub enum Descent {
    No,
    Now,
    Later,
}

/// What the walk does with an entry that passes the ignore rules, found
/// in a directory at level `depth`: whether it is checked as a result
/// (from the least depth on), and how the walk goes into it when it is a
/// directory (or a followed link to one) that may be visited, while the
/// greatest depth (0: none) is not reached.
pub fn plan_entry(
    depth: u32,
    min_depth: u32,
    max_depth: u32,
    enterable: bool,
    traversal: TraversalMode,
) -> (r: (bool, Descent))
    ensures
        r.0 == (min_depth == 0 || depth >= min_depth),
        r.1 == if enterable && (max_depth == 0 || depth < max_depth) {
            match traversal {
                TraversalMode::Dfs => Descent::Now,
                TraversalMode::Bfs => Descent::Later,
            }
        } else {
            Descent::No
        },
{
    let check = min_depth == 0 || depth >= min_depth;
    let descent = if enterable && (max_depth == 0 || depth < max_depth) {
        match traversal {
            TraversalMode::Dfs => Descent::Now,
            TraversalMode::Bfs => Descent::Later,
        }
    } else {
        Descent::No
    };
    (check, descent)
}

/// No text comes before itself, and of two texts at most one comes
/// before the other.
pub proof fn lemma_text_order_strict(x: Seq<char>, y: Seq<char>)
    ensures
        !text_lt(x, x),
        !(text_lt(x, y) && text_lt(y, x)),
    decreases x.len(),
{
    if x.len() > 0 {
        lemma_text_order_strict(x.drop_first(), x.drop_first());
    }
    if x.len() > 0 && y.len() > 0 && x[0] == y[0] {
        lemma_text_order_strict(x.drop_first(), y.drop_first());
    }
}

/// Texts come in the order of their characters: `x` comes before `y` when
/// it is a proper beginning of `y`, or when, at the first place `i` where
/// they differ, the character of `x` comes first; `y` then does not come
/// before `x`.
pub proof fn law_text_order(x: Seq<char>, y: Seq<char>, i: int)
    requires
        0 <= i <= x.len(),
        i <= y.len(),
        forall|j: int| 0 <= j < i ==> x[j] == y[j],
        (i == x.len() && i < y.len()) || (i < x.len() && i < y.len() && (x[i] as u32) < (y[i] as u32)),
    ensures
        text_lt(x, y),
        !text_lt(y, x),
    decreases i,
{
    if i > 0 {
        assert(x[0] == y[0]);
        assert forall|j: int| 0 <= j < i - 1 implies x.drop_first()[j] == y.drop_first()[j] by {
            assert(x[j + 1] == y[j + 1]);
        }
        law_text_order(x.drop_first(), y.drop_first(), i - 1);
    }
}

/// For whole numbers each comparison means what its operator says.
pub proof fn law_compare_whole_numbers(a: i64, b: i64)
    ensures
        spec_compare(Op::Eq, Value::Int(a), Value::Int(b)) == Some(a == b),
        spec_compare(Op::Eeq, Value::Int(a), Value::Int(b)) == Some(a == b),
        spec_compare(Op::Ne, Value::Int(a), Value::Int(b)) == Some(a != b),
        spec_compare(Op::Ene, Value::Int(a), Value::Int(b)) == Some(a != b),
        spec_compare(Op::Gt, Value::Int(a), Value::Int(b)) == Some(a > b),
        spec_compare(Op::Gte, Value::Int(a), Value::Int(b)) == Some(a >= b),
        spec_compare(Op::Lt, Value::Int(a), Value::Int(b)) == Some(a < b),
        spec_compare(Op::Lte, Value::Int(a), Value::Int(b)) == Some(a <= b),
{
}

/// The order comparisons agree with one another on values of one kind:
/// `<=` holds where `<` holds or the values are equal (and, for numbers
/// and truth values, only there), `>=` likewise with `>`, `>` is `<` with
/// the sides swapped, `!=` is the negation of `==`, a value is never below
/// itself, and of two values at most one is below the other.
pub proof fn law_compare_consistent(x: Value, y: Value)
    requires
        (x is Int && y is Int) || (x is Text && y is Text) || (x is Bool && y is Bool),
    ensures
        spec_compare(Op::Lt, x, y) is Some,
        spec_compare(Op::Lte, x, y) is Some,
        (spec_compare(Op::Lt, x, y) == Some(true) || spec_compare(Op::Eeq, x, y) == Some(true)) ==> spec_compare(
            Op::Lte,
            x,
            y,
        ) == Some(true),
        (spec_compare(Op::Gt, x, y) == Some(true) || spec_compare(Op::Eeq, x, y) == Some(true)) ==> spec_compare(
            Op::Gte,
            x,
            y,
        ) == Some(true),
        !(x is Text) ==> spec_compare(Op::Lte, x, y) == Some(spec_compare(Op::Lt, x, y) == Some(true)
            || spec_compare(Op::Eeq, x, y) == Some(true)),
        !(x is Text) ==> spec_compare(Op::Gte, x, y) == Some(spec_compare(Op::Gt, x, y) == Some(true)
            || spec_compare(Op::Eeq, x, y) == Some(true)),
        spec_compare(Op::Gt, x, y) == spec_compare(Op::Lt, y, x),
        spec_compare(Op::Ene, x, y) == Some(spec_compare(Op::Eeq, x, y) == Some(false)),
        spec_compare(Op::Lt, x, x) == Some(false),
        spec_compare(Op::Lte, x, x) == Some(true),
        !(spec_compare(Op::Lt, x, y) == Some(true) && spec_compare(Op::Lt, y, x) == Some(true)),
{
    match (x, y) {
        (Value::Text(a), Value::Text(b)) => {
            lemma_text_order_strict(a@, b@);
            lemma_text_order_strict(b@, a@);
        },
        _ => {},
    }
}

/// Of two texts ordered by their characters (see `law_text_order`), the
/// first is below the second: `<` and `<=` hold, `>` and `>=` do not.
pub proof fn law_compare_text_order(x: String, y: String, i: int)
    requires
        0 <= i <= x@.len(),
        i <= y@.len(),
        forall|j: int| 0 <= j < i ==> x@[j] == y@[j],
        (i == x@.len() && i < y@.len()) || (i < x@.len() && i < y@.len() && (x@[i] as u32) < (y@[i] as u32)),
    ensures
        spec_compare(Op::Lt, Value::Text(x), Value::Text(y)) == Some(true),
        spec_compare(Op::Lte, Value::Text(x), Value::Text(y)) == Some(true),
        spec_compare(Op::Gt, Value::Text(x), Value::Text(y)) == Some(false),
        spec_compare(Op::Gte, Value::Text(x), Value::Text(y)) == Some(false),
{
    law_text_order(x@, y@, i);
}

/// The negated text comparisons give the opposite answer: `not like` of
/// `like`, `!~=` of `=~`, and `!=` of `=`; a value without wildcards is
/// equal to itself and to nothing else.
pub proof fn law_text_patterns_negate(f: Seq<char>, v: Seq<char>)
    ensures
        spec_text_pattern(Op::Like, f, v) matches Some(Ok(b)) ==> spec_text_pattern(Op::NotLike, f, v) == Some(
            Ok::<bool, Seq<char>>(!b),
        ),
        spec_text_pattern(Op::Rx, f, v) matches Some(Ok(b)) ==> spec_text_pattern(Op::NotRx, f, v) == Some(
            Ok::<bool, Seq<char>>(!b),
        ),
        spec_text_pattern(Op::Eq, f, v) matches Some(Ok(b)) ==> spec_text_pattern(Op::Ne, f, v) == Some(
            Ok::<bool, Seq<char>>(!b),
        ),
        (spec_text_pattern(Op::Like, f, v) matches Some(Err(_))) <==> (spec_text_pattern(Op::NotLike, f, v) matches Some(Err(_))),
        !spec_is_glob(v) ==> spec_text_pattern(Op::Eq, f, v) == Some(Ok::<bool, Seq<char>>(f == v)),
{
}

/// `and` holds where both sides hold and `or` where either does, once
/// both sides are decided; a side that decides alone (a false left side
/// of `and`, a true left side of `or`) decides the whole.
pub proof fn law_conforms_and_or(e: Expr, vals: Seq<(String, Value)>, l: bool, r: bool)
    requires
        e.left matches Some(x) && spec_conforms(*x, vals) == Some(Ok::<bool, Seq<char>>(l)),
    ensures
        (e.logical_op == Some(LogicalOp::And) && !l) ==> spec_conforms(e, vals) == Some(Ok::<bool, Seq<char>>(false)),
        (e.logical_op == Some(LogicalOp::Or) && l) ==> spec_conforms(e, vals) == Some(Ok::<bool, Seq<char>>(true)),
        (e.right matches Some(y) && spec_conforms(*y, vals) == Some(Ok::<bool, Seq<char>>(r))) ==> ({
            &&& e.logical_op == Some(LogicalOp::And) ==> spec_conforms(e, vals) == Some(Ok::<bool, Seq<char>>(l && r))
            &&& e.logical_op == Some(LogicalOp::Or) ==> spec_conforms(e, vals) == Some(Ok::<bool, Seq<char>>(l || r))
        }),
{
}

/// An `in` list holds the field's value when some item of it matches the
/// value, every item before it being given; it does not when every item
/// is given and none matches.
pub proof fn law_in_list(f: Value, args: Seq<Expr>, vals: Seq<(String, Value)>)
    ensures
        spec_in_args(f, args, vals) == Some(true) ==> exists|i: int|
            0 <= i < args.len() && (spec_lookup(vals, spec_expr_text(#[trigger] args[i])) matches Some(a)
                && spec_item_matches(f, a)),
        (forall|i: int| 0 <= i < args.len() ==> (spec_lookup(vals, spec_expr_text(#[trigger] args[i])) matches Some(
            a,
        ) && !spec_item_matches(f, a))) ==> spec_in_args(f, args, vals) == Some(false),
        (forall|i: int| 0 <= i < args.len() ==> spec_lookup(vals, spec_expr_text(#[trigger] args[i])) is Some) ==> (
        spec_in_args(f, args, vals) == Some(exists|i: int|
            0 <= i < args.len() && (spec_lookup(vals, spec_expr_text(#[trigger] args[i])) matches Some(a)
                && spec_item_matches(f, a)))),
    decreases args.len(),
{
    if args.len() > 0 {
        let rest = args.drop_first();
        law_in_list(f, rest, vals);
        assert forall|i: int| 0 <= i < rest.len() implies rest[i] == args[i + 1] by {}
        if spec_in_args(f, args, vals) == Some(true) && !(spec_lookup(vals, spec_expr_text(args[0])) matches Some(a)
            && spec_item_matches(f, a)) {
            let i = choose|i: int|
                0 <= i < rest.len() && (spec_lookup(vals, spec_expr_text(#[trigger] rest[i])) matches Some(a)
                    && spec_item_matches(f, a));
            assert(args[i + 1] == rest[i]);
        }
        if forall|i: int| 0 <= i < args.len() ==> spec_lookup(vals, spec_expr_text(#[trigger] args[i])) is Some {
            assert(spec_lookup(vals, spec_expr_text(args[0])) is Some);
            assert forall|i: int| 0 <= i < rest.len() implies spec_lookup(vals, spec_expr_text(#[trigger] rest[i]))
                is Some by {
                assert(args[i + 1] == rest[i]);
            }
            let any = exists|i: int|
                0 <= i < args.len() && (spec_lookup(vals, spec_expr_text(#[trigger] args[i])) matches Some(a)
                    && spec_item_matches(f, a));
            let any_rest = exists|i: int|
                0 <= i < rest.len() && (spec_lookup(vals, spec_expr_text(#[trigger] rest[i])) matches Some(a)
                    && spec_item_matches(f, a));
            if any_rest {
                let i = choose|i: int|
                    0 <= i < rest.len() && (spec_lookup(vals, spec_expr_text(#[trigger] rest[i])) matches Some(a)
                        && spec_item_matches(f, a));
                assert(args[i + 1] == rest[i]);
            }
            if any && !any_rest {
                let i = choose|i: int|
                    0 <= i < args.len() && (spec_lookup(vals, spec_expr_text(#[trigger] args[i])) matches Some(a)
                        && spec_item_matches(f, a));
                if i > 0 {
                    assert(rest[i - 1] == args[i]);
                }
            }
        }
        if forall|i: int| 0 <= i < args.len() ==> (spec_lookup(vals, spec_expr_text(#[trigger] args[i])) matches Some(
            a,
        ) && !spec_item_matches(f, a)) {
            assert(spec_lookup(vals, spec_expr_text(args[0])) is Some);
            assert forall|i: int| 0 <= i < rest.len() implies (spec_lookup(vals, spec_expr_text(#[trigger] rest[i]))
                matches Some(a) && !spec_item_matches(f, a)) by {
                assert(args[i + 1] == rest[i]);
            }
        }
    }
}

} // verus!
