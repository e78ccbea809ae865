//! The expression tree that column lists, conditions and orderings parse into.

use vstd::prelude::*;

use crate::field::Field;
use crate::function::Function;
use crate::operators::{ArithmeticOp, LogicalOp, Op};
use crate::query::Query;
use crate::strings::{push_char, push_str};

verus! {

/// Weights add up as 32-bit integers that wrap around.
pub open spec fn wadd(a: i32, b: i32) -> i32 {
    vstd::wrapping::i32_specs::wrapping_add(a, b)
}

#[derive(Debug, PartialEq, Eq, Hash)]
pub struct Expr {
    pub left: Option<Box<Expr>>,
    pub arithmetic_op: Option<ArithmeticOp>,
    pub logical_op: Option<LogicalOp>,
    pub op: Option<Op>,
    pub right: Option<Box<Expr>>,
    pub minus: bool,
    pub field: Option<Field>,
    pub function: Option<Function>,
    pub args: Option<Vec<Expr>>,
    pub val: Option<String>,
    pub subquery: Option<Box<Query>>,
    pub root_alias: Option<String>,
    pub weight: i32,
}

/// The sum of the weights of a list of expressions.
pub open spec fn weights_sum(s: Seq<Expr>) -> i32
    decreases s.len(),
{
    if s.len() == 0 {
        0
    } else {
        wadd(weights_sum(s.drop_last()), s.last().weight)
    }
}

/// Whether an expression, one of its operands or one of its arguments calls
/// an aggregate function.
pub open spec fn spec_has_aggregate(e: Expr) -> bool
    decreases e, 1int,
{
    (e.left matches Some(l) && spec_has_aggregate(*l))
    || (e.right matches Some(r) && spec_has_aggregate(*r))
    || (e.function matches Some(f) && f.spec_is_aggregate())
    || (e.args matches Some(a) && spec_any_has_aggregate(a@))
}

pub open spec fn spec_any_has_aggregate(s: Seq<Expr>) -> bool
    decreases s, 0int,
{
    if s.len() == 0 {
        false
    } else {
        spec_has_aggregate(s[0]) || spec_any_has_aggregate(s.drop_first())
    }
}

/// The fields an expression reads: its own field and those of its operands
/// and arguments (not those of a subquery).
pub open spec fn spec_required_fields(e: Expr) -> Set<Field>
    decreases e, 1int,
{
    let l = match e.left {
        Some(l) => spec_required_fields(*l),
        None => Set::empty(),
    };
    let r = match e.right {
        Some(r) => spec_required_fields(*r),
        None => Set::empty(),
    };
    let f = match e.field {
        Some(f) => set![f],
        None => Set::empty(),
    };
    let a = match e.args {
        Some(a) => spec_all_required_fields(a@),
        None => Set::empty(),
    };
    l + r + f + a
}

pub open spec fn spec_all_required_fields(s: Seq<Expr>) -> Set<Field>
    decreases s, 0int,
{
    if s.len() == 0 {
        Set::empty()
    } else {
        spec_required_fields(s[0]) + spec_all_required_fields(s.drop_first())
    }
}

/// Whether the expression, or the chain of its left operands, is a numeric
/// field or a numeric function.
pub open spec fn spec_contains_numeric(e: Expr) -> bool
    decreases e,
{
    (e.field matches Some(f) && f.spec_is_numeric())
    || (e.function matches Some(f) && f.spec_is_numeric())
    || (e.left matches Some(l) && spec_contains_numeric(*l))
}

/// Whether the expression, or the chain of its left operands, is a date field.
pub open spec fn spec_contains_datetime(e: Expr) -> bool
    decreases e,
{
    (e.field matches Some(f) && f.spec_is_datetime())
    || (e.left matches Some(l) && spec_contains_datetime(*l))
}

/// Whether the expression is a colourised field, or its left chain leads to
/// one without passing through a function.
pub open spec fn spec_contains_colorized(e: Expr) -> bool
    decreases e,
{
    if e.function is Some {
        false
    } else {
        (e.field matches Some(f) && f.spec_is_colorized())
        || (e.left matches Some(l) && spec_contains_colorized(*l))
    }
}

pub open spec fn spec_minus_text(e: Expr) -> Seq<char> {
    if e.minus { seq!['-'] } else { Seq::<char>::empty() }
}

pub open spec fn spec_opt_text(e: Option<Box<Expr>>) -> Seq<char>
    decreases e,
{
    match e {
        Some(l) => spec_expr_text(*l),
        None => Seq::<char>::empty(),
    }
}

pub open spec fn spec_head_text(e: Expr) -> Seq<char>
    decreases e, 2int,
{
    match e.function {
        Some(f) => f.spec_name() + seq!['('] + spec_opt_text(e.left) + seq![')'],
        None => spec_opt_text(e.left),
    }
}

pub open spec fn spec_field_text(e: Expr) -> Seq<char> {
    match e.field {
        Some(f) => match e.root_alias {
            Some(a) => a@ + seq!['.'] + f.spec_name(),
            None => f.spec_name(),
        },
        None => Seq::<char>::empty(),
    }
}

pub open spec fn spec_val_text(e: Expr) -> Seq<char> {
    match e.val {
        Some(v) => v@,
        None => Seq::<char>::empty(),
    }
}

/// The textual form of an expression: a leading `-` when negated, then the
/// function name with its first argument in parentheses (or the left
/// operand), the optionally aliased field, the literal value and the right
/// operand, one after the other.
pub open spec fn spec_expr_text(e: Expr) -> Seq<char>
    decreases e, 3int,
{
    spec_minus_text(e) + spec_head_text(e) + spec_field_text(e) + spec_val_text(e)
        + spec_opt_text(e.right)
}

/// A node that holds nothing but the given weight.
pub open spec fn empty_node(weight: i32) -> Expr {
    Expr {
        left: None,
        arithmetic_op: None,
        logical_op: None,
        op: None,
        right: None,
        minus: false,
        field: None,
        function: None,
        args: None,
        val: None,
        subquery: None,
        root_alias: None,
        weight,
    }
}

/// A copy of an optional string that is the same value.
pub fn clone_opt_string(s: &Option<String>) -> (r: Option<String>)
    ensures
        r == *s,
{
    match s {
        Some(s) => Some(s.clone()),
        None => None,
    }
}

impl Expr {
    /// An empty expression: no operands, no field, function or value, weight 0.
    pub fn new() -> (r: Expr)
        ensures
            r == empty_node(0),
    {
        Expr {
            left: None,
            arithmetic_op: None,
            logical_op: None,
            op: None,
            right: None,
            minus: false,
            field: None,
            function: None,
            args: None,
            val: None,
            subquery: None,
            root_alias: None,
            weight: 0,
        }
    }

    /// A comparison of two operands; its weight is the sum of theirs.
    pub fn op(left: Expr, op: Op, right: Expr) -> (r: Expr)
        ensures
            r == (Expr {
                left: Some(Box::new(left)),
                op: Some(op),
                right: Some(Box::new(right)),
                ..empty_node(wadd(left.weight, right.weight))
            }),
    {
        let w = left.weight.wrapping_add(right.weight);
        Expr {
            left: Some(Box::new(left)),
            arithmetic_op: None,
            logical_op: None,
            op: Some(op),
            right: Some(Box::new(right)),
            minus: false,
            field: None,
            function: None,
            args: None,
            val: None,
            subquery: None,
            root_alias: None,
            weight: w,
        }
    }

    /// An `and`/`or` of two conditions; its weight is the sum of theirs.
    pub fn logical_op(left: Expr, logical_op: LogicalOp, right: Expr) -> (r: Expr)
        ensures
            r == (Expr {
                left: Some(Box::new(left)),
                logical_op: Some(logical_op),
                right: Some(Box::new(right)),
                ..empty_node(wadd(left.weight, right.weight))
            }),
    {
        let w = left.weight.wrapping_add(right.weight);
        Expr {
            left: Some(Box::new(left)),
            arithmetic_op: None,
            logical_op: Some(logical_op),
            op: None,
            right: Some(Box::new(right)),
            minus: false,
            field: None,
            function: None,
            args: None,
            val: None,
            subquery: None,
            root_alias: None,
            weight: w,
        }
    }

    /// An arithmetic combination of two operands; its weight is the sum of theirs.
    pub fn arithmetic_op(left: Expr, arithmetic_op: ArithmeticOp, right: Expr) -> (r: Expr)
        ensures
            r == (Expr {
                left: Some(Box::new(left)),
                arithmetic_op: Some(arithmetic_op),
                right: Some(Box::new(right)),
                ..empty_node(wadd(left.weight, right.weight))
            }),
    {
        let w = left.weight.wrapping_add(right.weight);
        Expr {
            left: Some(Box::new(left)),
            arithmetic_op: Some(arithmetic_op),
            logical_op: None,
            op: None,
            right: Some(Box::new(right)),
            minus: false,
            field: None,
            function: None,
            args: None,
            val: None,
            subquery: None,
            root_alias: None,
            weight: w,
        }
    }

    /// A reference to a file field, weighted as the field.
    pub fn field(field: Field) -> (r: Expr)
        ensures
            r == (Expr { field: Some(field), ..empty_node(field.spec_weight()) }),
    {
        let weight = field.get_weight();
        Expr {
            left: None,
            arithmetic_op: None,
            logical_op: None,
            op: None,
            right: None,
            minus: false,
            field: Some(field),
            function: None,
            args: None,
            val: None,
            subquery: None,
            root_alias: None,
            weight,
        }
    }

    /// A reference to a field of the root that carries the given alias.
    pub fn field_with_root_alias(field: Field, root_alias: Option<String>) -> (r: Expr)
        ensures
            r == (Expr {
                field: Some(field),
                root_alias: root_alias,
                ..empty_node(field.spec_weight())
            }),
    {
        let weight = field.get_weight();
        Expr {
            left: None,
            arithmetic_op: None,
            logical_op: None,
            op: None,
            right: None,
            minus: false,
            field: Some(field),
            function: None,
            args: None,
            val: None,
            subquery: None,
            root_alias,
            weight,
        }
    }

    /// A call of a function with no argument yet (an empty argument list).
    pub fn function(function: Function) -> (r: Expr)
        ensures
            r.function == Some(function),
            r.args matches Some(a) && a@.len() == 0,
            r == (Expr { function: Some(function), args: r.args, ..empty_node(function.spec_weight()) }),
    {
        let weight = function.get_weight();
        Expr {
            left: None,
            arithmetic_op: None,
            logical_op: None,
            op: None,
            right: None,
            minus: false,
            field: None,
            function: Some(function),
            args: Some(Vec::new()),
            val: None,
            subquery: None,
            root_alias: None,
            weight,
        }
    }

    /// A call of a function on a first argument; the weight adds the argument's.
    pub fn function_left(function: Function, left: Option<Box<Expr>>) -> (r: Expr)
        ensures
            r.args matches Some(a) && a@.len() == 0,
            r == (Expr {
                left: left,
                function: Some(function),
                args: r.args,
                ..empty_node(
                    wadd(
                        function.spec_weight(),
                        match left {
                            Some(e) => e.weight,
                            None => 0,
                        },
                    ),
                )
            }),
    {
        let weight = function.get_weight();
        let left_weight = match left {
            Some(ref expr) => expr.weight,
            None => 0,
        };
        Expr {
            left,
            arithmetic_op: None,
            logical_op: None,
            op: None,
            right: None,
            minus: false,
            field: None,
            function: Some(function),
            args: Some(Vec::new()),
            val: None,
            subquery: None,
            root_alias: None,
            weight: weight.wrapping_add(left_weight),
        }
    }

    /// A literal value.
    pub fn value(value: String) -> (r: Expr)
        ensures
            r == (Expr { val: Some(value), ..empty_node(0) }),
    {
        Expr {
            left: None,
            arithmetic_op: None,
            logical_op: None,
            op: None,
            right: None,
            minus: false,
            field: None,
            function: None,
            args: None,
            val: Some(value),
            subquery: None,
            root_alias: None,
            weight: 0,
        }
    }

    /// A nested query, weighted as its condition.
    pub fn subquery(subquery: Query) -> (r: Expr)
        ensures
            r == (Expr {
                subquery: Some(Box::new(subquery)),
                ..empty_node(
                    match subquery.expr {
                        Some(e) => e.weight,
                        None => 0,
                    },
                )
            }),
    {
        let weight = match subquery.expr {
            Some(ref expr) => expr.weight,
            None => 0,
        };
        Expr {
            left: None,
            arithmetic_op: None,
            logical_op: None,
            op: None,
            right: None,
            minus: false,
            field: None,
            function: None,
            args: None,
            val: None,
            subquery: Some(Box::new(subquery)),
            root_alias: None,
            weight,
        }
    }

    /// Sets the left operand (a function's first argument) and adds its weight.
    pub fn add_left(&mut self, left: Expr)
        ensures
            *final(self) == (Expr {
                left: Some(Box::new(left)),
                weight: wadd(old(self).weight, left.weight),
                ..*old(self)
            }),
    {
        let left_weight = left.weight;
        self.left = Some(Box::new(left));
        self.weight = self.weight.wrapping_add(left_weight);
    }

    /// Sets the further arguments and adds their weights.
    pub fn set_args(&mut self, args: Vec<Expr>)
        ensures
            *final(self) == (Expr {
                args: Some(args),
                weight: wadd(old(self).weight, weights_sum(args@)),
                ..*old(self)
            }),
    {
        let mut args_weight: i32 = 0;
        let mut i: usize = 0;
        while i < args.len()
            invariant
                i <= args@.len(),
                args_weight == weights_sum(args@.take(i as int)),
            decreases args@.len() - i,
        {
            assert(args@.take(i + 1).drop_last() =~= args@.take(i as int));
            args_weight = args_weight.wrapping_add(args[i].weight);
            i = i + 1;
        }
        assert(args@.take(args@.len() as int) =~= args@);
        self.args = Some(args);
        self.weight = self.weight.wrapping_add(args_weight);
    }

    /// Whether the expression calls an aggregate function anywhere in its
    /// operands or arguments.
    pub fn has_aggregate_function(&self) -> (r: bool)
        ensures
            r == spec_has_aggregate(*self),
        decreases *self,
    {
        if let Some(ref left) = self.left {
            if left.has_aggregate_function() {
                return true;
            }
        }
        if let Some(ref right) = self.right {
            if right.has_aggregate_function() {
                return true;
            }
        }
        if let Some(ref function) = self.function {
            if function.is_aggregate_function() {
                return true;
            }
        }
        if let Some(ref args) = self.args {
            assert(args@.skip(0) =~= args@);
            return Self::any_has_aggregate(args, 0);
        }
        false
    }

    fn any_has_aggregate(args: &Vec<Expr>, i: usize) -> (r: bool)
        requires
            i <= args@.len(),
        ensures
            r == spec_any_has_aggregate(args@.skip(i as int)),
        decreases args@, args@.len() - i,
    {
        if i >= args.len() {
            return false;
        }
        assert(args@.skip(i as int).drop_first() =~= args@.skip(i + 1));
        if args[i].has_aggregate_function() {
            return true;
        }
        Self::any_has_aggregate(args, i + 1)
    }

    /// The fields the expression reads, each once.
    pub fn get_required_fields(&self) -> (r: Vec<Field>)
        ensures
            r@.to_set() == spec_required_fields(*self),
            r@.no_duplicates(),
        decreases *self,
    {
        let mut result: Vec<Field> = Vec::new();
        if let Some(ref left) = self.left {
            let l = left.get_required_fields();
            extend_unique(&mut result, &l);
        }
        if let Some(ref right) = self.right {
            let r = right.get_required_fields();
            extend_unique(&mut result, &r);
        }
        if let Some(field) = self.field {
            let single = vec![field];
            extend_unique(&mut result, &single);
            assert(single@.to_set() =~= set![field]);
        }
        if let Some(ref args) = self.args {
            let a = Self::all_required_fields(args, 0);
            extend_unique(&mut result, &a);
            assert(args@.skip(0) =~= args@);
        }
        proof {
            let e = *self;
            let l = match e.left {
                Some(l) => spec_required_fields(*l),
                None => Set::<Field>::empty(),
            };
            let r = match e.right {
                Some(r) => spec_required_fields(*r),
                None => Set::<Field>::empty(),
            };
            let f = match e.field {
                Some(f) => set![f],
                None => Set::<Field>::empty(),
            };
            let a = match e.args {
                Some(a) => spec_all_required_fields(a@),
                None => Set::<Field>::empty(),
            };
            assert(result@.to_set() =~= l + r + f + a);
        }
        result
    }

    fn all_required_fields(args: &Vec<Expr>, i: usize) -> (r: Vec<Field>)
        requires
            i <= args@.len(),
        ensures
            r@.to_set() == spec_all_required_fields(args@.skip(i as int)),
            r@.no_duplicates(),
        decreases args@, args@.len() - i,
    {
        if i >= args.len() {
            assert(Seq::<Field>::empty().to_set() =~= Set::<Field>::empty());
            return Vec::new();
        }
        assert(args@.skip(i as int).drop_first() =~= args@.skip(i + 1));
        let mut first = args[i].get_required_fields();
        let rest = Self::all_required_fields(args, i + 1);
        extend_unique(&mut first, &rest);
        first
    }

    /// Whether the expression (or its left chain) is numeric.
    pub fn contains_numeric(&self) -> (r: bool)
        ensures
            r == spec_contains_numeric(*self),
    {
        Self::contains_numeric_field(self)
    }

    fn contains_numeric_field(expr: &Expr) -> (r: bool)
        ensures
            r == spec_contains_numeric(*expr),
        decreases *expr,
    {
        let field = match expr.field {
            Some(ref field) => field.is_numeric_field(),
            None => false,
        };
        if field {
            return true;
        }
        let function = match expr.function {
            Some(ref function) => function.is_numeric_function(),
            None => false,
        };
        if function {
            return true;
        }
        match expr.left {
            Some(ref left) => Self::contains_numeric_field(left),
            None => false,
        }
    }

    /// Whether the expression (or its left chain) is a date field.
    pub fn contains_datetime(&self) -> (r: bool)
        ensures
            r == spec_contains_datetime(*self),
    {
        Self::contains_datetime_field(self)
    }

    fn contains_datetime_field(expr: &Expr) -> (r: bool)
        ensures
            r == spec_contains_datetime(*expr),
        decreases *expr,
    {
        let field = match expr.field {
            Some(ref field) => field.is_datetime_field(),
            None => false,
        };
        if field {
            return true;
        }
        match expr.left {
            Some(ref left) => Self::contains_datetime_field(left),
            None => false,
        }
    }

    /// Whether the expression (or its left chain, up to a function) is a
    /// colourised field.
    pub fn contains_colorized(&self) -> (r: bool)
        ensures
            r == spec_contains_colorized(*self),
    {
        Self::contains_colorized_field(self)
    }

    fn contains_colorized_field(expr: &Expr) -> (r: bool)
        ensures
            r == spec_contains_colorized(*expr),
        decreases *expr,
    {
        if expr.function.is_some() {
            return false;
        }
        let field = match expr.field {
            Some(ref field) => field.is_colorized_field(),
            None => false,
        };
        if field {
            return true;
        }
        match expr.left {
            Some(ref left) => Self::contains_colorized_field(left),
            None => false,
        }
    }

    /// The expression's textual form (see `spec_expr_text`).
    pub fn to_string(&self) -> (r: String)
        ensures
            r@ == spec_expr_text(*self),
        decreases *self, 3int,
    {
        let mut s = String::new();
        if self.minus {
            push_char(&mut s, '-');
        }
        assert(s@ =~= spec_minus_text(*self));
        let head = self.head_text();
        push_str(&mut s, head.as_str());
        let field = self.field_text();
        push_str(&mut s, field.as_str());
        if let Some(ref val) = self.val {
            push_str(&mut s, val.as_str());
        }
        assert(s@ =~= spec_minus_text(*self) + spec_head_text(*self) + spec_field_text(*self) + spec_val_text(*self));
        let right = Self::opt_text(&self.right);
        push_str(&mut s, right.as_str());
        s
    }

    fn opt_text(e: &Option<Box<Expr>>) -> (r: String)
        ensures
            r@ == spec_opt_text(*e),
        decreases *e,
    {
        match e {
            Some(l) => l.to_string(),
            None => String::new(),
        }
    }

    fn head_text(&self) -> (r: String)
        ensures
            r@ == spec_head_text(*self),
        decreases *self, 2int,
    {
        match self.function {
            Some(ref function) => {
                let mut s = String::new();
                push_str(&mut s, function.name());
                push_char(&mut s, '(');
                let inner = Self::opt_text(&self.left);
                push_str(&mut s, inner.as_str());
                push_char(&mut s, ')');
                assert(s@ =~= function.spec_name() + seq!['('] + spec_opt_text(self.left) + seq![')']);
                s
            },
            None => Self::opt_text(&self.left),
        }
    }

    fn field_text(&self) -> (r: String)
        ensures
            r@ == spec_field_text(*self),
    {
        let mut s = String::new();
        if let Some(ref field) = self.field {
            if let Some(ref root_alias) = self.root_alias {
                push_str(&mut s, root_alias.as_str());
                push_char(&mut s, '.');
            }
            push_str(&mut s, field.name());
        }
        assert(s@ =~= spec_field_text(*self));
        s
    }
}

/// Two optional strings with the same characters.
pub open spec fn opt_str_eq(a: Option<String>, b: Option<String>) -> bool {
    match (a, b) {
        (Some(x), Some(y)) => x@ == y@,
        (None, None) => true,
        _ => false,
    }
}

/// Two expressions that are the same tree: equal operators, fields,
/// functions, flags and weights, texts with the same characters, and
/// operands, arguments and subqueries that are the same in turn.
pub open spec fn expr_eq(a: Expr, b: Expr) -> bool
    decreases a, 2int,
{
    &&& a.arithmetic_op == b.arithmetic_op
    &&& a.logical_op == b.logical_op
    &&& a.op == b.op
    &&& a.minus == b.minus
    &&& a.field == b.field
    &&& a.function == b.function
    &&& a.weight == b.weight
    &&& opt_str_eq(a.val, b.val)
    &&& opt_str_eq(a.root_alias, b.root_alias)
    &&& match (a.left, b.left) {
        (Some(x), Some(y)) => expr_eq(*x, *y),
        (None, None) => true,
        _ => false,
    }
    &&& match (a.right, b.right) {
        (Some(x), Some(y)) => expr_eq(*x, *y),
        (None, None) => true,
        _ => false,
    }
    &&& match (a.args, b.args) {
        (Some(x), Some(y)) => exprs_eq(x@, y@),
        (None, None) => true,
        _ => false,
    }
    &&& match (a.subquery, b.subquery) {
        (Some(x), Some(y)) => query_eq(*x, *y),
        (None, None) => true,
        _ => false,
    }
}

/// Two lists of expressions that are the same, element by element.
pub open spec fn exprs_eq(a: Seq<Expr>, b: Seq<Expr>) -> bool
    decreases a, 1int,
{
    if a.len() == 0 {
        b.len() == 0
    } else {
        b.len() > 0 && expr_eq(a[0], b[0]) && exprs_eq(a.drop_first(), b.drop_first())
    }
}

/// Lists are the same exactly when they have the same length and the same
/// expression at every position.
pub proof fn lemma_exprs_eq_pointwise(a: Seq<Expr>, b: Seq<Expr>)
    ensures
        exprs_eq(a, b) <==> (a.len() == b.len() && forall|i: int|
            0 <= i < a.len() ==> #[trigger] expr_eq(a[i], b[i])),
    decreases a.len(),
{
    if a.len() > 0 && b.len() > 0 {
        lemma_exprs_eq_pointwise(a.drop_first(), b.drop_first());
        if a.len() == b.len() && forall|i: int| 0 <= i < a.len() ==> #[trigger] expr_eq(a[i], b[i]) {
            assert forall|i: int| 0 <= i < a.drop_first().len() implies #[trigger] expr_eq(
                a.drop_first()[i],
                b.drop_first()[i],
            ) by {
                assert(expr_eq(a[i + 1], b[i + 1]));
            }
            assert(expr_eq(a[0], b[0]));
        }
        if exprs_eq(a, b) {
            assert forall|i: int| 0 <= i < a.len() implies #[trigger] expr_eq(a[i], b[i]) by {
                if i > 0 {
                    assert(expr_eq(a.drop_first()[i - 1], b.drop_first()[i - 1]));
                }
            }
        }
    }
}

/// Two queries that are the same: equal roots, limits and formats, and the
/// same expressions in each of their lists.
pub open spec fn query_eq(a: Query, b: Query) -> bool
    decreases a, 1int,
{
    &&& exprs_eq(a.fields@, b.fields@)
    &&& a.roots@ == b.roots@
    &&& match (a.expr, b.expr) {
        (Some(x), Some(y)) => expr_eq(x, y),
        (None, None) => true,
        _ => false,
    }
    &&& exprs_eq(a.grouping_fields@, b.grouping_fields@)
    &&& exprs_eq(a.ordering_fields@, b.ordering_fields@)
    &&& a.ordering_asc@ == b.ordering_asc@
    &&& a.limit == b.limit
    &&& a.offset == b.offset
    &&& a.output_format == b.output_format
    &&& a.raw_query@ == b.raw_query@
}

impl Expr {
    /// A copy that is the same value, operands, arguments and subquery included.
    pub fn duplicate(&self) -> (r: Expr)
        ensures
            expr_eq(r, *self),
        decreases *self, 2int,
    {
        let left = match self.left {
            Some(ref l) => Some(Box::new(l.duplicate())),
            None => None,
        };
        let right = match self.right {
            Some(ref r) => Some(Box::new(r.duplicate())),
            None => None,
        };
        let args = match self.args {
            Some(ref a) => Some(duplicate_exprs(a)),
            None => None,
        };
        let subquery = match self.subquery {
            Some(ref q) => Some(Box::new(q.duplicate())),
            None => None,
        };
        Expr {
            left,
            arithmetic_op: self.arithmetic_op,
            logical_op: self.logical_op,
            op: self.op,
            right,
            minus: self.minus,
            field: self.field,
            function: self.function,
            args,
            val: clone_opt_string(&self.val),
            subquery,
            root_alias: clone_opt_string(&self.root_alias),
            weight: self.weight,
        }
    }
}

/// A copy of a list of expressions that is the same value.
pub fn duplicate_exprs(v: &Vec<Expr>) -> (r: Vec<Expr>)
    ensures
        exprs_eq(r@, v@),
    decreases v@, 1int,
{
    let mut r: Vec<Expr> = Vec::new();
    let mut i: usize = 0;
    while i < v.len()
        invariant
            i <= v@.len(),
            r@.len() == i,
            forall|j: int| 0 <= j < i ==> #[trigger] expr_eq(r@[j], v@[j]),
        decreases v@.len() - i,
    {
        assert(decreases_to!(v@ => v@[i as int]));
        let e = v[i].duplicate();
        r.push(e);
        i = i + 1;
    }
    assert(r@.len() == v@.len());
    proof {
        lemma_exprs_eq_pointwise(r@, v@);
    }
    r
}

impl Query {
    /// A copy that is the same value.
    pub fn duplicate(&self) -> (r: Query)
        ensures
            query_eq(r, *self),
        decreases *self, 1int,
    {
        let mut roots: Vec<crate::query::Root> = Vec::new();
        let mut i: usize = 0;
        while i < self.roots.len()
            invariant
                i <= self.roots@.len(),
                roots@ == self.roots@.take(i as int),
            decreases self.roots@.len() - i,
        {
            roots.push(self.roots[i].duplicate());
            assert(roots@ =~= self.roots@.take(i + 1));
            i = i + 1;
        }
        assert(self.roots@.take(self.roots@.len() as int) =~= self.roots@);
        let mut asc: Vec<bool> = Vec::new();
        let mut j: usize = 0;
        while j < self.ordering_asc.len()
            invariant
                j <= self.ordering_asc@.len(),
                asc@ == self.ordering_asc@.take(j as int),
            decreases self.ordering_asc@.len() - j,
        {
            asc.push(self.ordering_asc[j]);
            assert(asc@ =~= self.ordering_asc@.take(j + 1));
            j = j + 1;
        }
        assert(self.ordering_asc@.take(self.ordering_asc@.len() as int) =~= self.ordering_asc@);
        Query {
            fields: duplicate_exprs(&self.fields),
            roots,
            expr: match self.expr {
                Some(ref e) => Some(e.duplicate()),
                None => None,
            },
            grouping_fields: duplicate_exprs(&self.grouping_fields),
            ordering_fields: duplicate_exprs(&self.ordering_fields),
            ordering_asc: asc,
            limit: self.limit,
            offset: self.offset,
            output_format: self.output_format,
            raw_query: self.raw_query.clone(),
        }
    }
}

/// Appends the fields of `more` that `acc` does not hold yet.
pub fn extend_unique(acc: &mut Vec<Field>, more: &Vec<Field>)
    requires
        old(acc)@.no_duplicates(),
    ensures
        final(acc)@.no_duplicates(),
        final(acc)@.to_set() == old(acc)@.to_set() + more@.to_set(),
{
    let ghost orig = acc@;
    let mut i: usize = 0;
    while i < more.len()
        invariant
            i <= more@.len(),
            acc@.no_duplicates(),
            acc@.to_set() == orig.to_set() + more@.take(i as int).to_set(),
        decreases more@.len() - i,
    {
        let f = more[i];
        let mut found = false;
        let mut j: usize = 0;
        while j < acc.len()
            invariant
                j <= acc@.len(),
                found == (exists|k: int| 0 <= k < j && acc@[k] == f),
            decreases acc@.len() - j,
        {
            if acc[j] == f {
                found = true;
            }
            j = j + 1;
        }
        proof {
            assert(more@.take(i + 1) =~= more@.take(i as int).push(f));
            broadcast use vstd::seq_lib::group_seq_properties;
        }
        let ghost prev_more = more@.take(i as int);
        if !found {
            let ghost before = acc@;
            acc.push(f);
            proof {
                assert(acc@ =~= before.push(f));
                assert(!before.contains(f));
                broadcast use vstd::seq_lib::group_seq_properties;
                assert(before.to_set() == orig.to_set() + prev_more.to_set());
                assert forall|x: Field| acc@.to_set().contains(x) <==> (orig.to_set() + more@.take(i + 1).to_set()).contains(x) by {
                    assert(acc@.contains(x) <==> (before.contains(x) || x == f));
                    assert(more@.take(i + 1).contains(x) <==> (prev_more.contains(x) || x == f));
                    assert(more@.take(i + 1).to_set().contains(x) <==> more@.take(i + 1).contains(x));
                    assert(prev_more.to_set().contains(x) <==> prev_more.contains(x));
                    assert(before.to_set().contains(x) <==> before.contains(x));
                    assert(acc@.to_set().contains(x) <==> acc@.contains(x));
                }
                assert(acc@.to_set() =~= orig.to_set() + more@.take(i + 1).to_set());
            }
        } else {
            proof {
                assert(acc@.contains(f));
                broadcast use vstd::seq_lib::group_seq_properties;
                assert(acc@.to_set().contains(f));
                assert(acc@.to_set() == orig.to_set() + prev_more.to_set());
                assert forall|x: Field| acc@.to_set().contains(x) <==> (orig.to_set() + more@.take(i + 1).to_set()).contains(x) by {
                    assert(more@.take(i + 1).contains(x) <==> (prev_more.contains(x) || x == f));
                    assert(more@.take(i + 1).to_set().contains(x) <==> more@.take(i + 1).contains(x));
                    assert(prev_more.to_set().contains(x) <==> prev_more.contains(x));
                    if x == f {
                        assert((orig.to_set() + prev_more.to_set()).contains(x));
                    }
                }
                assert(acc@.to_set() =~= orig.to_set() + more@.take(i + 1).to_set());
            }
        }
        i = i + 1;
    }
    assert(more@.take(more@.len() as int) =~= more@);
}

} // verus!
