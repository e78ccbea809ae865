//! The comparison, logical and arithmetic operators of the query language.

use vstd::prelude::*;

use crate::strings::{str_eq, to_lowercase, unicode_lowercase};

verus! {

#[derive(Debug, Clone, Copy, PartialEq, Eq, Hash, Structural)]
pub enum LogicalOp {
    And,
    Or,
}

impl LogicalOp {
    pub open spec fn spec_negate(self) -> LogicalOp {
        match self {
            LogicalOp::And => LogicalOp::Or,
            LogicalOp::Or => LogicalOp::And,
        }
    }

    /// De Morgan's swap: `and` becomes `or` and back.
    pub fn negate(&self) -> (r: LogicalOp)
        ensures
            r == self.spec_negate(),
    {
        match self {
            LogicalOp::And => LogicalOp::Or,
            LogicalOp::Or => LogicalOp::And,
        }
    }
}

#[derive(Debug, Clone, Copy, PartialEq, Eq, Hash, Structural)]
pub enum Op {
    Eq,
    Ne,
    Eeq,
    Ene,
    Gt,
    Gte,
    Lt,
    Lte,
    Rx,
    NotRx,
    Like,
    NotLike,
    Between,
    NotBetween,
    In,
    NotIn,
    Exists,
    NotExists,
}

/// The comparison operator that a lower-case spelling names.
pub open spec fn spec_op_from_lower(t: Seq<char>) -> Option<Op> {
    if t == "="@ || t == "=="@ || t == "eq"@ {
        Some(Op::Eq)
    } else if t == "!="@ || t == "<>"@ || t == "ne"@ {
        Some(Op::Ne)
    } else if t == "==="@ || t == "eeq"@ {
        Some(Op::Eeq)
    } else if t == "!=="@ || t == "ene"@ {
        Some(Op::Ene)
    } else if t == ">"@ || t == "gt"@ {
        Some(Op::Gt)
    } else if t == ">="@ || t == "gte"@ || t == "ge"@ {
        Some(Op::Gte)
    } else if t == "<"@ || t == "lt"@ {
        Some(Op::Lt)
    } else if t == "<="@ || t == "lte"@ || t == "le"@ {
        Some(Op::Lte)
    } else if t == "~="@ || t == "=~"@ || t == "regexp"@ || t == "rx"@ {
        Some(Op::Rx)
    } else if t == "!=~"@ || t == "!~="@ || t == "notrx"@ {
        Some(Op::NotRx)
    } else if t == "like"@ {
        Some(Op::Like)
    } else if t == "notlike"@ {
        Some(Op::NotLike)
    } else if t == "between"@ {
        Some(Op::Between)
    } else if t == "notbetween"@ {
        Some(Op::NotBetween)
    } else if t == "in"@ {
        Some(Op::In)
    } else if t == "notin"@ {
        Some(Op::NotIn)
    } else if t == "exists"@ {
        Some(Op::Exists)
    } else if t == "notexists"@ {
        Some(Op::NotExists)
    } else {
        None
    }
}

/// The comparison operator that a spelling names, matched without regard to case.
pub open spec fn spec_op_from(t: Seq<char>) -> Option<Op> {
    spec_op_from_lower(unicode_lowercase(t))
}

pub open spec fn spec_op_negate(op: Op) -> Op {
    match op {
        Op::Eq => Op::Ne,
        Op::Ne => Op::Eq,
        Op::Eeq => Op::Ene,
        Op::Ene => Op::Eeq,
        Op::Gt => Op::Lte,
        Op::Lte => Op::Gt,
        Op::Lt => Op::Gte,
        Op::Gte => Op::Lt,
        Op::Rx => Op::NotRx,
        Op::NotRx => Op::Rx,
        Op::Like => Op::NotLike,
        Op::NotLike => Op::Like,
        Op::Between => Op::NotBetween,
        Op::NotBetween => Op::Between,
        Op::In => Op::NotIn,
        Op::NotIn => Op::In,
        Op::Exists => Op::NotExists,
        Op::NotExists => Op::Exists,
    }
}

pub open spec fn spec_op_from_with_not(t: Seq<char>, not: bool) -> Option<Op> {
    match spec_op_from(t) {
        Some(op) => if not {
            Some(spec_op_negate(op))
        } else {
            Some(op)
        },
        None => None,
    }
}

fn op_from_lower(t: &str) -> (r: Option<Op>)
    ensures
        r == spec_op_from_lower(t@),
{
    if str_eq(t, "=") || str_eq(t, "==") || str_eq(t, "eq") {
        Some(Op::Eq)
    } else if str_eq(t, "!=") || str_eq(t, "<>") || str_eq(t, "ne") {
        Some(Op::Ne)
    } else if str_eq(t, "===") || str_eq(t, "eeq") {
        Some(Op::Eeq)
    } else if str_eq(t, "!==") || str_eq(t, "ene") {
        Some(Op::Ene)
    } else if str_eq(t, ">") || str_eq(t, "gt") {
        Some(Op::Gt)
    } else if str_eq(t, ">=") || str_eq(t, "gte") || str_eq(t, "ge") {
        Some(Op::Gte)
    } else if str_eq(t, "<") || str_eq(t, "lt") {
        Some(Op::Lt)
    } else if str_eq(t, "<=") || str_eq(t, "lte") || str_eq(t, "le") {
        Some(Op::Lte)
    } else if str_eq(t, "~=") || str_eq(t, "=~") || str_eq(t, "regexp") || str_eq(t, "rx") {
        Some(Op::Rx)
    } else if str_eq(t, "!=~") || str_eq(t, "!~=") || str_eq(t, "notrx") {
        Some(Op::NotRx)
    } else if str_eq(t, "like") {
        Some(Op::Like)
    } else if str_eq(t, "notlike") {
        Some(Op::NotLike)
    } else if str_eq(t, "between") {
        Some(Op::Between)
    } else if str_eq(t, "notbetween") {
        Some(Op::NotBetween)
    } else if str_eq(t, "in") {
        Some(Op::In)
    } else if str_eq(t, "notin") {
        Some(Op::NotIn)
    } else if str_eq(t, "exists") {
        Some(Op::Exists)
    } else if str_eq(t, "notexists") {
        Some(Op::NotExists)
    } else {
        None
    }
}

impl Op {
    /// The operator a spelling names (`=`, `gte`, `=~`, `notlike`, ...),
    /// compared after Unicode lower-casing; `None` for anything else.
    pub fn from(text: String) -> (r: Option<Op>)
        ensures
            r == spec_op_from(text@),
    {
        let lower = to_lowercase(text.as_str());
        op_from_lower(lower.as_str())
    }

    /// The operator a spelling names, replaced by its negation when `not` is set.
    pub fn from_with_not(text: String, not: bool) -> (r: Option<Op>)
        ensures
            r == spec_op_from_with_not(text@, not),
    {
        let op = Op::from(text);
        match op {
            Some(op) if not => Some(Self::negate(op)),
            _ => op,
        }
    }

    /// The complementary operator: equality and inequality swap, `>` becomes
    /// `<=`, and every positive test becomes its `not` form and back.
    pub fn negate(op: Op) -> (r: Op)
        ensures
            r == spec_op_negate(op),
    {
        match op {
            Op::Eq => Op::Ne,
            Op::Ne => Op::Eq,
            Op::Eeq => Op::Ene,
            Op::Ene => Op::Eeq,
            Op::Gt => Op::Lte,
            Op::Lte => Op::Gt,
            Op::Lt => Op::Gte,
            Op::Gte => Op::Lt,
            Op::Rx => Op::NotRx,
            Op::NotRx => Op::Rx,
            Op::Like => Op::NotLike,
            Op::NotLike => Op::Like,
            Op::Between => Op::NotBetween,
            Op::NotBetween => Op::Between,
            Op::In => Op::NotIn,
            Op::NotIn => Op::In,
            Op::Exists => Op::NotExists,
            Op::NotExists => Op::Exists,
        }
    }
}

/// Negating a comparison twice gives the comparison back.
pub proof fn lemma_op_negate_involutive(op: Op)
    ensures
        spec_op_negate(spec_op_negate(op)) == op,
{
}

/// Negation always changes the comparison.
pub proof fn lemma_op_negate_changes(op: Op)
    ensures
        spec_op_negate(op) != op,
{
}

/// Swapping `and` and `or` twice gives the connective back.
pub proof fn lemma_logical_negate_involutive(op: LogicalOp)
    ensures
        op.spec_negate().spec_negate() == op,
{
}

/// Reading an operator with `not` and reading it without, then negating,
/// agree; an unknown spelling is unknown either way.
pub proof fn lemma_from_with_not_is_negated_from(t: Seq<char>)
    ensures
        spec_op_from_with_not(t, false) == spec_op_from(t),
        spec_op_from_with_not(t, true) == match spec_op_from(t) {
            Some(op) => Some(spec_op_negate(op)),
            None => None::<Op>,
        },
{
}

#[derive(Debug, Clone, Copy, PartialEq, Eq, Hash, Structural)]
pub enum ArithmeticOp {
    Add,
    Subtract,
    Divide,
    Multiply,
    Modulo,
}

/// The arithmetic operator that a lower-case spelling names.
pub open spec fn spec_arithmetic_op_from_lower(t: Seq<char>) -> Option<ArithmeticOp> {
    if t == "+"@ || t == "plus"@ {
        Some(ArithmeticOp::Add)
    } else if t == "-"@ || t == "minus"@ {
        Some(ArithmeticOp::Subtract)
    } else if t == "*"@ || t == "mul"@ {
        Some(ArithmeticOp::Multiply)
    } else if t == "/"@ || t == "div"@ {
        Some(ArithmeticOp::Divide)
    } else if t == "%"@ || t == "mod"@ {
        Some(ArithmeticOp::Modulo)
    } else {
        None
    }
}

pub open spec fn spec_arithmetic_op_from(t: Seq<char>) -> Option<ArithmeticOp> {
    spec_arithmetic_op_from_lower(unicode_lowercase(t))
}

impl ArithmeticOp {
    /// The arithmetic operator a spelling names (`+`, `minus`, `*`, `div`,
    /// `mod`, ...), compared after Unicode lower-casing; `None` otherwise.
    pub fn from(text: String) -> (r: Option<ArithmeticOp>)
        ensures
            r == spec_arithmetic_op_from(text@),
    {
        let lower = to_lowercase(text.as_str());
        let t = lower.as_str();
        if str_eq(t, "+") || str_eq(t, "plus") {
            Some(ArithmeticOp::Add)
        } else if str_eq(t, "-") || str_eq(t, "minus") {
            Some(ArithmeticOp::Subtract)
        } else if str_eq(t, "*") || str_eq(t, "mul") {
            Some(ArithmeticOp::Multiply)
        } else if str_eq(t, "/") || str_eq(t, "div") {
            Some(ArithmeticOp::Divide)
        } else if str_eq(t, "%") || str_eq(t, "mod") {
            Some(ArithmeticOp::Modulo)
        } else {
            None
        }
    }
}

} // verus!
