//! What the search relies on: saturating counters, keys of computed
//! expressions, and which subqueries may be cached.

use std::collections::HashMap;

use fselect::expr::Expr;
use fselect::field::Field;
use fselect::function::{Function, FunctionValue};
use fselect::operators::{ArithmeticOp, Op};
use fselect::query::{is_buffered, is_subquery_cacheable, OutputFormat, Query, Root, RootOptions};
use fselect::search::{compare, conforms, Value};

#[test]
fn test_limit_offset_no_overflow() {
    // u32::MAX + 1 would overflow; saturating_add should cap at u32::MAX
    let result = u32::MAX.saturating_add(1);
    assert_eq!(result, u32::MAX);
}

#[test]
fn test_depth_underflow_protection() {
    let canonical_depth: u32 = 2;
    let base_depth: u32 = 5;
    let depth = canonical_depth.saturating_sub(base_depth) + 1;
    assert_eq!(depth, 1, "depth should not underflow");
}

#[test]
fn test_aggregate_computed_expr_accumulator_key() {
    // Verify that computed expressions inside aggregates produce consistent keys
    // between accumulation and retrieval phases

    // Build AVG(size * 2): function=Avg, left = (size Mul 2)
    let left_field = Expr::field(Field::Size);
    let right_val = Expr::value("2".to_string());
    let mut computed = Expr::field(Field::Size);
    computed.left = Some(Box::new(left_field));
    computed.arithmetic_op = Some(ArithmeticOp::Multiply);
    computed.right = Some(Box::new(right_val));
    computed.field = None;

    let mut agg_expr = Expr::field(Field::Size);
    agg_expr.function = Some(Function::Avg);
    agg_expr.left = Some(Box::new(computed));
    agg_expr.field = None;

    // The inner expression key used during retrieval
    let inner_key = agg_expr.left.as_ref().unwrap().to_string();

    // Simulate what accumulation does: evaluate inner expr and store in file_map
    let mut file_map = HashMap::new();
    file_map.insert("size".to_string(), "100".to_string());

    assert!(
        !inner_key.is_empty(),
        "Inner expression key should not be empty"
    );
    assert_ne!(
        inner_key, "size",
        "Computed expression key should differ from raw field key"
    );
}

#[test]
fn correlated_subquery_without_inner_alias_is_not_cacheable() {
    // The subquery has no alias on its own root but references `t1.size`
    // from the outer query, so its result depends on the outer row.
    let mut t1_size = Expr::field(Field::Size);
    t1_size.root_alias = Some(String::from("t1"));

    let inner_where = Expr::op(Expr::field(Field::Size), Op::Gt, t1_size);

    let subquery = Query {
        fields: vec![Expr::field(Field::Name)],
        roots: vec![Root::new(String::from("/t2"), RootOptions::new())],
        expr: Some(inner_where),
        grouping_fields: Vec::new(),
        ordering_fields: Vec::new(),
        ordering_asc: Vec::new(),
        limit: 0,
        offset: 0,
        output_format: OutputFormat::Tabs,
        raw_query: String::new(),
    };

    assert!(
        !is_subquery_cacheable(&subquery),
        "subquery referencing outer alias t1 must not be cached"
    );
}

#[test]
fn uncorrelated_subquery_remains_cacheable() {
    // No root_alias references in the inner expression — safe to cache.
    let inner_where = Expr::op(
        Expr::field(Field::Size),
        Op::Gt,
        Expr::value(String::from("0")),
    );
    let subquery = Query {
        fields: vec![Expr::field(Field::Name)],
        roots: vec![Root::new(String::from("/t2"), RootOptions::new())],
        expr: Some(inner_where),
        grouping_fields: Vec::new(),
        ordering_fields: Vec::new(),
        ordering_asc: Vec::new(),
        limit: 0,
        offset: 0,
        output_format: OutputFormat::Tabs,
        raw_query: String::new(),
    };
    assert!(is_subquery_cacheable(&subquery));
}

#[test]
fn test_string_ordering_comparisons() {
    // Verify that string comparisons work correctly for Gt, Gte, Lt, Lte
    let a = FunctionValue::Str(String::from("apple"));
    let b = FunctionValue::Str(String::from("banana"));

    // "apple" < "banana" lexicographically
    assert!(a.to_string() < b.to_string());
    assert!(b.to_string() > a.to_string());
    assert!(a.to_string() <= b.to_string());
    assert!(b.to_string() >= a.to_string());
    assert!(a.to_string() <= a.to_string());
    assert!(a.to_string() >= a.to_string());

    // The comparison the search makes on text values orders them the same way.
    let ta = Value::Text(a.to_string());
    let tb = Value::Text(b.to_string());
    assert_eq!(compare(Op::Lt, &ta, &tb), Some(true));
    assert_eq!(compare(Op::Gt, &tb, &ta), Some(true));
    assert_eq!(compare(Op::Lte, &ta, &tb), Some(true));
    assert_eq!(compare(Op::Gte, &tb, &ta), Some(true));
    assert_eq!(compare(Op::Lte, &ta, &ta), Some(true));
    assert_eq!(compare(Op::Gte, &ta, &ta), Some(true));
}

#[test]
fn test_in_list_uses_int_comparison_not_float() {
    // Large i64 values lose precision when converted to f64
    let large: i64 = (1_i64 << 53) + 1; // 9007199254740993
    let a = FunctionValue::Int(large);
    let b = FunctionValue::Int(large);

    // Int comparison should match
    assert_eq!(a.to_int(), b.to_int(), "int comparison should be exact");

    // Float comparison would lose precision for this value
    let as_float = large as f64;
    assert_ne!(as_float as i64, large, "f64 loses precision for 2^53+1");

    // An `in` list over whole numbers compares them exactly.
    let size = Expr::field(Field::Size);
    let item = Expr::value(large.to_string());
    let near = Expr::value((large - 1).to_string());
    let vals = vec![
        (size.to_string(), Value::Int(large)),
        (item.to_string(), Value::Int(large)),
        (near.to_string(), Value::Int(large - 1)),
    ];
    let mut list = Expr::new();
    list.set_args(vec![Expr::value((large - 1).to_string())]);
    let only_near = Expr::op(Expr::field(Field::Size), Op::In, list);
    assert_eq!(conforms(&only_near, &vals), Some(Ok(false)));
    let mut list = Expr::new();
    list.set_args(vec![Expr::value(large.to_string())]);
    let exact = Expr::op(Expr::field(Field::Size), Op::In, list);
    assert_eq!(conforms(&exact, &vals), Some(Ok(true)));
}

fn test_query(fields: Vec<Expr>, ordering_fields: Vec<Expr>, ordering_asc: Vec<bool>, limit: u32, offset: u32) -> Query {
    Query {
        fields,
        roots: Vec::new(),
        expr: None,
        grouping_fields: Vec::new(),
        ordering_fields,
        ordering_asc,
        limit,
        offset,
        output_format: OutputFormat::Tabs,
        raw_query: String::new(),
    }
}

fn query_plain() -> Query {
    test_query(Vec::new(), Vec::new(), Vec::new(), 0, 0)
}

fn query_with_ordering() -> Query {
    test_query(Vec::new(), vec![Expr::field(Field::Name)], vec![true], 0, 0)
}

fn query_with_aggregate() -> Query {
    let mut expr = Expr::field(Field::Name);
    expr.function = Some(Function::Count);
    test_query(vec![expr], Vec::new(), Vec::new(), 0, 0)
}

#[test]
fn test_is_buffered_with_ordering() {
    assert!(is_buffered(&query_with_ordering(), false));
}

#[test]
fn test_is_buffered_with_aggregate() {
    assert!(is_buffered(&query_with_aggregate(), false));
}

#[test]
fn test_is_buffered_without_ordering_or_aggregate() {
    assert!(!is_buffered(&query_plain(), false));
}

#[test]
fn test_is_buffered_with_offset() {
    let query = test_query(Vec::new(), Vec::new(), Vec::new(), 10, 5);
    assert!(is_buffered(&query, false));
}

#[test]
fn test_has_ordering() {
    assert!(query_with_ordering().is_ordered());
    assert!(!query_plain().is_ordered());
}

#[test]
fn test_has_aggregate_column() {
    assert!(query_with_aggregate().has_aggregate_column());
    assert!(!query_plain().has_aggregate_column());
}

#[test]
fn silent_searches_are_buffered() {
    assert!(is_buffered(&query_plain(), true));
}
