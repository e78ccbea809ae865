//! Deciding conditions from operand values, the walk's depth rules, the
//! writer across rows, and the lexer's saved states.

use fselect::expr::Expr;
use fselect::field::Field;
use fselect::lexer::Lexer;
use fselect::operators::{LogicalOp, Op};
use fselect::output::ResultsWriter;
use fselect::parser::between;
use fselect::query::{OutputFormat, TraversalMode};
use fselect::search::{
    compare, conforms, dir_depth, plan_entry, regex_outcome, text_less, Descent,
    Value,
};

fn text(s: &str) -> Value {
    Value::Text(s.to_string())
}

#[test]
fn texts_order_by_characters() {
    assert!(text_less("apple", "banana"));
    assert!(!text_less("banana", "apple"));
    assert!(text_less("app", "apple"));
    assert!(!text_less("apple", "apple"));
    assert_eq!(compare(Op::Gt, &text("banana"), &text("apple")), Some(true));
    assert_eq!(compare(Op::Lte, &text("apple"), &text("apple")), Some(true));
    assert_eq!(compare(Op::Eeq, &text("a"), &text("a")), Some(true));
    assert_eq!(compare(Op::Eq, &text("a"), &text("a")), None);
}

#[test]
fn numbers_and_truth_values_compare() {
    assert_eq!(compare(Op::Gte, &Value::Int(5), &Value::Int(5)), Some(true));
    assert_eq!(compare(Op::Ne, &Value::Int(5), &Value::Int(6)), Some(true));
    assert_eq!(compare(Op::Like, &Value::Int(5), &Value::Int(5)), Some(false));
    assert_eq!(compare(Op::Gt, &Value::Bool(true), &Value::Bool(false)), Some(true));
    assert_eq!(compare(Op::Lt, &Value::Bool(true), &Value::Bool(false)), Some(false));
    assert_eq!(compare(Op::Eq, &Value::Int(1), &text("1")), None);
}

#[test]
fn a_date_covers_its_span() {
    let moment = Value::DateTime(Some((1_000, 1_000)));
    let day = Value::DateTime(Some((900, 1_899)));
    assert_eq!(compare(Op::Eq, &moment, &day), Some(true));
    assert_eq!(compare(Op::Eeq, &moment, &day), Some(false));
    assert_eq!(compare(Op::Gt, &moment, &day), Some(false));
    assert_eq!(compare(Op::Gte, &moment, &day), Some(true));
    assert_eq!(compare(Op::Eq, &moment, &Value::DateTime(None)), Some(false));
}

#[test]
fn regular_expressions_match_or_fail() {
    assert_eq!(regex_outcome(false, "main.rs", "\\.rs$"), Ok(true));
    assert_eq!(regex_outcome(true, "main.rs", "\\.rs$"), Ok(false));
    assert_eq!(
        regex_outcome(false, "main.rs", "(["),
        Err("Incorrect regex expression: ([".to_string())
    );
}

#[test]
fn conditions_combine_and_stop_early() {
    let size = Expr::field(Field::Size);
    let name = Expr::field(Field::Name);
    let ten = Expr::value("10".to_string());
    let pattern = Expr::value("^a".to_string());
    let vals = vec![
        (size.to_string(), Value::Int(12)),
        (ten.to_string(), Value::Int(10)),
        (name.to_string(), text("abc")),
        (pattern.to_string(), text("^a")),
    ];
    let big = Expr::op(Expr::field(Field::Size), Op::Gt, Expr::value("10".to_string()));
    assert_eq!(conforms(&big, &vals), Some(Ok(true)));
    let starts = Expr::op(Expr::field(Field::Name), Op::Rx, Expr::value("^a".to_string()));
    let both = Expr::logical_op(big, LogicalOp::And, starts);
    assert_eq!(conforms(&both, &vals), Some(Ok(true)));
    // The right side has no value, but `or` does not look at it.
    let small = Expr::op(Expr::field(Field::Size), Op::Lt, Expr::value("10".to_string()));
    let unknown = Expr::op(Expr::field(Field::Path), Op::Eeq, Expr::value("x".to_string()));
    let or_stops = Expr::logical_op(
        Expr::op(Expr::field(Field::Size), Op::Gt, Expr::value("10".to_string())),
        LogicalOp::Or,
        unknown,
    );
    assert_eq!(conforms(&or_stops, &vals), Some(Ok(true)));
    let and_stops = Expr::logical_op(
        small,
        LogicalOp::And,
        Expr::op(Expr::field(Field::Path), Op::Eeq, Expr::value("x".to_string())),
    );
    assert_eq!(conforms(&and_stops, &vals), Some(Ok(false)));
    let needs_path = Expr::op(Expr::field(Field::Path), Op::Eeq, Expr::value("x".to_string()));
    assert_eq!(conforms(&needs_path, &vals), None);
}

#[test]
fn lists_and_exists() {
    let size = Expr::field(Field::Size);
    let five = Expr::value("5".to_string());
    let twelve = Expr::value("12".to_string());
    let vals = vec![
        (size.to_string(), Value::Int(12)),
        (five.to_string(), Value::Int(5)),
        (twelve.to_string(), Value::Int(12)),
    ];
    let mut list = Expr::new();
    list.set_args(vec![Expr::value("5".to_string()), Expr::value("12".to_string())]);
    let in_list = Expr::op(Expr::field(Field::Size), Op::In, list);
    assert_eq!(conforms(&in_list, &vals), Some(Ok(true)));
    let mut list = Expr::new();
    list.set_args(vec![Expr::value("5".to_string())]);
    let not_in = Expr::op(Expr::field(Field::Size), Op::NotIn, list);
    assert_eq!(conforms(&not_in, &vals), Some(Ok(true)));
    let mut empty = Expr::new();
    empty.set_args(vec![]);
    let exists = Expr::op(Expr::field(Field::Size), Op::Exists, empty);
    assert_eq!(conforms(&exists, &vals), Some(Ok(false)));
}

#[test]
fn the_walk_keeps_its_depth_bounds() {
    assert_eq!(dir_depth(Some(2), 5), (1, 5));
    assert_eq!(dir_depth(Some(7), 5), (3, 5));
    assert_eq!(dir_depth(Some(4), 0), (1, 4));
    assert_eq!(dir_depth(None, 2), (3, 3));
    assert_eq!(plan_entry(1, 2, 0, true, TraversalMode::Bfs), (false, Descent::Later));
    assert_eq!(plan_entry(2, 2, 2, true, TraversalMode::Dfs), (true, Descent::No));
    assert_eq!(plan_entry(1, 0, 2, true, TraversalMode::Dfs), (true, Descent::Now));
    assert_eq!(plan_entry(1, 0, 0, false, TraversalMode::Dfs), (true, Descent::No));
}

#[test]
fn between_reads_as_two_comparisons() {
    let e = between(
        Expr::field(Field::Size),
        Expr::value("5".to_string()),
        Expr::value("6".to_string()),
        false,
    );
    let expected = Expr::logical_op(
        Expr::op(Expr::field(Field::Size), Op::Gte, Expr::value("5".to_string())),
        LogicalOp::And,
        Expr::op(Expr::field(Field::Size), Op::Lte, Expr::value("6".to_string())),
    );
    assert_eq!(e, expected);
    let not_between = between(
        Expr::field(Field::Size),
        Expr::value("5".to_string()),
        Expr::value("6".to_string()),
        true,
    );
    let expected = Expr::logical_op(
        Expr::op(Expr::field(Field::Size), Op::Lte, Expr::value("5".to_string())),
        LogicalOp::Or,
        Expr::op(Expr::field(Field::Size), Op::Gte, Expr::value("6".to_string())),
    );
    assert_eq!(not_between, expected);
}

#[test]
fn the_writer_starts_each_row_afresh() {
    let mut w = ResultsWriter::new(&OutputFormat::Json);
    let mut out = w.write_header("q", 2);
    out.push_str(&w.write_row(vec![
        ("foo".to_string(), "foo_value".to_string()),
        ("bar".to_string(), "BAR value".to_string()),
    ]));
    out.push_str(&w.write_row_separator());
    out.push_str(&w.write_row(vec![
        ("foo".to_string(), "123".to_string()),
        ("bar".to_string(), "".to_string()),
    ]));
    out.push_str(&w.write_footer());
    assert_eq!(out, r#"[{"bar":"BAR value","foo":"foo_value"},{"bar":"","foo":"123"}]"#);

    let mut w = ResultsWriter::new(&OutputFormat::Csv);
    let mut out = w.write_row(vec![("a".to_string(), "1".to_string()), ("b".to_string(), "x,y".to_string())]);
    out.push_str(&w.write_row(vec![("a".to_string(), "2".to_string())]));
    assert_eq!(out, "1,\"x,y\"\n2\n");

    let mut w = ResultsWriter::new(&OutputFormat::Tabs);
    assert_eq!(w.write_row(vec![]), "\n");
}

#[test]
fn lexing_keeps_the_input_and_restores_states() {
    let mut lexer = Lexer::new(vec!["select name".to_string(), "from /tmp".to_string()]);
    lexer.next_lexeme();
    lexer.push_state();
    lexer.next_lexeme();
    lexer.push_state();
    lexer.next_lexeme();
    lexer.pop_state();
    lexer.next_lexeme();
    lexer.pop_state();
    lexer.pop_state();
    assert_eq!(lexer.get_input_string(), "select name from /tmp");
}
