//! Queries at the edges of the grammar: errors, defaults, the `*`
//! selection, and inputs that stop the parser early.

use fselect::expr::Expr;
use fselect::field::Field;
use fselect::function::Function;
use fselect::lexer::Lexer;
use fselect::operators::{LogicalOp, Op};
use fselect::parser::Parser;
use fselect::query::{OutputFormat, Root, RootOptions};

fn parse(query: &str) -> Result<fselect::query::Query, String> {
    let lexer = Lexer::new(vec![query.to_string()]);
    let mut parser = Parser::new(lexer);
    parser.parse(false)
}

#[test]
fn star_selects_the_listing_columns() {
    let query = parse("select * from /tmp").unwrap();
    assert_eq!(
        query.fields,
        vec![
            Expr::field(Field::Mode),
            Expr::field(Field::User),
            Expr::field(Field::Group),
            Expr::field(Field::Size),
            Expr::field(Field::Modified),
            Expr::field(Field::Path),
        ]
    );
}

#[test]
fn fields_needing_no_file_get_a_limit_of_one() {
    let query = parse("select CURDATE()").unwrap();
    assert_eq!(query.limit, 1);
    let query = parse("select name").unwrap();
    assert_eq!(query.limit, 0);
}

#[test]
fn limit_offset_and_raw_query() {
    let query = parse("select name from /tmp limit 7").unwrap();
    assert_eq!(query.limit, 7);
    assert_eq!(query.offset, 0);
    assert_eq!(query.raw_query, "select name from /tmp limit 7");
}

#[test]
fn words_of_the_query_are_joined_with_spaces() {
    let lexer = Lexer::new(vec!["select".to_string(), "name".to_string(), "from".to_string(), "/tmp".to_string()]);
    let mut parser = Parser::new(lexer);
    let query = parser.parse(false).unwrap();
    assert_eq!(query.raw_query, "select name from /tmp");
    assert_eq!(query.roots, vec![Root::new(String::from("/tmp"), RootOptions::new())]);
}

#[test]
fn limit_errors() {
    assert_eq!(parse("select name limit abc").unwrap_err(), "Error parsing limit");
    assert_eq!(
        parse("select name limit").unwrap_err(),
        "Error parsing limit, limit value not found"
    );
}

#[test]
fn output_format_errors_and_choice() {
    assert_eq!(parse("select name into yaml").unwrap_err(), "Unknown output format");
    assert_eq!(parse("select name into").unwrap_err(), "Error parsing output format");
    assert_eq!(parse("select name into JSON").unwrap().output_format, OutputFormat::Json);
    assert_eq!(parse("select name").unwrap().output_format, OutputFormat::Tabs);
}

#[test]
fn no_fields_is_an_error() {
    assert_eq!(
        parse("select from /tmp").unwrap_err(),
        "Error parsing fields, no selector found"
    );
}

#[test]
fn a_lone_operator_among_the_fields_is_an_error() {
    // Reading `/` as a field makes no progress; the parse stops with the error.
    assert!(parse("select / from /tmp").is_err());
}

#[test]
fn unknown_operator_is_an_error() {
    assert_eq!(
        parse("select name from /tmp where size ~~ 3").unwrap_err(),
        "Error parsing operator"
    );
}

#[test]
fn order_by_position_out_of_range_is_an_error() {
    assert!(parse("select name from /tmp order by 0").is_err());
    assert!(parse("select name from /tmp order by 2").is_err());
    let query = parse("select name, size from /tmp order by 2 desc, 1").unwrap();
    assert_eq!(query.ordering_fields, vec![Expr::field(Field::Size), Expr::field(Field::Name)]);
    assert_eq!(query.ordering_asc, vec![false, true]);
}

#[test]
fn group_by_with_a_broken_expression_is_an_error() {
    assert!(parse("select name from /tmp group by lower size").is_err());
    let query = parse("select name, count(*) from /tmp group by name").unwrap();
    assert_eq!(query.grouping_fields, vec![Expr::field(Field::Name)]);
}

#[test]
fn between_with_not() {
    let query = parse("select name from /tmp where size not between 1 and 5").unwrap();
    let expected = Expr::logical_op(
        Expr::op(Expr::field(Field::Size), Op::Lte, Expr::value(String::from("1"))),
        LogicalOp::Or,
        Expr::op(Expr::field(Field::Size), Op::Gte, Expr::value(String::from("5"))),
    );
    assert_eq!(query.expr, Some(expected));
}

#[test]
fn between_without_and_is_an_error() {
    assert_eq!(
        parse("select name from /tmp where size between 1 or 5").unwrap_err(),
        "Error parsing BETWEEN operator"
    );
}

#[test]
fn unmatched_parenthesis() {
    assert_eq!(
        parse("select name from /tmp where (size > 1").unwrap_err(),
        "Unmatched parenthesis"
    );
}

#[test]
fn function_needs_brackets_unless_boolean() {
    assert_eq!(
        parse("select name from /tmp where lower = 'a'").unwrap_err(),
        "Error in function expression"
    );
}

#[test]
fn negative_operand() {
    // A minus sign right after an operator belongs to the value's text.
    let query = parse("select name from /tmp where size > -5").unwrap();
    assert_eq!(
        query.expr,
        Some(Expr::op(Expr::field(Field::Size), Op::Gt, Expr::value(String::from("-5"))))
    );
    // Elsewhere it negates the operand.
    let query = parse("select -size from /tmp").unwrap();
    let mut size = Expr::field(Field::Size);
    size.minus = true;
    assert_eq!(query.fields, vec![size]);
}

#[test]
fn function_with_arguments() {
    let query = parse("select CONCAT(name, 'x') from /tmp").unwrap();
    let mut expected = Expr::function(Function::Concat);
    expected.add_left(Expr::field(Field::Name));
    expected.set_args(vec![Expr::value(String::from("x"))]);
    assert_eq!(query.fields, vec![expected]);
}

#[test]
fn remaining_lexemes_after_a_complete_query() {
    let lexer = Lexer::new(vec!["select name from /tmp".to_string()]);
    let mut parser = Parser::new(lexer);
    assert!(parser.parse(false).is_ok());
    assert!(!parser.there_are_remaining_lexemes());
}

#[test]
fn negating_twice_gives_back_the_expression() {
    let expr = Expr::logical_op(
        Expr::op(Expr::field(Field::Size), Op::Gt, Expr::value(String::from("3"))),
        LogicalOp::And,
        Expr::op(Expr::field(Field::Name), Op::Like, Expr::value(String::from("%.rs"))),
    );
    let once = Parser::negate_expr_op(&expr);
    assert_ne!(once, expr);
    assert_eq!(once.left.as_ref().unwrap().op, Some(Op::Lte));
    assert_eq!(once.right.as_ref().unwrap().op, Some(Op::NotLike));
    assert_eq!(Parser::negate_expr_op(&once), expr);
}

#[test]
fn root_option_keywords() {
    assert!(Parser::is_root_option_keyword("DEPTH"));
    assert!(Parser::is_root_option_keyword("archives"));
    assert!(Parser::is_root_option_keyword("nodockerignore"));
    assert!(Parser::is_root_option_keyword("as"));
    assert!(!Parser::is_root_option_keyword("name"));
    assert!(!Parser::is_root_option_keyword("ar"));
}

#[test]
fn root_options_all_kinds() {
    let query = parse("select name from /a mindepth 1 maxdepth 4 symlinks hardlinks nogit hg dock regexp dfs as x").unwrap();
    assert_eq!(
        query.roots,
        vec![Root::new(
            String::from("/a"),
            RootOptions::from(
                1,
                4,
                false,
                true,
                true,
                Some(false),
                Some(true),
                Some(true),
                fselect::query::TraversalMode::Dfs,
                true,
                Some(String::from("x"))
            )
        )]
    );
}

#[test]
fn a_simple_condition_is_read_whole() {
    let q = parse("select name where size > 5").unwrap();
    assert_eq!(q.expr, Some(Expr::op(Expr::field(Field::Size), Op::Gt, Expr::value("5".to_string()))));
    assert_eq!(q.roots, vec![Root::new(".".to_string(), RootOptions::new())]);
    let q = parse("select name where not not not size > 5 from /a").unwrap();
    assert_eq!(q.expr, Some(Expr::op(Expr::field(Field::Size), Op::Lte, Expr::value("5".to_string()))));
    assert_eq!(q.roots, vec![Root::new("/a".to_string(), RootOptions::new())]);
}

#[test]
fn order_and_limit_follow_the_fields() {
    let q = parse("select name, size from /tmp order by size desc, 1 limit 7").unwrap();
    assert_eq!(q.ordering_fields, vec![Expr::field(Field::Size), Expr::field(Field::Name)]);
    assert_eq!(q.ordering_asc, vec![false, true]);
    assert_eq!(q.limit, 7);
    let q = parse("select name limit 3").unwrap();
    assert_eq!(q.limit, 3);
    let q = parse("select name from /tmp where size > 1 order by name desc limit 4").unwrap();
    assert_eq!(q.ordering_fields, vec![Expr::field(Field::Name)]);
    assert_eq!(q.ordering_asc, vec![false]);
    assert_eq!(q.limit, 4);
    assert!(parse("select name order by 3").is_err());
}
