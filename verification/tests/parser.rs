//! Parsing of whole queries into fields, roots, conditions, grouping,
//! ordering, limits and output formats.

use fselect::expr::Expr;
use fselect::field::Field;
use fselect::function::Function;
use fselect::lexer::Lexer;
use fselect::operators::{LogicalOp, Op};
use fselect::parser::Parser;
use fselect::query::TraversalMode::{Bfs, Dfs};
use fselect::query::{Root, RootOptions};

#[test]
fn simple_query() {
    let query = "select name, path ,size , fsize from /";
    let lexer = Lexer::new(vec![query.to_string()]);
    let mut p = Parser::new(lexer);
    let query = p.parse(false).unwrap();

    assert_eq!(
        query.fields,
        vec![
            Expr::field(Field::Name),
            Expr::field(Field::Path),
            Expr::field(Field::Size),
            Expr::field(Field::FormattedSize),
        ]
    );
}

#[test]
fn query() {
    let query = "select name, path ,size , fsize from /test depth 2, /test2 archives,/test3 depth 3 archives , /test4 ,'/test5' gitignore , /test6 mindepth 3, /test7 archives DFS, /test8 dfs where name != 123 AND ( size gt 456 or fsize lte 758) or name = 'xxx' order by 2, size desc limit 50";
    let lexer = Lexer::new(vec![query.to_string()]);
    let mut p = Parser::new(lexer);
    let query = p.parse(false).unwrap();

    assert_eq!(
        query.fields,
        vec![
            Expr::field(Field::Name),
            Expr::field(Field::Path),
            Expr::field(Field::Size),
            Expr::field(Field::FormattedSize)
        ]
    );

    assert_eq!(
        query.roots,
        vec![
            Root::new(
                String::from("/test"),
                RootOptions::from(0, 2, false, false, false, None, None, None, Bfs, false, None)
            ),
            Root::new(
                String::from("/test2"),
                RootOptions::from(0, 0, true, false, false, None, None, None, Bfs, false, None)
            ),
            Root::new(
                String::from("/test3"),
                RootOptions::from(0, 3, true, false, false, None, None, None, Bfs, false, None)
            ),
            Root::new(
                String::from("/test4"),
                RootOptions::from(0, 0, false, false, false, None, None, None, Bfs, false, None)
            ),
            Root::new(
                String::from("/test5"),
                RootOptions::from(0, 0, false, false, false, Some(true), None, None, Bfs, false, None)
            ),
            Root::new(
                String::from("/test6"),
                RootOptions::from(3, 0, false, false, false, None, None, None, Bfs, false, None)
            ),
            Root::new(
                String::from("/test7"),
                RootOptions::from(0, 0, true, false, false, None, None, None, Dfs, false, None)
            ),
            Root::new(
                String::from("/test8"),
                RootOptions::from(0, 0, false, false, false, None, None, None, Dfs, false, None)
            ),
        ]
    );

    let expr = Expr::logical_op(
        Expr::op(
            Expr::field(Field::Name),
            Op::Eq,
            Expr::value(String::from("xxx")),
        ),
        LogicalOp::Or,
        Expr::logical_op(
            Expr::op(
                Expr::field(Field::Name),
                Op::Ne,
                Expr::value(String::from("123")),
            ),
            LogicalOp::And,
            Expr::logical_op(
                Expr::op(
                    Expr::field(Field::Size),
                    Op::Gt,
                    Expr::value(String::from("456")),
                ),
                LogicalOp::Or,
                Expr::op(
                    Expr::field(Field::FormattedSize),
                    Op::Lte,
                    Expr::value(String::from("758")),
                ),
            ),
        ),
    );
    // Query expression must be reordered due to the weight difference of its branches
    assert_eq!(query.expr, Some(expr));
    assert_eq!(
        query.ordering_fields,
        vec![Expr::field(Field::Path), Expr::field(Field::Size)]
    );
    assert_eq!(query.ordering_asc, vec![true, false]);
    assert_eq!(query.limit, 50);
}

#[test]
fn query_with_not() {
    let query = "select name from /test where name not like '%.tmp'";
    let lexer = Lexer::new(vec![query.to_string()]);
    let mut p = Parser::new(lexer);
    let query = p.parse(false).unwrap();

    assert_eq!(query.fields, vec![Expr::field(Field::Name)]);

    assert_eq!(
        query.roots,
        vec![Root::new(
            String::from("/test"),
            RootOptions::from(0, 0, false, false, false, None, None, None, Bfs, false, None)
        ),]
    );

    let expr = Expr::op(
        Expr::field(Field::Name),
        Op::NotLike,
        Expr::value(String::from("%.tmp")),
    );

    assert_eq!(query.expr, Some(expr));
}

#[test]
fn query_with_single_not() {
    let query = "select name from /test where not name like '%.tmp'";
    let lexer = Lexer::new(vec![query.to_string()]);
    let mut p = Parser::new(lexer);
    let query = p.parse(false).unwrap();

    assert_eq!(query.fields, vec![Expr::field(Field::Name)]);

    assert_eq!(
        query.roots,
        vec![Root::new(
            String::from("/test"),
            RootOptions::from(0, 0, false, false, false, None, None, None, Bfs, false, None)
        ),]
    );

    let expr = Expr::op(
        Expr::field(Field::Name),
        Op::NotLike,
        Expr::value(String::from("%.tmp")),
    );

    assert_eq!(query.expr, Some(expr));
}

#[test]
fn query_with_multiple_not() {
    let query = "select name from /test where not name like '%.tmp' and not name like '%.tst'";
    let lexer = Lexer::new(vec![query.to_string()]);
    let mut p = Parser::new(lexer);
    let query = p.parse(false).unwrap();

    let left = Expr::op(
        Expr::field(Field::Name),
        Op::NotLike,
        Expr::value(String::from("%.tmp")),
    );
    let right = Expr::op(
        Expr::field(Field::Name),
        Op::NotLike,
        Expr::value(String::from("%.tst")),
    );
    let expr = Expr::logical_op(left, LogicalOp::And, right);

    assert_eq!(query.expr, Some(expr));
}

#[test]
fn query_with_multiple_not_paren() {
    let query =
        "select name from /test where (not name like '%.tmp') and (not name like '%.tst')";
    let lexer = Lexer::new(vec![query.to_string()]);
    let mut p = Parser::new(lexer);
    let query = p.parse(false).unwrap();

    let left = Expr::op(
        Expr::field(Field::Name),
        Op::NotLike,
        Expr::value(String::from("%.tmp")),
    );
    let right = Expr::op(
        Expr::field(Field::Name),
        Op::NotLike,
        Expr::value(String::from("%.tst")),
    );
    let expr = Expr::logical_op(left, LogicalOp::And, right);

    assert_eq!(query.expr, Some(expr));
}

#[test]
fn query_double_not() {
    let query = "select name from /test where not not name like '%.tmp'";
    let lexer = Lexer::new(vec![query.to_string()]);
    let mut p = Parser::new(lexer);
    let query = p.parse(false).unwrap();

    let expr = Expr::op(
        Expr::field(Field::Name),
        Op::Like,
        Expr::value(String::from("%.tmp")),
    );

    assert_eq!(query.expr, Some(expr));
}

#[test]
fn query_triple_not() {
    let query = "select name from /test where not not not name like '%.tmp'";
    let lexer = Lexer::new(vec![query.to_string()]);
    let mut p = Parser::new(lexer);
    let query = p.parse(false).unwrap();

    let expr = Expr::op(
        Expr::field(Field::Name),
        Op::NotLike,
        Expr::value(String::from("%.tmp")),
    );

    assert_eq!(query.expr, Some(expr));
}

#[test]
fn broken_query() {
    let query = "select name, path ,size , fsize from / where name != 'foobar' order by size desc limit 10 into csv this is unexpected";
    let lexer = Lexer::new(vec![query.to_string()]);
    let mut p = Parser::new(lexer);
    let query = p.parse(false);

    assert!(query.is_ok());
    assert!(p.there_are_remaining_lexemes());
}

#[test]
fn path_with_spaces() {
    let query = "select name from '/opt/Some Cool Dir/Test This'";
    let lexer = Lexer::new(vec![query.to_string()]);
    let mut p = Parser::new(lexer);
    let query = p.parse(false).unwrap();

    assert_eq!(
        query.roots,
        vec![Root::new(
            String::from("/opt/Some Cool Dir/Test This"),
            RootOptions::from(0, 0, false, false, false, None, None, None, Bfs, false, None)
        ),]
    );
}

#[test]
fn simple_boolean_syntax() {
    let query = "select name from /home/user where is_audio or is_video";
    let lexer = Lexer::new(vec![query.to_string()]);
    let mut p = Parser::new(lexer);
    let query = p.parse(false).unwrap();

    let query2 = "select name from /home/user where is_audio = true or is_video = true";
    let lexer2 = Lexer::new(vec![query2.to_string()]);
    let mut p2 = Parser::new(lexer2);
    let query2 = p2.parse(false).unwrap();

    assert_eq!(query.expr, query2.expr);
}

#[test]
fn simple_boolean_function_syntax() {
    let query = "select name from /home/user where CONTAINS('foobar') or CONTAINS('bazz')";
    let lexer = Lexer::new(vec![query.to_string()]);
    let mut p = Parser::new(lexer);
    let query = p.parse(false).unwrap();

    let query2 = "select name from /home/user where CONTAINS('foobar') = true or CONTAINS('bazz') = true";
    let lexer2 = Lexer::new(vec![query2.to_string()]);
    let mut p2 = Parser::new(lexer2);
    let query2 = p2.parse(false).unwrap();

    assert_eq!(query.expr, query2.expr);
}

#[test]
fn simple_function_without_args_syntax_in_where() {
    let query = "select name, caps from /home/user where HAS_CAPS()";
    let lexer = Lexer::new(vec![query.to_string()]);
    let mut p = Parser::new(lexer);
    let query = p.parse(false).unwrap();

    let query2 = "select name, caps from /home/user where HAS_CAPS";
    let lexer2 = Lexer::new(vec![query2.to_string()]);
    let mut p2 = Parser::new(lexer2);
    let query2 = p2.parse(false).unwrap();

    assert_eq!(query.expr, query2.expr);
}

#[test]
fn simple_function_without_args_syntax() {
    let query = "select CURDATE()";
    let lexer = Lexer::new(vec![query.to_string()]);
    let mut p = Parser::new(lexer);
    let query = p.parse(false).unwrap();

    let query2 = "select CURDATE";
    let lexer2 = Lexer::new(vec![query2.to_string()]);
    let mut p2 = Parser::new(lexer2);
    let query2 = p2.parse(false).unwrap();

    assert_eq!(query.expr, query2.expr);
}

#[test]
fn from_at_the_end_of_the_query() {
    let query = "select name where not name like '%.tmp' from /test gitignore mindepth 2";
    let lexer = Lexer::new(vec![query.to_string()]);
    let mut p = Parser::new(lexer);
    let query = p.parse(false).unwrap();

    assert_eq!(query.fields, vec![Expr::field(Field::Name)]);

    assert_eq!(
        query.roots,
        vec![Root::new(
            String::from("/test"),
            RootOptions::from(2, 0, false, false, false, Some(true), None, None, Bfs, false, None)
        ),]
    );

    let expr = Expr::op(
        Expr::field(Field::Name),
        Op::NotLike,
        Expr::value(String::from("%.tmp")),
    );

    assert_eq!(query.expr, Some(expr));
}

#[test]
fn query_with_implicit_root() {
    let query = "select name, size";
    let lexer = Lexer::new(vec![query.to_string()]);
    let mut p = Parser::new(lexer);
    let query = p.parse(false).unwrap();

    assert_eq!(
        query.roots,
        vec![Root::new(String::from("."), RootOptions::new()),]
    );
}

#[test]
fn query_with_implicit_root_and_root_options() {
    let query = "select name, size depth 2";
    let lexer = Lexer::new(vec![query.to_string()]);
    let mut p = Parser::new(lexer);
    let query = p.parse(false).unwrap();

    assert_eq!(
        query.roots,
        vec![Root::new(
            String::from("."),
            RootOptions::from(0, 2, false, false, false, None, None, None, Bfs, false, None)
        ),]
    );
}

#[test]
fn use_curly_braces() {
    let query = "select name, (1 + 2) from /home/user limit 1";
    let lexer = Lexer::new(vec![query.to_string()]);
    let mut p = Parser::new(lexer);
    let query = p.parse(false).unwrap();

    let query2 = "select name, {1 + 2} from /home/user limit 1";
    let lexer2 = Lexer::new(vec![query2.to_string()]);
    let mut p2 = Parser::new(lexer2);
    let query2 = p2.parse(false).unwrap();

    assert_eq!(query.expr, query2.expr);
}

#[test]
fn query_with_group_by() {
    let query = "select AVG(size) from /test group by mime";
    let lexer = Lexer::new(vec![query.to_string()]);
    let mut p = Parser::new(lexer);
    let query = p.parse(false).unwrap();

    assert_eq!(
        query.fields,
        vec![Expr::function_left(
            Function::Avg,
            Some(Box::new(Expr::field(Field::Size)))
        )]
    );

    assert_eq!(
        query.roots,
        vec![Root::new(
            String::from("/test"),
            RootOptions::from(0, 0, false, false, false, None, None, None, Bfs, false, None)
        ),]
    );

    assert_eq!(
        query.grouping_fields,
        vec![Expr::field(Field::Mime)]
    );
}

#[test]
fn query_with_between() {
    let query = "select name, size from /test where size between 5mb and 6mb";
    let lexer = Lexer::new(vec![query.to_string()]);
    let mut p = Parser::new(lexer);
    let query = p.parse(false).unwrap();

    let query2 = "select name, size from /test where size gte 5mb and size lte 6mb";
    let lexer2 = Lexer::new(vec![query2.to_string()]);
    let mut p2 = Parser::new(lexer2);
    let query2 = p2.parse(false).unwrap();

    assert_eq!(query.expr, query2.expr);
}

#[test]
fn query_with_dfs() {
    let query = "select name from /test dfs group by mime";
    let lexer = Lexer::new(vec![query.to_string()]);
    let mut p = Parser::new(lexer);
    let query = p.parse(false).unwrap();

    assert_eq!(
        query.roots,
        vec![Root::new(
            String::from("/test"),
            RootOptions::from(0, 0, false, false, false, None, None, None, Dfs, false, None)
        ),]
    );
}

#[test]
fn reordered_expr_branches_with_different_weights() {
    let query = "select name from /test where CONTAINS('foobar') or name like 'foobar'";
    let lexer = Lexer::new(vec![query.to_string()]);
    let mut p = Parser::new(lexer);
    let query = p.parse(false).unwrap();

    let query2 = "select name from /test where name like 'foobar' or CONTAINS('foobar')";
    let lexer2 = Lexer::new(vec![query2.to_string()]);
    let mut p2 = Parser::new(lexer2);
    let query2 = p2.parse(false).unwrap();

    assert_eq!(query.expr, query2.expr);
}

#[test]
fn query_with_value_in_string_args() {
    let query = "select name from /test where name in ('foo', 'bar')";
    let lexer = Lexer::new(vec![query.to_string()]);
    let mut p = Parser::new(lexer);
    let query = p.parse(false).unwrap();

    let mut list_expr = Expr::new();
    list_expr.set_args(vec![
        Expr::value(String::from("foo")),
        Expr::value(String::from("bar")),
    ]);

    let expr = Expr::op(
        Expr::field(Field::Name),
        Op::In,
        list_expr,
    );

    assert_eq!(query.expr, Some(expr));

    let query = "select name from /test where name not in (foo, bar)";
    let lexer = Lexer::new(vec![query.to_string()]);
    let mut p = Parser::new(lexer);
    let query = p.parse(false).unwrap();

    let mut list_expr = Expr::new();
    list_expr.set_args(vec![
        Expr::value(String::from("foo")),
        Expr::value(String::from("bar")),
    ]);

    let expr = Expr::op(
        Expr::field(Field::Name),
        Op::NotIn,
        list_expr,
    );

    assert_eq!(query.expr, Some(expr));
}

#[test]
fn query_with_value_in_int_args() {
    let query = "select name from /test where size in (100, 200)";
    let lexer = Lexer::new(vec![query.to_string()]);
    let mut p = Parser::new(lexer);
    let query = p.parse(false).unwrap();

    let mut list_expr = Expr::new();
    list_expr.set_args(vec![
        Expr::value(String::from("100")),
        Expr::value(String::from("200")),
    ]);

    let expr = Expr::op(
        Expr::field(Field::Size),
        Op::In,
        list_expr,
    );

    assert_eq!(query.expr, Some(expr));
}

#[test]
fn query_with_value_in_float_args() {
    let query = "select name from /test where size in (100.0, 200.0)";
    let lexer = Lexer::new(vec![query.to_string()]);
    let mut p = Parser::new(lexer);
    let query = p.parse(false).unwrap();

    let mut list_expr = Expr::new();
    list_expr.set_args(vec![
        Expr::value(String::from("100.0")),
        Expr::value(String::from("200.0")),
    ]);

    let expr = Expr::op(
        Expr::field(Field::Size),
        Op::In,
        list_expr,
    );

    assert_eq!(query.expr, Some(expr));
}

#[test]
fn simple_subquery() {
    let query = "select name from /test where size > 100 and size in (select size from /test2 where size > 50)";
    let lexer = Lexer::new(vec![query.to_string()]);
    let mut p = Parser::new(lexer);
    let query = p.parse(false).unwrap();

    assert_eq!(
        query.fields,
        vec![Expr::field(Field::Name)]
    );

    assert_eq!(
        query.roots,
        vec![Root::new(
            String::from("/test"),
            RootOptions::from(0, 0, false, false, false, None, None, None, Bfs, false, None)
        ),]
    );

    assert!(query.expr.unwrap().left.unwrap().right.is_some());
}

#[test]
fn complex_subquery() {
    let query = "select name from /test1 where size > 100 and size in (select size from /test2 where name in (select name from /test3 where modified in (select modified from /test4 where size < 200)))";
    let lexer = Lexer::new(vec![query.to_string()]);
    let mut p = Parser::new(lexer);
    let query = p.parse(false).unwrap();

    assert_eq!(
        query.fields,
        vec![Expr::field(Field::Name)]
    );

    assert_eq!(
        query.roots,
        vec![Root::new(
            String::from("/test1"),
            RootOptions::from(0, 0, false, false, false, None, None, None, Bfs, false, None)
        ),]
    );

    // Verify the main query expression exists
    assert!(query.expr.is_some());

    // Count the number of subqueries
    let mut subquery_count = 0;
    find_subqueries(&query.expr.unwrap(), &mut subquery_count);

    // We expect 3 levels of nested subqueries
    assert_eq!(subquery_count, 3);
}

#[test]
fn root_with_alias() {
    let query = "select name from /test as test_alias";
    let lexer = Lexer::new(vec![query.to_string()]);
    let mut p = Parser::new(lexer);
    let query = p.parse(false).unwrap();

    assert_eq!(
        query.fields,
        vec![Expr::field(Field::Name)]
    );

    assert_eq!(
        query.roots,
        vec![Root::new(
            String::from("/test"),
            RootOptions::from(0, 0, false, false, false, None, None, None, Bfs, false, Some(String::from("test_alias")))
        ),]
    );
}

#[test]
fn root_and_field_with_alias() {
    let query = "select test_alias.name from /test as test_alias";
    let lexer = Lexer::new(vec![query.to_string()]);
    let mut p = Parser::new(lexer);
    let query = p.parse(false).unwrap();

    assert_eq!(
        query.fields,
        vec![Expr::field_with_root_alias(Field::Name, Some(String::from("test_alias")))]
    );

    assert_eq!(
        query.roots,
        vec![Root::new(
            String::from("/test"),
            RootOptions::from(0, 0, false, false, false, None, None, None, Bfs, false, Some(String::from("test_alias")))
        ),]
    );
}

#[test]
fn broken_root_path() {
    // Comma immediately after FROM means no valid root path provided
    // Parser should fall back to default root "."
    let query = "select name from , where size > 0";
    let lexer = Lexer::new(vec![query.to_string()]);
    let mut p = Parser::new(lexer);
    let query = p.parse(false).unwrap();

    assert_eq!(
        query.fields,
        vec![Expr::field(Field::Name)]
    );

    assert_eq!(
        query.roots,
        vec![Root::new(String::from("."), RootOptions::new())]
    );
}

#[test]
fn parse_root_options_fails_on_incomplete_option() {
    // "mindepth" requires a number, omitting it must produce an error
    let query = "select name from /test mindepth";
    let lexer = Lexer::new(vec![query.to_string()]);
    let mut p = Parser::new(lexer);
    let result = p.parse(false);
    assert!(result.is_err());
}

/// Counts the subqueries in an expression, nested ones included.
fn find_subqueries(expr: &Expr, count: &mut usize) {
    // Check if this expression has a subquery
    if expr.subquery.is_some() {
        *count += 1;
        // Check if the subquery has an expression
        if let Some(subquery) = &expr.subquery {
            if let Some(subquery_expr) = &subquery.expr {
                // Continue searching in the subquery's expression
                find_subqueries(subquery_expr, count);
            }
        }
    }

    // Check the left branch
    if let Some(left) = &expr.left {
        find_subqueries(left, count);
    }

    // Check the right branch
    if let Some(right) = &expr.right {
        find_subqueries(right, count);
    }
}
