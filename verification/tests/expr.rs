//! Expression weights.

use fselect::expr::Expr;
use fselect::field::Field;
use fselect::function::Function;
use fselect::operators::{LogicalOp, Op};

#[test]
fn expr_test_weight() {
    let expr = Expr::field(Field::Name);
    assert_eq!(expr.weight, 0);
    
    let expr = Expr::field(Field::Accessed);
    assert_eq!(expr.weight, 1);
    
    let expr = Expr::function(Function::Concat);
    assert_eq!(expr.weight, 0);
    
    let expr = Expr::function(Function::Contains);
    assert_eq!(expr.weight, 1024);
    
    let expr = Expr::function_left(Function::Contains, Some(Box::new(Expr::value("foo".to_string()))));
    assert_eq!(expr.weight, 1024);
    
    let expr = Expr::logical_op(
        Expr::op(
            Expr::field(Field::Size),
            Op::Gt,
            Expr::value(String::from("456")),
        ),
        LogicalOp::Or,
        Expr::op(
            Expr::field(Field::FormattedSize),
            Op::Lte,
            Expr::value(String::from("758")),
        ),
    );
    assert_eq!(expr.weight, 2);
    
    let expr = Expr::logical_op(
        Expr::logical_op(
            Expr::op(
                Expr::field(Field::Name),
                Op::Ne,
                Expr::value(String::from("123")),
            ),
            LogicalOp::And,
            Expr::logical_op(
                Expr::op(
                    Expr::field(Field::Size),
                    Op::Gt,
                    Expr::value(String::from("456")),
                ),
                LogicalOp::Or,
                Expr::op(
                    Expr::field(Field::FormattedSize),
                    Op::Lte,
                    Expr::value(String::from("758")),
                ),
            ),
        ),
        LogicalOp::Or,
        Expr::op(
            Expr::field(Field::Name),
            Op::Eq,
            Expr::value(String::from("xxx")),
        ),
    );
    assert_eq!(expr.weight, 2);
}

