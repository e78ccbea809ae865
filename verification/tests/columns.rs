//! Columns of other roots named as `alias.field`, resolved against the
//! values recorded for each alias.

use fselect::columns::{alias_reference, resolve_alias_reference, AliasLookup};
use fselect::expr::Expr;
use fselect::field::Field;
use fselect::query::{Root, RootOptions};

fn context(alias: &str, field: &str, value: &str) -> Vec<(String, Vec<(String, String)>)> {
    vec![(alias.to_string(), vec![(field.to_string(), value.to_string())])]
}

#[test]
fn test_bound_column_resolution_across_root_aliases() {
    // Current file belongs to alias `b`; a value is recorded for alias `a`
    let current_alias = Some(String::from("b"));
    let record_context = context("a", Field::Name.name(), "foo.txt");

    let mut bound_expr = Expr::field(Field::Name);
    bound_expr.root_alias = Some(String::from("a"));

    let v = resolve_alias_reference(&bound_expr, &current_alias, &record_context, &vec![]);
    match v {
        AliasLookup::Recorded(Some(value)) => assert_eq!(value, "foo.txt"),
        _ => panic!("the recorded value of `a.name` is used"),
    }
}

#[test]
fn unknown_root_alias_errors_without_current_alias() {
    let mut bound_expr = Expr::field(Field::Name);
    bound_expr.root_alias = Some(String::from("x"));

    match resolve_alias_reference(&bound_expr, &None, &vec![], &vec![]) {
        AliasLookup::Invalid(description) => assert!(
            description.contains("Invalid root alias: x"),
            "unexpected error message: {}",
            description
        ),
        _ => panic!("unknown alias must not resolve"),
    }
}

#[test]
fn unknown_root_alias_errors_with_current_alias() {
    let current_alias = Some(String::from("b"));
    let mut bound_expr = Expr::field(Field::Name);
    bound_expr.root_alias = Some(String::from("x"));

    let result = resolve_alias_reference(&bound_expr, &current_alias, &vec![], &vec![]);
    assert!(
        matches!(result, AliasLookup::Invalid(ref e) if e.contains("Invalid root alias: x")),
        "unknown alias must be an error"
    );
}

#[test]
fn dotted_value_literal_is_not_treated_as_alias() {
    let literal = Expr::value(String::from("readme.md"));
    let v = resolve_alias_reference(&literal, &None, &vec![], &vec![]);
    assert!(matches!(v, AliasLookup::Evaluate(false)));
    assert_eq!(literal.to_string(), "readme.md");
}

#[test]
fn dotted_value_literal_with_current_alias_returns_literal() {
    let current_alias = Some(String::from("a"));
    let literal = Expr::value(String::from("readme.md"));
    let v = resolve_alias_reference(&literal, &current_alias, &vec![], &vec![]);
    assert!(matches!(v, AliasLookup::Evaluate(false)));
    assert_eq!(literal.to_string(), "readme.md");
}

#[test]
fn outer_alias_resolves_from_context_without_current_alias() {
    let record_context = context("a", Field::Name.name(), "outer.txt");
    let mut bound_expr = Expr::field(Field::Name);
    bound_expr.root_alias = Some(String::from("a"));

    match resolve_alias_reference(&bound_expr, &None, &record_context, &vec![]) {
        AliasLookup::Recorded(Some(value)) => assert_eq!(value, "outer.txt"),
        _ => panic!("the outer alias's recorded value is used"),
    }
}

#[test]
fn declared_alias_with_unpopulated_context_errors_for_value_expr() {
    let mut alias_options = RootOptions::new();
    alias_options.alias = Some(String::from("a"));
    let roots = vec![Root::new(String::from("/tmp"), alias_options)];

    let value_expr = Expr::value(String::from("a.sz"));
    let result = resolve_alias_reference(&value_expr, &None, &vec![], &roots);
    assert!(
        matches!(result, AliasLookup::Invalid(ref e) if e.contains("Invalid root alias: a")),
        "declared but unpopulated alias must error"
    );
}

#[test]
fn columns_of_the_searched_root_update_its_record() {
    let current_alias = Some(String::from("a"));
    let mut bound_expr = Expr::field(Field::Size);
    bound_expr.root_alias = Some(String::from("a"));
    let v = resolve_alias_reference(&bound_expr, &current_alias, &context("a", "size", "1"), &vec![]);
    assert!(matches!(v, AliasLookup::Evaluate(true)));
}

#[test]
fn recorded_alias_without_the_field_gives_no_value() {
    let mut bound_expr = Expr::field(Field::Size);
    bound_expr.root_alias = Some(String::from("a"));
    let v = resolve_alias_reference(&bound_expr, &None, &context("a", "name", "x"), &vec![]);
    assert!(matches!(v, AliasLookup::Recorded(None)));
}

#[test]
fn alias_references_need_two_names() {
    assert_eq!(alias_reference("a.name"), Some((String::from("a"), String::from("name"))));
    assert_eq!(alias_reference("a_1.b2"), Some((String::from("a_1"), String::from("b2"))));
    assert_eq!(alias_reference(".name"), None);
    assert_eq!(alias_reference("a."), None);
    assert_eq!(alias_reference("a.b.c"), None);
    assert_eq!(alias_reference("a-b.c"), None);
    assert_eq!(alias_reference("name"), None);
}
