//! Field classification and weights.

use fselect::field::Field;

#[test]
fn test_colorized() {
    let field = Field::Name;
    assert_eq!(field.is_colorized_field(), true);

    let field = Field::Size;
    assert_eq!(field.is_colorized_field(), false);
}

#[test]
fn test_is_numeric_field() {
    let field = Field::Size;
    assert_eq!(field.is_numeric_field(), true);

    let field = Field::Name;
    assert_eq!(field.is_numeric_field(), false);
}

#[test]
fn test_is_datetime_field() {
    let field = Field::Created;
    assert_eq!(field.is_datetime_field(), true);

    let field = Field::Name;
    assert_eq!(field.is_datetime_field(), false);
}

#[test]
fn test_is_boolean_field() {
    let field = Field::IsDir;
    assert_eq!(field.is_boolean_field(), true);

    let field = Field::Name;
    assert_eq!(field.is_boolean_field(), false);
}

#[test]
fn test_is_available_for_archived_files() {
    let field = Field::Name;
    assert_eq!(field.is_available_for_archived_files(), true);

    let field = Field::LineCount;
    assert_eq!(field.is_available_for_archived_files(), false);
}

#[test]
fn field_test_weight() {
    let field = Field::Name;
    assert_eq!(field.get_weight(), 0);

    let field = Field::Size;
    assert_eq!(field.get_weight(), 1);
}

