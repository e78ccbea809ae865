//! Result formatters: flat text, CSV, JSON and HTML.

use fselect::output::{
    escape_html, lines_formatter, list_formatter, tabs_formatter, CsvFormatter, HtmlFormatter,
    JsonFormatter, ResultsFormatter,
};

/// Writes a header, two rows of two columns and a footer, as the results
/// writer does, and gathers all the text.
fn write_test_items<T: ResultsFormatter>(under_test: &mut T) -> String {
    let mut result = String::from("");
    if let Some(s) = under_test.header("select key, value", 2) {
        result.push_str(&s);
    }
    if let Some(s) = under_test.row_started() {
        result.push_str(&s);
    }
    if let Some(s) = under_test.format_element("foo", "foo_value", false) {
        result.push_str(&s);
    }
    if let Some(s) = under_test.format_element("bar", "BAR value", true) {
        result.push_str(&s);
    }
    if let Some(s) = under_test.row_ended() {
        result.push_str(&s);
    }
    if let Some(s) = under_test.row_separator() {
        result.push_str(&s);
    }
    if let Some(s) = under_test.row_started() {
        result.push_str(&s);
    }
    if let Some(s) = under_test.format_element("foo", "123", false) {
        result.push_str(&s);
    }
    if let Some(s) = under_test.format_element("bar", "", true) {
        result.push_str(&s);
    }
    if let Some(s) = under_test.row_ended() {
        result.push_str(&s);
    }
    if let Some(s) = under_test.footer() {
        result.push_str(&s);
    }
    result
}

#[test]
fn csv_test() {
    let result = write_test_items(&mut CsvFormatter::new());
    assert_eq!("foo_value,BAR value\n123,\n", result);
}

#[test]
fn multibyte_row_larger_than_internal_buffer_is_not_dropped() {
    // A row larger than the csv writer's 8KB internal buffer used to be
    // flushed at a non-character byte boundary and silently discarded.
    let mut formatter = CsvFormatter::new();
    let big_value = "é".repeat(6000); // 12000 bytes
    formatter.format_element("col1", &big_value, false);
    formatter.format_element("col2", "x", true);

    let row = formatter.row_ended().expect("row must be produced");
    assert!(row.contains(&big_value));
    assert!(row.ends_with("x\n"));
}

#[test]
fn test_lines() {
    let result = write_test_items(&mut lines_formatter());
    assert_eq!("foo_value\nBAR value\n123\n\n", result);
}

#[test]
fn test_list() {
    let result = write_test_items(&mut list_formatter());
    assert_eq!("foo_value\0BAR value\0123\0\0", result);
}

#[test]
fn test_tab() {
    let result = write_test_items(&mut tabs_formatter());
    assert_eq!("foo_value\tBAR value\n123\t\n", result);
}

#[test]
fn html_test() {
    let result = write_test_items(&mut HtmlFormatter);
    assert_eq!("<html><head><title>select key, value</title></head><body><table><tr><th colspan=\"2\">select key, value</th></tr><tr><td>foo_value</td><td>BAR value</td></tr><tr><td>123</td><td></td></tr></table></body></html>", result);
}

#[test]
fn test_escape_html() {
    assert_eq!(escape_html("<script>alert(1)</script>"), "&lt;script&gt;alert(1)&lt;/script&gt;");
    assert_eq!(escape_html("a&b"), "a&amp;b");
    assert_eq!(escape_html("\"hello\""), "&quot;hello&quot;");
}

#[test]
fn json_test() {
    let result = write_test_items(&mut JsonFormatter::new());
    assert_eq!(
        r#"[{"bar":"BAR value","foo":"foo_value"},{"bar":"","foo":"123"}]"#,
        result
    );
}
