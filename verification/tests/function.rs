use fselect::function::{get_value, Function};

#[test]
fn function_lower() {
    let function = Function::Lower;
    let function_arg = String::from("HELLO");
    let function_args = vec![];

    let result = get_value(&function, function_arg, function_args).unwrap();
    assert_eq!(result.unwrap().to_string(), "hello");
}

#[test]
fn function_upper() {
    let function = Function::Upper;
    let function_arg = String::from("hello");
    let function_args = vec![];

    let result = get_value(&function, function_arg, function_args).unwrap();
    assert_eq!(result.unwrap().to_string(), "HELLO");
}

#[test]
fn function_length() {
    let function = Function::Length;
    let function_arg = String::from("hello");
    let function_args = vec![];

    let result = get_value(&function, function_arg, function_args).unwrap();
    assert_eq!(result.unwrap().to_int(), 5);
}

#[test]
fn function_to_base64() {
    let function = Function::ToBase64;
    let function_arg = String::from("hello");
    let function_args = vec![];

    let result = get_value(&function, function_arg, function_args).unwrap();
    assert_eq!(result.unwrap().to_string(), "aGVsbG8=");
}

#[test]
fn function_from_base64() {
    let function = Function::FromBase64;
    let function_arg = String::from("aGVsbG8=");
    let function_args = vec![];

    let result = get_value(&function, function_arg, function_args).unwrap();
    assert_eq!(result.unwrap().to_string(), "hello");
}

#[test]
fn function_concat() {
    let function = Function::Concat;
    let function_arg = String::from("hello");
    let function_args = vec![String::from(" world")];

    let result = get_value(&function, function_arg, function_args).unwrap();
    assert_eq!(result.unwrap().to_string(), "hello world");
}

#[test]
fn function_concat_ws() {
    let function = Function::ConcatWs;
    let function_arg = String::from(", ");
    let function_args = vec![String::from("hello"), String::from("world")];

    let result = get_value(&function, function_arg, function_args).unwrap();
    assert_eq!(result.unwrap().to_string(), "hello, world");
}

#[test]
fn function_locate() {
    let function = Function::Locate;
    let function_arg = String::from("hello world");
    let function_args = vec![String::from("world"), String::from("1")];

    let result = get_value(&function, function_arg, function_args).unwrap();
    assert_eq!(result.unwrap().to_int(), 7);
}

#[test]
fn function_substring() {
    let function = Function::Substring;
    let function_arg = String::from("hello world");
    let function_args = vec![String::from("7"), String::from("5")];

    let result = get_value(&function, function_arg, function_args).unwrap();
    assert_eq!(result.unwrap().to_string(), "world");
}

#[test]
fn function_replace() {
    let function = Function::Replace;
    let function_arg = String::from("hello world");
    let function_args = vec![String::from("world"), String::from("Rust")];

    let result = get_value(&function, function_arg, function_args).unwrap();
    assert_eq!(result.unwrap().to_string(), "hello Rust");
}

#[test]
fn function_trim() {
    let function = Function::Trim;
    let function_arg = String::from("   hello   ");
    let function_args = vec![];

    let result = get_value(&function, function_arg, function_args).unwrap();
    assert_eq!(result.unwrap().to_string(), "hello");
}

#[test]
fn function_ltrim() {
    let function = Function::LTrim;
    let function_arg = String::from("   hello   ");
    let function_args = vec![];

    let result = get_value(&function, function_arg, function_args).unwrap();
    assert_eq!(result.unwrap().to_string(), "hello   ");
}

#[test]
fn function_rtrim() {
    let function = Function::RTrim;
    let function_arg = String::from("   hello   ");
    let function_args = vec![];

    let result = get_value(&function, function_arg, function_args).unwrap();
    assert_eq!(result.unwrap().to_string(), "   hello");
}

#[test]
fn function_bin() {
    let function = Function::Bin;
    let function_arg = String::from("10");
    let function_args = vec![];

    let result = get_value(&function, function_arg, function_args).unwrap();
    assert_eq!(result.unwrap().to_string(), "1010");
}

#[test]
fn function_hex() {
    let function = Function::Hex;
    let function_arg = String::from("255");
    let function_args = vec![];

    let result = get_value(&function, function_arg, function_args).unwrap();
    assert_eq!(result.unwrap().to_string(), "ff");
}

#[test]
fn function_oct() {
    let function = Function::Oct;
    let function_arg = String::from("8");
    let function_args = vec![];

    let result = get_value(&function, function_arg, function_args).unwrap();
    assert_eq!(result.unwrap().to_string(), "10");
}

#[test]
fn function_format_time() {
    let function = Function::FormatTime;
    let function_arg = String::from("3600");
    let function_args = vec![];

    let result = get_value(&function, function_arg, function_args).unwrap();
    assert_eq!(result.unwrap().to_string(), "1h");
}

#[test]
fn function_current_uid() {
    let function = Function::CurrentUid;
    let function_arg = String::new();
    let function_args = vec![];

    let result = get_value(&function, function_arg, function_args).unwrap();
    assert_eq!(result.unwrap().to_int(), uzers::get_current_uid() as i64);
}

#[test]
fn function_current_gid() {
    let function = Function::CurrentGid;
    let function_arg = String::new();
    let function_args = vec![];

    let result = get_value(&function, function_arg, function_args).unwrap();
    assert_eq!(result.unwrap().to_int(), uzers::get_current_gid() as i64);
}

#[test]
fn function_coalesce() {
    let function = Function::Coalesce;
    let function_arg = String::new();
    let function_args = vec![String::new(), String::from("hello"), String::from("world")];

    let result = get_value(&function, function_arg, function_args).unwrap();
    assert_eq!(result.unwrap().to_string(), "hello");
}

#[test]
fn locate_wrong_position_for_multibyte() {
    let result = get_value(
        &Function::Locate,
        String::from("aéb"),
        vec![String::from("b")],
    ).unwrap().unwrap();
    assert_eq!(result.to_int(), 3);
}

#[test]
fn format_time_panics_on_non_numeric() {
    let result = get_value(
        &Function::FormatTime,
        String::from("abc"),
        vec![],
    ).unwrap();
    assert!(result.is_ok());
}

#[test]
fn random_panics_on_zero_upper_bound() {
    let result = get_value(
        &Function::Random,
        String::from("0"),
        vec![],
    ).unwrap();
    assert!(result.is_ok());
}

#[test]
fn random_panics_on_inverted_range() {
    let result = get_value(
        &Function::Random,
        String::from("5"),
        vec![String::from("3")],
    ).unwrap();
    assert!(result.is_ok());
}

#[test]
fn locate_errors_on_non_numeric_position() {
    let result = get_value(
        &Function::Locate,
        String::from("hello"),
        vec![String::from("l"), String::from("abc")],
    ).unwrap();
    assert!(result.is_err());
}

#[test]
fn substring_errors_on_non_numeric_position() {
    let result = get_value(
        &Function::Substring,
        String::from("hello"),
        vec![String::from("abc")],
    ).unwrap();
    assert!(result.is_err());
}

#[test]
fn substring_errors_on_non_numeric_length() {
    let result = get_value(
        &Function::Substring,
        String::from("hello"),
        vec![String::from("1"), String::from("abc")],
    ).unwrap();
    assert!(result.is_err());
}

#[test]
fn locate_no_search_arg_returns_error() {
    let result = get_value(
        &Function::Locate,
        String::from("hello"),
        vec![],
    ).unwrap();
    assert!(result.is_err());
}

#[test]
fn replace_missing_args_returns_error() {
    let result = get_value(
        &Function::Replace,
        String::from("hello"),
        vec![],
    ).unwrap();
    assert!(result.is_err());
}

#[test]
fn replace_missing_to_arg_returns_error() {
    let result = get_value(
        &Function::Replace,
        String::from("hello"),
        vec![String::from("l")],
    ).unwrap();
    assert!(result.is_err());
}

#[test]
fn substring_very_negative_pos_clamps() {
    let result = get_value(
        &Function::Substring,
        String::from("hello"),
        vec![String::from("-100"), String::from("3")],
    ).unwrap();
    assert_eq!(result.unwrap().to_string(), "hel");
}

#[test]
fn locate_position_zero_finds_match() {
    let result = get_value(
        &Function::Locate,
        String::from("hello"),
        vec![String::from("h"), String::from("0")],
    ).unwrap();
    assert_eq!(result.unwrap().to_string(), "1");
}

#[test]
fn substring_position_zero_with_length() {
    let result = get_value(
        &Function::Substring,
        String::from("hello"),
        vec![String::from("0"), String::from("3")],
    ).unwrap();
    assert_eq!(result.unwrap().to_string(), "hel");
}

#[test]
fn substring_position_zero_without_length() {
    let result = get_value(
        &Function::Substring,
        String::from("hello"),
        vec![String::from("0")],
    ).unwrap();
    assert_eq!(result.unwrap().to_string(), "hello");
}

#[test]
fn substring_explicit_length_zero() {
    let result = get_value(
        &Function::Substring,
        String::from("hello"),
        vec![String::from("2"), String::from("0")],
    ).unwrap();
    assert_eq!(result.unwrap().to_string(), "");
}

#[test]
fn replace_empty_search_returns_original() {
    let result = get_value(
        &Function::Replace,
        String::from("hello"),
        vec![String::from(""), String::from("x")],
    ).unwrap();
    assert_eq!(result.unwrap().to_string(), "hello");
}

#[test]
fn random_upper_bound_is_inclusive() {
    let mut saw_max = false;
    for _ in 0..1000 {
        let result = get_value(
            &Function::Random,
            String::from("1"),
            vec![],
        ).unwrap();
        let val = result.unwrap().to_int();
        assert!(val >= 0 && val <= 1);
        if val == 1 {
            saw_max = true;
        }
    }
    assert!(saw_max, "random(1) should be able to produce 1");
}

#[test]
fn random_range_upper_bound_is_inclusive() {
    let mut saw_max = false;
    for _ in 0..1000 {
        let result = get_value(
            &Function::Random,
            String::from("5"),
            vec![String::from("6")],
        ).unwrap();
        let val = result.unwrap().to_int();
        assert!(val >= 5 && val <= 6);
        if val == 6 {
            saw_max = true;
        }
    }
    assert!(saw_max, "random(5, 6) should be able to produce 6");
}

#[test]
fn locate_empty_substring_beyond_string_length() {
    let result = get_value(
        &Function::Locate,
        String::from("hello"),
        vec![String::from(""), String::from("100")],
    ).unwrap();
    assert_eq!(result.unwrap().to_int(), 0);
}

#[test]
fn locate_beyond_string_length_returns_zero() {
    let result = get_value(
        &Function::Locate,
        String::from("hello"),
        vec![String::from("o"), String::from("100")],
    ).unwrap();
    assert_eq!(result.unwrap().to_int(), 0);
}

#[test]
fn locate_empty_substring_at_end_plus_one() {
    let result = get_value(
        &Function::Locate,
        String::from("hello"),
        vec![String::from(""), String::from("6")],
    ).unwrap();
    assert_eq!(result.unwrap().to_int(), 6);
}

#[test]
fn locate_empty_substring_past_end_plus_one() {
    let result = get_value(
        &Function::Locate,
        String::from("hello"),
        vec![String::from(""), String::from("7")],
    ).unwrap();
    assert_eq!(result.unwrap().to_int(), 0);
}

#[test]
fn locate_i32_min_position_no_overflow() {
    let result = get_value(
        &Function::Locate,
        String::from("hello"),
        vec![String::from("l"), String::from("-2147483648")],
    ).unwrap();
    assert_eq!(result.unwrap().to_int(), 3);
}

#[test]
fn function_initcap() {
    let function = Function::InitCap;
    let function_arg = String::from("hello world");
    let function_args = vec![];

    let result = get_value(&function, function_arg, function_args).unwrap();
    assert_eq!(result.unwrap().to_string(), "Hello World");
}

#[test]
fn initcap_collapses_multiple_spaces() {
    let function = Function::InitCap;
    let function_arg = String::from("hello  world");
    let function_args = vec![];

    let result = get_value(&function, function_arg, function_args).unwrap();
    assert_eq!(result.unwrap().to_string(), "Hello  World");
}

#[test]
fn initcap_destroys_tab_separator() {
    let function = Function::InitCap;
    let function_arg = String::from("hello\tworld");
    let function_args = vec![];

    let result = get_value(&function, function_arg, function_args).unwrap();
    assert_eq!(result.unwrap().to_string(), "Hello\tWorld");
}

#[test]
fn initcap_hyphenated_words() {
    let function = Function::InitCap;
    let function_arg = String::from("hello-world");
    let function_args = vec![];

    let result = get_value(&function, function_arg, function_args).unwrap();
    assert_eq!(result.unwrap().to_string(), "Hello-World");
}

#[test]
fn initcap_underscore_words() {
    let function = Function::InitCap;
    let function_arg = String::from("foo_bar_baz");
    let function_args = vec![];

    let result = get_value(&function, function_arg, function_args).unwrap();
    assert_eq!(result.unwrap().to_string(), "Foo_Bar_Baz");
}

#[test]
fn function_contains_japanese() {
    let function = Function::ContainsJapanese;
    let function_arg = String::from("こんにちは");
    let function_args = vec![];

    let result = get_value(&function, function_arg, function_args).unwrap();
    assert_eq!(result.unwrap().to_bool(), true);
}

#[test]
fn function_contains_hiragana() {
    let function = Function::ContainsHiragana;
    let function_arg = String::from("こんにちは");
    let function_args = vec![];

    let result = get_value(&function, function_arg, function_args).unwrap();
    assert_eq!(result.unwrap().to_bool(), true);
}

#[test]
fn function_contains_katakana() {
    let function = Function::ContainsKatakana;
    let function_arg = String::from("カタカナ");
    let function_args = vec![];

    let result = get_value(&function, function_arg, function_args).unwrap();
    assert_eq!(result.unwrap().to_bool(), true);
}

#[test]
fn function_contains_kana() {
    let function = Function::ContainsKana;
    let function_arg = String::from("カタカナ");
    let function_args = vec![];

    let result = get_value(&function, function_arg, function_args).unwrap();
    assert_eq!(result.unwrap().to_bool(), true);
}

#[test]
fn function_contains_kanji() {
    let function = Function::ContainsKanji;
    let function_arg = String::from("漢字");
    let function_args = vec![];

    let result = get_value(&function, function_arg, function_args).unwrap();
    assert_eq!(result.unwrap().to_bool(), true);
}

#[test]
fn function_contains_greek() {
    let function = Function::ContainsGreek;
    let function_arg = String::from("Ελληνικά");
    let function_args = vec![];

    let result = get_value(&function, function_arg, function_args).unwrap();
    assert_eq!(result.unwrap().to_bool(), true);
}
