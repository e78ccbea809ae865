use fselect::function::{get_value, Function, FunctionValue};
use fselect::mode::get_mode_windows;
use fselect::paths::external_index_depth;

fn value(f: Function, arg: &str, args: &[&str]) -> Result<FunctionValue, String> {
    get_value(&f, arg.to_string(), args.iter().map(|s| s.to_string()).collect()).unwrap()
}

#[test]
fn float_and_file_functions_are_not_computed_here() {
    assert!(get_value(&Function::Abs, String::from("-1"), vec![]).is_none());
    assert!(get_value(&Function::Year, String::from("2020-01-01"), vec![]).is_none());
    assert!(get_value(&Function::Contains, String::from("x"), vec![]).is_none());
}

#[test]
fn aggregates_have_no_value_here() {
    assert_eq!(value(Function::Sum, "5", &[]), Ok(FunctionValue::Empty));
    assert_eq!(value(Function::Count, "", &[]).unwrap().to_string(), "");
}

#[test]
fn negative_numbers_in_bases_use_twos_complement() {
    assert_eq!(value(Function::Hex, "-1", &[]).unwrap().to_string(), "ffffffffffffffff");
    assert_eq!(value(Function::Oct, "-8", &[]).unwrap().to_string(), "1777777777777777777770");
    assert_eq!(value(Function::Bin, "0", &[]).unwrap().to_string(), "0");
    assert_eq!(value(Function::Bin, "abc", &[]), Ok(FunctionValue::Empty));
}

#[test]
fn format_time_writes_each_unit() {
    assert_eq!(value(Function::FormatTime, "90061", &[]).unwrap().to_string(), "1d,1h,1m,1s");
    assert_eq!(value(Function::FormatTime, "0", &[]).unwrap().to_string(), "0μs");
    assert_eq!(value(Function::FormatTime, "", &[]), Ok(FunctionValue::Empty));
}

#[test]
fn replace_takes_occurrences_from_the_left() {
    assert_eq!(value(Function::Replace, "aaa", &["aa", "b"]).unwrap().to_string(), "ba");
    assert_eq!(value(Function::Replace, "abcabc", &["bc", ""]).unwrap().to_string(), "aa");
}

#[test]
fn concat_functions_join_their_arguments() {
    assert_eq!(value(Function::Concat, "a", &["b", "c"]).unwrap().to_string(), "abc");
    assert_eq!(value(Function::ConcatWs, "-", &[]).unwrap().to_string(), "");
    assert_eq!(value(Function::ConcatWs, "-", &["x"]).unwrap().to_string(), "x");
}

#[test]
fn substring_from_the_end() {
    assert_eq!(value(Function::Substring, "hello", &["-3"]).unwrap().to_string(), "llo");
    assert_eq!(value(Function::Substring, "hello", &["10"]).unwrap().to_string(), "");
    assert_eq!(value(Function::Substring, "hello", &["2", "100"]).unwrap().to_string(), "ello");
}

#[test]
fn locate_messages_name_the_argument() {
    assert_eq!(
        value(Function::Locate, "hello", &["l", "x"]),
        Err(String::from("Could not parse position argument of LOCATE function: x"))
    );
    assert_eq!(
        value(Function::Random, "q", &[]),
        Err(String::from("Could not parse an argument of RANDOM function: q"))
    );
}

#[test]
fn random_with_equal_bounds_gives_the_bound() {
    assert_eq!(value(Function::Random, "4", &["4"]).unwrap().to_int(), 4);
    assert_eq!(value(Function::Random, "-3", &[]).unwrap().to_int(), 0);
}

#[test]
fn values_read_as_numbers() {
    assert_eq!(FunctionValue::Str(String::from("42")).to_int(), 42);
    assert_eq!(FunctionValue::Str(String::from("x")).to_int(), 0);
    assert_eq!(FunctionValue::Int(-7).to_string(), "-7");
    assert_eq!(FunctionValue::Int(i64::MIN).to_string(), "-9223372036854775808");
    assert_eq!(FunctionValue::Empty.to_int(), 0);
}

#[test]
fn base64_round_trip() {
    let encoded = value(Function::ToBase64, "fselect", &[]).unwrap().to_string();
    assert_eq!(value(Function::FromBase64, &encoded, &[]).unwrap().to_string(), "fselect");
    assert_eq!(value(Function::FromBase64, "!!", &[]).unwrap().to_string(), "");
}

#[test]
fn windows_attributes_are_named_in_order() {
    assert_eq!(get_mode_windows(0x20 | 0x1), "Archive, Readonly");
    assert_eq!(get_mode_windows(0x10), "Directory");
    assert_eq!(get_mode_windows(0), "");
}

#[test]
fn index_depth_counts_components_below_the_root() {
    assert_eq!(external_index_depth("/home/u/a/b.txt", "/home/u/"), Some(2));
    assert_eq!(external_index_depth("/home/u/a", "/home/u/"), Some(1));
    assert_eq!(external_index_depth("/home/u/", "/home/u/"), None);
    assert_eq!(external_index_depth("/etc/x", "/home/u/"), None);
}

#[test]
fn current_user_and_group_names_follow_the_machine() {
    let user = uzers::get_current_username().and_then(|u| u.into_string().ok());
    match user {
        Some(n) => assert_eq!(value(Function::CurrentUser, "", &[]).unwrap().to_string(), n),
        None => assert_eq!(value(Function::CurrentUser, "", &[]), Ok(FunctionValue::Empty)),
    }
    let group = uzers::get_current_groupname().and_then(|g| g.into_string().ok());
    match group {
        Some(n) => assert_eq!(value(Function::CurrentGroup, "", &[]).unwrap().to_string(), n),
        None => assert_eq!(value(Function::CurrentGroup, "", &[]), Ok(FunctionValue::Empty)),
    }
}

#[test]
fn initcap_keeps_other_letters_and_marks_each_word() {
    assert_eq!(value(Function::InitCap, "", &[]).unwrap().to_string(), "");
    assert_eq!(value(Function::InitCap, "mIxed case", &[]).unwrap().to_string(), "MIxed Case");
    assert_eq!(value(Function::InitCap, "a b", &[]).unwrap().to_string(), "A B");
}

#[test]
fn scripts_are_told_apart() {
    assert_eq!(value(Function::ContainsGreek, "abc", &[]).unwrap().to_bool(), false);
    assert_eq!(value(Function::ContainsJapanese, "abc", &[]).unwrap().to_bool(), false);
    assert_eq!(value(Function::ContainsHiragana, "カタカナ", &[]).unwrap().to_bool(), false);
    assert_eq!(value(Function::ContainsKatakana, "こんにちは", &[]).unwrap().to_bool(), false);
    assert_eq!(value(Function::ContainsKanji, "かな", &[]).unwrap().to_bool(), false);
    assert_eq!(value(Function::ContainsJapanese, "x漢", &[]).unwrap().to_bool(), true);
    assert_eq!(value(Function::ContainsGreek, "x\u{1F00}", &[]).unwrap().to_string(), "true");
}
