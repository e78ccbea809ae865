//! Lexing of queries: keywords, operators, strings, roots and dates.

use fselect::lexer::{looks_like_date, Lexeme, Lexer};

#[test]
fn looks_like_date_test() {
    assert!(looks_like_date("2018"));
    assert!(looks_like_date("2018-01"));
}

#[test]
fn lexemes() {
    let mut lexer = Lexer::new(vec!["select name, path ,size , fsize from /test depth 2, /test2 archives,/test3 depth 3 archives , /test4 ,'/test5' where name != 123 AND ( size gt 456 or fsize lte 758) or name = 'xxx' order by 1 ,3 desc , path asc limit 50".to_string()]);
    
    assert_eq!(
        lexer.next_lexeme(),
        Some(Lexeme::Select)
    );
    assert_eq!(
        lexer.next_lexeme(),
        Some(Lexeme::RawString(String::from("name")))
    );
    assert_eq!(lexer.next_lexeme(), Some(Lexeme::Comma));
    assert_eq!(
        lexer.next_lexeme(),
        Some(Lexeme::RawString(String::from("path")))
    );
    assert_eq!(lexer.next_lexeme(), Some(Lexeme::Comma));
    assert_eq!(
        lexer.next_lexeme(),
        Some(Lexeme::RawString(String::from("size")))
    );
    assert_eq!(lexer.next_lexeme(), Some(Lexeme::Comma));
    assert_eq!(
        lexer.next_lexeme(),
        Some(Lexeme::RawString(String::from("fsize")))
    );
    assert_eq!(lexer.next_lexeme(), Some(Lexeme::From));
    assert_eq!(
        lexer.next_lexeme(),
        Some(Lexeme::RawString(String::from("/test")))
    );
    assert_eq!(
        lexer.next_lexeme(),
        Some(Lexeme::RawString(String::from("depth")))
    );
    assert_eq!(
        lexer.next_lexeme(),
        Some(Lexeme::RawString(String::from("2")))
    );
    assert_eq!(lexer.next_lexeme(), Some(Lexeme::Comma));
    assert_eq!(
        lexer.next_lexeme(),
        Some(Lexeme::RawString(String::from("/test2")))
    );
    assert_eq!(
        lexer.next_lexeme(),
        Some(Lexeme::RawString(String::from("archives")))
    );
    assert_eq!(lexer.next_lexeme(), Some(Lexeme::Comma));
    assert_eq!(
        lexer.next_lexeme(),
        Some(Lexeme::RawString(String::from("/test3")))
    );
    assert_eq!(
        lexer.next_lexeme(),
        Some(Lexeme::RawString(String::from("depth")))
    );
    assert_eq!(
        lexer.next_lexeme(),
        Some(Lexeme::RawString(String::from("3")))
    );
    assert_eq!(
        lexer.next_lexeme(),
        Some(Lexeme::RawString(String::from("archives")))
    );
    assert_eq!(lexer.next_lexeme(), Some(Lexeme::Comma));
    assert_eq!(
        lexer.next_lexeme(),
        Some(Lexeme::RawString(String::from("/test4")))
    );
    assert_eq!(lexer.next_lexeme(), Some(Lexeme::Comma));
    assert_eq!(
        lexer.next_lexeme(),
        Some(Lexeme::String(String::from("/test5")))
    );
    assert_eq!(lexer.next_lexeme(), Some(Lexeme::Where));
    assert_eq!(
        lexer.next_lexeme(),
        Some(Lexeme::RawString(String::from("name")))
    );
    assert_eq!(
        lexer.next_lexeme(),
        Some(Lexeme::Operator(String::from("!=")))
    );
    assert_eq!(
        lexer.next_lexeme(),
        Some(Lexeme::RawString(String::from("123")))
    );
    assert_eq!(lexer.next_lexeme(), Some(Lexeme::And));
    assert_eq!(lexer.next_lexeme(), Some(Lexeme::Open));
    assert_eq!(
        lexer.next_lexeme(),
        Some(Lexeme::RawString(String::from("size")))
    );
    assert_eq!(
        lexer.next_lexeme(),
        Some(Lexeme::Operator(String::from("gt")))
    );
    assert_eq!(
        lexer.next_lexeme(),
        Some(Lexeme::RawString(String::from("456")))
    );
    assert_eq!(lexer.next_lexeme(), Some(Lexeme::Or));
    assert_eq!(
        lexer.next_lexeme(),
        Some(Lexeme::RawString(String::from("fsize")))
    );
    assert_eq!(
        lexer.next_lexeme(),
        Some(Lexeme::Operator(String::from("lte")))
    );
    assert_eq!(
        lexer.next_lexeme(),
        Some(Lexeme::RawString(String::from("758")))
    );
    assert_eq!(lexer.next_lexeme(), Some(Lexeme::Close));
    assert_eq!(lexer.next_lexeme(), Some(Lexeme::Or));
    assert_eq!(
        lexer.next_lexeme(),
        Some(Lexeme::RawString(String::from("name")))
    );
    assert_eq!(lexer.next_lexeme(), Some(Lexeme::Operator(String::from("="))));
    assert_eq!(lexer.next_lexeme(), Some(Lexeme::String(String::from("xxx"))));
    assert_eq!(lexer.next_lexeme(), Some(Lexeme::Order));
    assert_eq!(lexer.next_lexeme(), Some(Lexeme::By));
    assert_eq!(
        lexer.next_lexeme(),
        Some(Lexeme::RawString(String::from("1")))
    );
    assert_eq!(lexer.next_lexeme(), Some(Lexeme::Comma));
    assert_eq!(
        lexer.next_lexeme(),
        Some(Lexeme::RawString(String::from("3")))
    );
    assert_eq!(lexer.next_lexeme(), Some(Lexeme::DescendingOrder));
    assert_eq!(lexer.next_lexeme(), Some(Lexeme::Comma));
    assert_eq!(
        lexer.next_lexeme(),
        Some(Lexeme::RawString(String::from("path")))
    );
    assert_eq!(lexer.next_lexeme(), Some(Lexeme::Limit));
    assert_eq!(
        lexer.next_lexeme(),
        Some(Lexeme::RawString(String::from("50")))
    );
}

#[test]
fn spaces() {
    let lexer = Lexer::new(vec!["path,size from . where size=0".to_string()]);
    assert_spaces(lexer);

    let lexer = Lexer::new(vec!["path,size from . where size =0".to_string()]);
    assert_spaces(lexer);

    let lexer = Lexer::new(vec!["path,size from . where size= 0".to_string()]);
    assert_spaces(lexer);

    let lexer = Lexer::new(vec!["path,size from . where size = 0".to_string()]);
    assert_spaces(lexer);

    let lexer = Lexer::new(vec!["path,size from . where size   =     0".to_string()]);
    assert_spaces(lexer);
}

#[test]
fn func_calls() {
    let mut lexer = Lexer::new(vec!["name, length(name),UPPER( name ) from .".to_string()]);
    assert_func_calls_lexemes(&mut lexer);
}

#[test]
fn func_calls_with_multiple_input_parts() {
    let mut lexer = Lexer::new(vec!["name,".to_string(), "length(name),UPPER(".to_string(), "name".to_string(), ")".to_string(), "from".to_string(), ".".to_string()]);
    assert_func_calls_lexemes(&mut lexer);
}

#[test]
fn func_calls2() {
    let mut lexer = Lexer::new(vec!["select name, upper(name) from . depth 1".to_string()]);
    assert_func_calls2_lexemes(&mut lexer);
}

#[test]
fn func_calls2_with_multiple_input_parts() {
    let mut lexer = Lexer::new(vec!["select".to_string(), "name,".to_string(), "upper(name)".to_string(), "from".to_string(), ".".to_string(), "depth".to_string(), "1".to_string()]);
    assert_func_calls2_lexemes(&mut lexer);
}

#[test]
fn func_calls3() {
    let mut lexer = Lexer::new(vec!["select name, rand() from . depth 1 order by rand() limit 10".to_string()]);
    assert_func_calls3_lexemes(&mut lexer);
}

#[test]
fn func_calls3_with_multiple_input_parts() {
    let mut lexer = Lexer::new(vec!["select".to_string(), "name,".to_string(), "rand()".to_string(), "from".to_string(), ".".to_string(), "depth".to_string(), "1".to_string(), "order".to_string(), "by".to_string(), "rand()".to_string(), "limit".to_string(), "10".to_string()]);
    assert_func_calls3_lexemes(&mut lexer);
}

#[test]
fn agg_func_calls() {
    let mut lexer = Lexer::new(vec!["COUNT(*), MIN(size), AVG(size), MAX(size) from .".to_string()]);
    assert_agg_func_calls_lexemes(&mut lexer);
}

#[test]
fn agg_func_calls_with_multiple_input_parts() {
    let mut lexer = Lexer::new(vec!["COUNT(*),".to_string(), "MIN(size),".to_string(), "AVG(size),".to_string(), "MAX(size)".to_string(), "from".to_string(), ".".to_string()]);
    assert_agg_func_calls_lexemes(&mut lexer);
}

#[test]
fn arithmetic_operators() {
    let mut lexer = Lexer::new(vec!["width + height, width-height, width mul height, path from .".to_string()]);

    assert_eq!(
        lexer.next_lexeme(),
        Some(Lexeme::RawString(String::from("width")))
    );
    assert_eq!(
        lexer.next_lexeme(),
        Some(Lexeme::ArithmeticOperator(String::from("+")))
    );
    assert_eq!(
        lexer.next_lexeme(),
        Some(Lexeme::RawString(String::from("height")))
    );
    assert_eq!(lexer.next_lexeme(), Some(Lexeme::Comma));
    assert_eq!(
        lexer.next_lexeme(),
        Some(Lexeme::RawString(String::from("width")))
    );
    assert_eq!(
        lexer.next_lexeme(),
        Some(Lexeme::ArithmeticOperator(String::from("-")))
    );
    assert_eq!(
        lexer.next_lexeme(),
        Some(Lexeme::RawString(String::from("height")))
    );
    assert_eq!(lexer.next_lexeme(), Some(Lexeme::Comma));
    assert_eq!(
        lexer.next_lexeme(),
        Some(Lexeme::RawString(String::from("width")))
    );
    assert_eq!(
        lexer.next_lexeme(),
        Some(Lexeme::ArithmeticOperator(String::from("mul")))
    );
    assert_eq!(
        lexer.next_lexeme(),
        Some(Lexeme::RawString(String::from("height")))
    );
    assert_eq!(lexer.next_lexeme(), Some(Lexeme::Comma));
    assert_eq!(
        lexer.next_lexeme(),
        Some(Lexeme::RawString(String::from("path")))
    );
    assert_eq!(lexer.next_lexeme(), Some(Lexeme::From));
    assert_eq!(
        lexer.next_lexeme(),
        Some(Lexeme::RawString(String::from(".")))
    );
}

#[test]
fn context_sensitive_date_string() {
    let mut lexer = Lexer::new(vec!["size,modified,path from . where modified gt 2018-08-01 and name='*.txt' order by modified".to_string()]);

    assert_eq!(
        lexer.next_lexeme(),
        Some(Lexeme::RawString(String::from("size")))
    );
    assert_eq!(lexer.next_lexeme(), Some(Lexeme::Comma));
    assert_eq!(
        lexer.next_lexeme(),
        Some(Lexeme::RawString(String::from("modified")))
    );
    assert_eq!(lexer.next_lexeme(), Some(Lexeme::Comma));
    assert_eq!(
        lexer.next_lexeme(),
        Some(Lexeme::RawString(String::from("path")))
    );
    assert_eq!(lexer.next_lexeme(), Some(Lexeme::From));
    assert_eq!(
        lexer.next_lexeme(),
        Some(Lexeme::RawString(String::from(".")))
    );
    assert_eq!(lexer.next_lexeme(), Some(Lexeme::Where));
    assert_eq!(
        lexer.next_lexeme(),
        Some(Lexeme::RawString(String::from("modified")))
    );
    assert_eq!(
        lexer.next_lexeme(),
        Some(Lexeme::Operator(String::from("gt")))
    );
    assert_eq!(
        lexer.next_lexeme(),
        Some(Lexeme::RawString(String::from("2018-08-01")))
    );
    assert_eq!(lexer.next_lexeme(), Some(Lexeme::And));
    assert_eq!(
        lexer.next_lexeme(),
        Some(Lexeme::RawString(String::from("name")))
    );
    assert_eq!(lexer.next_lexeme(), Some(Lexeme::Operator(String::from("="))));
    assert_eq!(
        lexer.next_lexeme(),
        Some(Lexeme::String(String::from("*.txt")))
    );
    assert_eq!(lexer.next_lexeme(), Some(Lexeme::Order));
    assert_eq!(lexer.next_lexeme(), Some(Lexeme::By));
    assert_eq!(
        lexer.next_lexeme(),
        Some(Lexeme::RawString(String::from("modified")))
    );
}

#[test]
fn root_with_dashes() {
    let mut lexer = Lexer::new(vec!["path from ./foo-bar".to_string()]);
    assert_root_with_dashes_lexemes(&mut lexer);
}

#[test]
fn root_with_dashes_with_multiple_input_parts() {
    let mut lexer = Lexer::new(vec!["path".to_string(), "from".to_string(), "./foo-bar".to_string()]);
    assert_root_with_dashes_lexemes(&mut lexer);
}

#[test]
fn another_workaround_for_raw_paths() {
    let mut lexer = Lexer::new(vec!["name, size where path eq \\*some/stuff-inside/\\*.rs".to_string()]);

    assert_eq!(
        lexer.next_lexeme(),
        Some(Lexeme::RawString(String::from("name")))
    );
    assert_eq!(lexer.next_lexeme(), Some(Lexeme::Comma));
    assert_eq!(
        lexer.next_lexeme(),
        Some(Lexeme::RawString(String::from("size")))
    );
    assert_eq!(lexer.next_lexeme(), Some(Lexeme::Where));
    assert_eq!(
        lexer.next_lexeme(),
        Some(Lexeme::RawString(String::from("path")))
    );
    assert_eq!(
        lexer.next_lexeme(),
        Some(Lexeme::Operator(String::from("eq")))
    );
    assert_eq!(
        lexer.next_lexeme(),
        Some(Lexeme::RawString(String::from(
            "\\*some/stuff-inside/\\*.rs"
        )))
    );
}

#[test]
fn mime_types() {
    let mut lexer = Lexer::new(vec!["mime from . where mime = application/pkcs8+pem".to_string()]);
    assert_mime_types_lexemes(&mut lexer);
}

#[test]
fn mime_types_with_multiple_input_parts() {
    let mut lexer = Lexer::new(vec!["mime".to_string(), "from".to_string(), ".".to_string(), "where".to_string(), "mime".to_string(), "=".to_string(), "application/pkcs8+pem".to_string()]);
    assert_mime_types_lexemes(&mut lexer);
}

#[test]
fn raw_abs_path_after_eq() {
    let mut lexer = Lexer::new(vec!["abspath,absdir,name where absdir = /home/user/docs".to_string()]);

    assert_eq!(
        lexer.next_lexeme(),
        Some(Lexeme::RawString(String::from("abspath")))
    );
    assert_eq!(lexer.next_lexeme(), Some(Lexeme::Comma));
    assert_eq!(
        lexer.next_lexeme(),
        Some(Lexeme::RawString(String::from("absdir")))
    );
    assert_eq!(lexer.next_lexeme(), Some(Lexeme::Comma));
    assert_eq!(
        lexer.next_lexeme(),
        Some(Lexeme::RawString(String::from("name")))
    );
    assert_eq!(lexer.next_lexeme(), Some(Lexeme::Where));
    assert_eq!(
        lexer.next_lexeme(),
        Some(Lexeme::RawString(String::from("absdir")))
    );
    assert_eq!(lexer.next_lexeme(), Some(Lexeme::Operator(String::from("="))));
    assert_eq!(
        lexer.next_lexeme(),
        Some(Lexeme::RawString(String::from("/home/user/docs")))
    );

    let mut lexer = Lexer::new(vec!["abspath,absdir,name where absdir == /home/user/docs".to_string()]);

    assert_eq!(
        lexer.next_lexeme(),
        Some(Lexeme::RawString(String::from("abspath")))
    );
    assert_eq!(lexer.next_lexeme(), Some(Lexeme::Comma));
    assert_eq!(
        lexer.next_lexeme(),
        Some(Lexeme::RawString(String::from("absdir")))
    );
    assert_eq!(lexer.next_lexeme(), Some(Lexeme::Comma));
    assert_eq!(
        lexer.next_lexeme(),
        Some(Lexeme::RawString(String::from("name")))
    );
    assert_eq!(lexer.next_lexeme(), Some(Lexeme::Where));
    assert_eq!(
        lexer.next_lexeme(),
        Some(Lexeme::RawString(String::from("absdir")))
    );
    assert_eq!(
        lexer.next_lexeme(),
        Some(Lexeme::Operator(String::from("==")))
    );
    assert_eq!(
        lexer.next_lexeme(),
        Some(Lexeme::RawString(String::from("/home/user/docs")))
    );

    let mut lexer = Lexer::new(vec!["abspath,absdir,name where absdir === /home/user/docs".to_string()]);

    assert_eq!(
        lexer.next_lexeme(),
        Some(Lexeme::RawString(String::from("abspath")))
    );
    assert_eq!(lexer.next_lexeme(), Some(Lexeme::Comma));
    assert_eq!(
        lexer.next_lexeme(),
        Some(Lexeme::RawString(String::from("absdir")))
    );
    assert_eq!(lexer.next_lexeme(), Some(Lexeme::Comma));
    assert_eq!(
        lexer.next_lexeme(),
        Some(Lexeme::RawString(String::from("name")))
    );
    assert_eq!(lexer.next_lexeme(), Some(Lexeme::Where));
    assert_eq!(
        lexer.next_lexeme(),
        Some(Lexeme::RawString(String::from("absdir")))
    );
    assert_eq!(
        lexer.next_lexeme(),
        Some(Lexeme::Operator(String::from("===")))
    );
    assert_eq!(
        lexer.next_lexeme(),
        Some(Lexeme::RawString(String::from("/home/user/docs")))
    );

    let mut lexer = Lexer::new(vec!["abspath,absdir,name where absdir eq /home/user/docs".to_string()]);

    assert_eq!(
        lexer.next_lexeme(),
        Some(Lexeme::RawString(String::from("abspath")))
    );
    assert_eq!(lexer.next_lexeme(), Some(Lexeme::Comma));
    assert_eq!(
        lexer.next_lexeme(),
        Some(Lexeme::RawString(String::from("absdir")))
    );
    assert_eq!(lexer.next_lexeme(), Some(Lexeme::Comma));
    assert_eq!(
        lexer.next_lexeme(),
        Some(Lexeme::RawString(String::from("name")))
    );
    assert_eq!(lexer.next_lexeme(), Some(Lexeme::Where));
    assert_eq!(
        lexer.next_lexeme(),
        Some(Lexeme::RawString(String::from("absdir")))
    );
    assert_eq!(
        lexer.next_lexeme(),
        Some(Lexeme::Operator(String::from("eq")))
    );
    assert_eq!(
        lexer.next_lexeme(),
        Some(Lexeme::RawString(String::from("/home/user/docs")))
    );
}

#[test]
fn star_field() {
    let mut lexer = Lexer::new(vec!["select modified,* from /test".to_string()]);

    assert_eq!(
        lexer.next_lexeme(),
        Some(Lexeme::Select)
    );
    assert_eq!(
        lexer.next_lexeme(),
        Some(Lexeme::RawString(String::from("modified")))
    );
    assert_eq!(lexer.next_lexeme(), Some(Lexeme::Comma));
    assert_eq!(
        lexer.next_lexeme(),
        Some(Lexeme::ArithmeticOperator(String::from("*")))
    );
    assert_eq!(lexer.next_lexeme(), Some(Lexeme::From));
    assert_eq!(
        lexer.next_lexeme(),
        Some(Lexeme::RawString(String::from("/test")))
    );

    let mut lexer = Lexer::new(vec!["select modified, * from /test limit 10".to_string()]);

    assert_eq!(
        lexer.next_lexeme(),
        Some(Lexeme::Select)
    );
    assert_eq!(
        lexer.next_lexeme(),
        Some(Lexeme::RawString(String::from("modified")))
    );
    assert_eq!(lexer.next_lexeme(), Some(Lexeme::Comma));
    assert_eq!(
        lexer.next_lexeme(),
        Some(Lexeme::ArithmeticOperator(String::from("*")))
    );
    assert_eq!(lexer.next_lexeme(), Some(Lexeme::From));
    assert_eq!(
        lexer.next_lexeme(),
        Some(Lexeme::RawString(String::from("/test")))
    );
}

#[test]
fn lexer_with_multiple_input_parts() {
    let mut lexer = Lexer::new(vec!["select".to_string(), "modified,*".to_string(), "from".to_string(), "/test".to_string()]);

    assert_eq!(
        lexer.next_lexeme(),
        Some(Lexeme::Select)
    );
    assert_eq!(
        lexer.next_lexeme(),
        Some(Lexeme::RawString(String::from("modified")))
    );
    assert_eq!(lexer.next_lexeme(), Some(Lexeme::Comma));
    assert_eq!(
        lexer.next_lexeme(),
        Some(Lexeme::ArithmeticOperator(String::from("*")))
    );
    assert_eq!(lexer.next_lexeme(), Some(Lexeme::From));
    assert_eq!(
        lexer.next_lexeme(),
        Some(Lexeme::RawString(String::from("/test")))
    );
}

#[test]
fn group_by() {
    let mut lexer = Lexer::new(vec!["select AVG(size) from /test group by mime".to_string()]);
    assert_group_by_lexemes(&mut lexer);
}

#[test]
fn group_by_with_multiple_input_parts() {
    let mut lexer = Lexer::new(vec!["select".to_string(), "AVG(size)".to_string(), "from".to_string(), "/test".to_string(), "group".to_string(), "by".to_string(), "mime".to_string()]);
    assert_group_by_lexemes(&mut lexer);
}

#[test]
fn between_op() {
    let mut lexer = Lexer::new(vec!["select name from /home/user where size between 1000000 and 2000000".to_string()]);
    assert_between_op_lexemes(&mut lexer);
}

#[test]
fn between_op_with_multiple_input_parts() {
    let mut lexer = Lexer::new(vec!["select".to_string(), "name".to_string(), "from".to_string(), "/home/user".to_string(), "where".to_string(), "size".to_string(), "between".to_string(), "1000000".to_string(), "and".to_string(), "2000000".to_string()]);
    assert_between_op_lexemes(&mut lexer);
}

#[test]
fn spaces_in_path_with_single_quotes() {
    let mut lexer = Lexer::new(vec!["select name from '/home/user/foo bar/'".to_string()]);

    assert_eq!(
        lexer.next_lexeme(),
        Some(Lexeme::Select)
    );
    assert_eq!(
        lexer.next_lexeme(),
        Some(Lexeme::RawString(String::from("name")))
    );
    assert_eq!(lexer.next_lexeme(), Some(Lexeme::From));
    assert_eq!(
        lexer.next_lexeme(),
        Some(Lexeme::String(String::from("/home/user/foo bar/")))
    );
}

#[test]
fn spaces_in_path_with_double_quotes() {
    let mut lexer = Lexer::new(vec!["select name from \"/home/user/foo bar/\"".to_string()]);

    assert_eq!(
        lexer.next_lexeme(),
        Some(Lexeme::Select)
    );
    assert_eq!(
        lexer.next_lexeme(),
        Some(Lexeme::RawString(String::from("name")))
    );
    assert_eq!(lexer.next_lexeme(), Some(Lexeme::From));
    assert_eq!(
        lexer.next_lexeme(),
        Some(Lexeme::String(String::from("/home/user/foo bar/")))
    );
}

#[test]
fn spaces_in_path_with_backticks() {
    let mut lexer = Lexer::new(vec!["select name from `/home/user/foo bar/`".to_string()]);

    assert_eq!(
        lexer.next_lexeme(),
        Some(Lexeme::Select)
    );
    assert_eq!(
        lexer.next_lexeme(),
        Some(Lexeme::RawString(String::from("name")))
    );
    assert_eq!(lexer.next_lexeme(), Some(Lexeme::From));
    assert_eq!(
        lexer.next_lexeme(),
        Some(Lexeme::String(String::from("/home/user/foo bar/")))
    );
}

#[test]
fn unterminated_single_quoted_string() {
    let mut lexer = Lexer::new(vec!["name from . where name = 'unterminated".to_string()]);

    assert_eq!(lexer.next_lexeme(), Some(Lexeme::RawString(String::from("name"))));
    assert_eq!(lexer.next_lexeme(), Some(Lexeme::From));
    assert_eq!(lexer.next_lexeme(), Some(Lexeme::RawString(String::from("."))));
    assert_eq!(lexer.next_lexeme(), Some(Lexeme::Where));
    assert_eq!(lexer.next_lexeme(), Some(Lexeme::RawString(String::from("name"))));
    assert_eq!(lexer.next_lexeme(), Some(Lexeme::Operator(String::from("="))));

    let lexeme = lexer.next_lexeme();
    assert_ne!(
        lexeme,
        Some(Lexeme::String(String::from("unterminated"))),
        "Unterminated single-quoted string should not silently produce a valid String lexeme"
    );
}

#[test]
fn unterminated_double_quoted_string() {
    let mut lexer = Lexer::new(vec!["name where name = \"unterminated".to_string()]);

    assert_eq!(lexer.next_lexeme(), Some(Lexeme::RawString(String::from("name"))));
    assert_eq!(lexer.next_lexeme(), Some(Lexeme::Where));
    assert_eq!(lexer.next_lexeme(), Some(Lexeme::RawString(String::from("name"))));
    assert_eq!(lexer.next_lexeme(), Some(Lexeme::Operator(String::from("="))));

    let lexeme = lexer.next_lexeme();
    assert_ne!(
        lexeme,
        Some(Lexeme::String(String::from("unterminated"))),
        "Unterminated double-quoted string should not silently produce a valid String lexeme"
    );
}

#[test]
fn unterminated_backtick_quoted_string() {
    let mut lexer = Lexer::new(vec!["name where name = `unterminated".to_string()]);

    assert_eq!(lexer.next_lexeme(), Some(Lexeme::RawString(String::from("name"))));
    assert_eq!(lexer.next_lexeme(), Some(Lexeme::Where));
    assert_eq!(lexer.next_lexeme(), Some(Lexeme::RawString(String::from("name"))));
    assert_eq!(lexer.next_lexeme(), Some(Lexeme::Operator(String::from("="))));

    let lexeme = lexer.next_lexeme();
    assert_ne!(
        lexeme,
        Some(Lexeme::String(String::from("unterminated"))),
        "Unterminated backtick-quoted string should not silently produce a valid String lexeme"
    );
}

#[test]
fn asc_consumed_as_value_in_where() {
    let mut lexer = Lexer::new(vec!["name from . where name = asc".to_string()]);

    assert_eq!(lexer.next_lexeme(), Some(Lexeme::RawString(String::from("name"))));
    assert_eq!(lexer.next_lexeme(), Some(Lexeme::From));
    assert_eq!(lexer.next_lexeme(), Some(Lexeme::RawString(String::from("."))));
    assert_eq!(lexer.next_lexeme(), Some(Lexeme::Where));
    assert_eq!(lexer.next_lexeme(), Some(Lexeme::RawString(String::from("name"))));
    assert_eq!(lexer.next_lexeme(), Some(Lexeme::Operator(String::from("="))));

    assert_eq!(
        lexer.next_lexeme(),
        Some(Lexeme::RawString(String::from("asc"))),
        "asc used as a value after an operator should produce RawString, not be silently consumed"
    );
}

#[test]
fn asc_as_column_consumes_next_token() {
    let mut lexer = Lexer::new(vec!["select asc from .".to_string()]);

    assert_eq!(lexer.next_lexeme(), Some(Lexeme::Select));

    let lexeme = lexer.next_lexeme();
    assert_eq!(
        lexeme,
        Some(Lexeme::RawString(String::from("asc"))),
        "asc in SELECT column list should be RawString, not silently consumed"
    );
}

#[test]
fn not_as_value_after_operator_in_where() {
    let mut lexer = Lexer::new(vec!["name where name = not".to_string()]);

    assert_eq!(lexer.next_lexeme(), Some(Lexeme::RawString(String::from("name"))));
    assert_eq!(lexer.next_lexeme(), Some(Lexeme::Where));
    assert_eq!(lexer.next_lexeme(), Some(Lexeme::RawString(String::from("name"))));
    assert_eq!(lexer.next_lexeme(), Some(Lexeme::Operator(String::from("="))));

    assert_eq!(
        lexer.next_lexeme(),
        Some(Lexeme::RawString(String::from("not"))),
        "not used as a value after an operator should produce RawString, not Lexeme::Not"
    );
}

#[test]
fn from_as_value_corrupts_operator_recognition() {
    let mut lexer = Lexer::new(vec!["name where name = from and size > 0".to_string()]);

    assert_eq!(lexer.next_lexeme(), Some(Lexeme::RawString(String::from("name"))));
    assert_eq!(lexer.next_lexeme(), Some(Lexeme::Where));
    assert_eq!(lexer.next_lexeme(), Some(Lexeme::RawString(String::from("name"))));
    assert_eq!(lexer.next_lexeme(), Some(Lexeme::Operator(String::from("="))));

    lexer.next_lexeme();
    assert_eq!(lexer.next_lexeme(), Some(Lexeme::And));
    assert_eq!(lexer.next_lexeme(), Some(Lexeme::RawString(String::from("size"))));

    assert_eq!(
        lexer.next_lexeme(),
        Some(Lexeme::Operator(String::from(">"))),
        "Operator > should be recognized even after 'from' appears as a value in WHERE"
    );
}

#[test]
fn select_as_value_in_where() {
    let mut lexer = Lexer::new(vec!["name where name = select".to_string()]);

    assert_eq!(lexer.next_lexeme(), Some(Lexeme::RawString(String::from("name"))));
    assert_eq!(lexer.next_lexeme(), Some(Lexeme::Where));
    assert_eq!(lexer.next_lexeme(), Some(Lexeme::RawString(String::from("name"))));
    assert_eq!(lexer.next_lexeme(), Some(Lexeme::Operator(String::from("="))));

    assert_eq!(
        lexer.next_lexeme(),
        Some(Lexeme::RawString(String::from("select"))),
        "select used as a value after an operator should produce RawString, not Lexeme::Select"
    );
}

#[test]
fn after_open_reset_by_whitespace() {
    let mut lexer = Lexer::new(vec!["COUNT(*) from .".to_string()]);
    assert_eq!(lexer.next_lexeme(), Some(Lexeme::RawString(String::from("COUNT"))));
    assert_eq!(lexer.next_lexeme(), Some(Lexeme::Open));
    let no_space = lexer.next_lexeme();
    assert_eq!(no_space, Some(Lexeme::RawString(String::from("*"))));
    assert_eq!(lexer.next_lexeme(), Some(Lexeme::Close));

    let mut lexer = Lexer::new(vec!["COUNT( * ) from .".to_string()]);
    assert_eq!(lexer.next_lexeme(), Some(Lexeme::RawString(String::from("COUNT"))));
    assert_eq!(lexer.next_lexeme(), Some(Lexeme::Open));
    assert_eq!(
        lexer.next_lexeme(),
        Some(Lexeme::RawString(String::from("*"))),
        "COUNT( * ) with space should treat * as RawString, same as COUNT(*)"
    );
}

#[test]
fn desc_as_value_after_operator() {
    let mut lexer = Lexer::new(vec!["name where name = desc".to_string()]);

    assert_eq!(lexer.next_lexeme(), Some(Lexeme::RawString(String::from("name"))));
    assert_eq!(lexer.next_lexeme(), Some(Lexeme::Where));
    assert_eq!(lexer.next_lexeme(), Some(Lexeme::RawString(String::from("name"))));
    assert_eq!(lexer.next_lexeme(), Some(Lexeme::Operator(String::from("="))));

    assert_eq!(
        lexer.next_lexeme(),
        Some(Lexeme::RawString(String::from("desc"))),
        "desc used as a value after an operator should produce RawString, not DescendingOrder"
    );
}

#[test]
fn or_as_value_after_operator() {
    let mut lexer = Lexer::new(vec!["name where name = or".to_string()]);

    assert_eq!(lexer.next_lexeme(), Some(Lexeme::RawString(String::from("name"))));
    assert_eq!(lexer.next_lexeme(), Some(Lexeme::Where));
    assert_eq!(lexer.next_lexeme(), Some(Lexeme::RawString(String::from("name"))));
    assert_eq!(lexer.next_lexeme(), Some(Lexeme::Operator(String::from("="))));

    assert_eq!(
        lexer.next_lexeme(),
        Some(Lexeme::RawString(String::from("or"))),
        "or used as a value after an operator should produce RawString, not Lexeme::Or"
    );
}

#[test]
fn and_as_value_after_operator() {
    let mut lexer = Lexer::new(vec!["name where name = and".to_string()]);

    assert_eq!(lexer.next_lexeme(), Some(Lexeme::RawString(String::from("name"))));
    assert_eq!(lexer.next_lexeme(), Some(Lexeme::Where));
    assert_eq!(lexer.next_lexeme(), Some(Lexeme::RawString(String::from("name"))));
    assert_eq!(lexer.next_lexeme(), Some(Lexeme::Operator(String::from("="))));

    assert_eq!(
        lexer.next_lexeme(),
        Some(Lexeme::RawString(String::from("and"))),
        "and used as a value after an operator should produce RawString, not Lexeme::And"
    );
}

#[test]
fn where_as_value_after_operator() {
    let mut lexer = Lexer::new(vec!["name where name = where".to_string()]);

    assert_eq!(lexer.next_lexeme(), Some(Lexeme::RawString(String::from("name"))));
    assert_eq!(lexer.next_lexeme(), Some(Lexeme::Where));
    assert_eq!(lexer.next_lexeme(), Some(Lexeme::RawString(String::from("name"))));
    assert_eq!(lexer.next_lexeme(), Some(Lexeme::Operator(String::from("="))));

    assert_eq!(
        lexer.next_lexeme(),
        Some(Lexeme::RawString(String::from("where"))),
        "where used as a value after an operator should produce RawString, not Lexeme::Where"
    );
}

#[test]
fn limit_as_value_after_operator() {
    let mut lexer = Lexer::new(vec!["name where name = limit".to_string()]);

    assert_eq!(lexer.next_lexeme(), Some(Lexeme::RawString(String::from("name"))));
    assert_eq!(lexer.next_lexeme(), Some(Lexeme::Where));
    assert_eq!(lexer.next_lexeme(), Some(Lexeme::RawString(String::from("name"))));
    assert_eq!(lexer.next_lexeme(), Some(Lexeme::Operator(String::from("="))));

    assert_eq!(
        lexer.next_lexeme(),
        Some(Lexeme::RawString(String::from("limit"))),
        "limit used as a value after an operator should produce RawString, not Lexeme::Limit"
    );
}

#[test]
fn date_heuristic_prevents_arithmetic() {
    let mut lexer = Lexer::new(vec!["select 2020-size from .".to_string()]);

    assert_eq!(lexer.next_lexeme(), Some(Lexeme::Select));

    assert_eq!(
        lexer.next_lexeme(),
        Some(Lexeme::RawString(String::from("2020"))),
        "2020 should be its own token, not merged with -size by the date heuristic"
    );
    assert_eq!(
        lexer.next_lexeme(),
        Some(Lexeme::ArithmeticOperator(String::from("-"))),
        "Minus should be recognized as arithmetic operator"
    );
    assert_eq!(
        lexer.next_lexeme(),
        Some(Lexeme::RawString(String::from("size"))),
        "size should be a separate RawString token"
    );
}

#[test]
fn word_operator_as_value_after_operator() {
    let mut lexer = Lexer::new(vec!["name where name = eq".to_string()]);

    assert_eq!(lexer.next_lexeme(), Some(Lexeme::RawString(String::from("name"))));
    assert_eq!(lexer.next_lexeme(), Some(Lexeme::Where));
    assert_eq!(lexer.next_lexeme(), Some(Lexeme::RawString(String::from("name"))));
    assert_eq!(lexer.next_lexeme(), Some(Lexeme::Operator(String::from("="))));

    assert_eq!(
        lexer.next_lexeme(),
        Some(Lexeme::RawString(String::from("eq"))),
        "eq used as a value after an operator should produce RawString, not Operator"
    );
}

#[test]
fn word_operator_in_as_value_after_operator() {
    let mut lexer = Lexer::new(vec!["name where name like in".to_string()]);

    assert_eq!(lexer.next_lexeme(), Some(Lexeme::RawString(String::from("name"))));
    assert_eq!(lexer.next_lexeme(), Some(Lexeme::Where));
    assert_eq!(lexer.next_lexeme(), Some(Lexeme::RawString(String::from("name"))));
    assert_eq!(lexer.next_lexeme(), Some(Lexeme::Operator(String::from("like"))));

    assert_eq!(
        lexer.next_lexeme(),
        Some(Lexeme::RawString(String::from("in"))),
        "in used as a value after an operator should produce RawString, not Operator"
    );
}

#[test]
fn arithmetic_word_as_value_after_operator() {
    let mut lexer = Lexer::new(vec!["name where name = mul".to_string()]);

    assert_eq!(lexer.next_lexeme(), Some(Lexeme::RawString(String::from("name"))));
    assert_eq!(lexer.next_lexeme(), Some(Lexeme::Where));
    assert_eq!(lexer.next_lexeme(), Some(Lexeme::RawString(String::from("name"))));
    assert_eq!(lexer.next_lexeme(), Some(Lexeme::Operator(String::from("="))));

    assert_eq!(
        lexer.next_lexeme(),
        Some(Lexeme::RawString(String::from("mul"))),
        "mul used as a value after an operator should produce RawString, not ArithmeticOperator"
    );
}

#[test]
fn arithmetic_word_mod_as_value_after_operator() {
    let mut lexer = Lexer::new(vec!["name where name = mod".to_string()]);

    assert_eq!(lexer.next_lexeme(), Some(Lexeme::RawString(String::from("name"))));
    assert_eq!(lexer.next_lexeme(), Some(Lexeme::Where));
    assert_eq!(lexer.next_lexeme(), Some(Lexeme::RawString(String::from("name"))));
    assert_eq!(lexer.next_lexeme(), Some(Lexeme::Operator(String::from("="))));

    assert_eq!(
        lexer.next_lexeme(),
        Some(Lexeme::RawString(String::from("mod"))),
        "mod used as a value after an operator should produce RawString, not ArithmeticOperator"
    );
}

#[test]
fn date_across_input_part_boundary() {
    let mut lexer = Lexer::new(vec!["name from . where modified > 2018-08-01".to_string()]);
    assert_eq!(lexer.next_lexeme(), Some(Lexeme::RawString(String::from("name"))));
    assert_eq!(lexer.next_lexeme(), Some(Lexeme::From));
    assert_eq!(lexer.next_lexeme(), Some(Lexeme::RawString(String::from("."))));
    assert_eq!(lexer.next_lexeme(), Some(Lexeme::Where));
    assert_eq!(lexer.next_lexeme(), Some(Lexeme::RawString(String::from("modified"))));
    assert_eq!(lexer.next_lexeme(), Some(Lexeme::Operator(String::from(">"))));
    let single_part = lexer.next_lexeme();
    assert_eq!(single_part, Some(Lexeme::RawString(String::from("2018-08-01"))));

    let mut lexer = Lexer::new(vec!["name".to_string(), "from".to_string(), ".".to_string(), "where".to_string(), "modified".to_string(), ">".to_string(), "2018-".to_string(), "08-01".to_string()]);
    assert_eq!(lexer.next_lexeme(), Some(Lexeme::RawString(String::from("name"))));
    assert_eq!(lexer.next_lexeme(), Some(Lexeme::From));
    assert_eq!(lexer.next_lexeme(), Some(Lexeme::RawString(String::from("."))));
    assert_eq!(lexer.next_lexeme(), Some(Lexeme::Where));
    assert_eq!(lexer.next_lexeme(), Some(Lexeme::RawString(String::from("modified"))));
    assert_eq!(lexer.next_lexeme(), Some(Lexeme::Operator(String::from(">"))));
    assert_eq!(
        lexer.next_lexeme(),
        Some(Lexeme::RawString(String::from("2018-08-01"))),
        "Date split across input parts should still be recognized as a single date token"
    );
}

#[test]
fn quoted_string_across_input_parts_injects_space() {
    let mut lexer = Lexer::new(vec!["'foobar'".to_string()]);
    assert_eq!(lexer.next_lexeme(), Some(Lexeme::String(String::from("foobar"))));

    let mut lexer = Lexer::new(vec!["'foo".to_string(), "bar'".to_string()]);
    assert_eq!(
        lexer.next_lexeme(),
        Some(Lexeme::String(String::from("foobar"))),
        "Quoted string spanning input parts should not have a space injected at the boundary"
    );
}

#[test]
fn order_as_field_in_where() {
    let mut lexer = Lexer::new(vec!["name from . where order > 5".to_string()]);

    assert_eq!(lexer.next_lexeme(), Some(Lexeme::RawString(String::from("name"))));
    assert_eq!(lexer.next_lexeme(), Some(Lexeme::From));
    assert_eq!(lexer.next_lexeme(), Some(Lexeme::RawString(String::from("."))));
    assert_eq!(lexer.next_lexeme(), Some(Lexeme::Where));

    assert_eq!(
        lexer.next_lexeme(),
        Some(Lexeme::RawString(String::from("order"))),
        "order in WHERE field position should be RawString, not Order keyword"
    );
}

#[test]
fn by_as_field_in_where() {
    let mut lexer = Lexer::new(vec!["name from . where by > 5".to_string()]);

    assert_eq!(lexer.next_lexeme(), Some(Lexeme::RawString(String::from("name"))));
    assert_eq!(lexer.next_lexeme(), Some(Lexeme::From));
    assert_eq!(lexer.next_lexeme(), Some(Lexeme::RawString(String::from("."))));
    assert_eq!(lexer.next_lexeme(), Some(Lexeme::Where));

    assert_eq!(
        lexer.next_lexeme(),
        Some(Lexeme::RawString(String::from("by"))),
        "by in WHERE field position should be RawString, not By keyword"
    );
}

#[test]
fn or_in_select_column_list() {
    let mut lexer = Lexer::new(vec!["select or from .".to_string()]);

    assert_eq!(lexer.next_lexeme(), Some(Lexeme::Select));
    assert_eq!(
        lexer.next_lexeme(),
        Some(Lexeme::RawString(String::from("or"))),
        "or in SELECT column list should be RawString, not Or keyword"
    );
}

#[test]
fn and_in_select_column_list() {
    let mut lexer = Lexer::new(vec!["select and from .".to_string()]);

    assert_eq!(lexer.next_lexeme(), Some(Lexeme::Select));
    assert_eq!(
        lexer.next_lexeme(),
        Some(Lexeme::RawString(String::from("and"))),
        "and in SELECT column list should be RawString, not And keyword"
    );
}

#[test]
fn word_operator_in_select_column_list() {
    let mut lexer = Lexer::new(vec!["select gt from .".to_string()]);

    assert_eq!(lexer.next_lexeme(), Some(Lexeme::Select));
    assert_eq!(
        lexer.next_lexeme(),
        Some(Lexeme::RawString(String::from("gt"))),
        "gt in SELECT column list should be RawString, not Operator"
    );
}

#[test]
fn word_operator_in_order_by() {
    let mut lexer = Lexer::new(vec!["name from . where size > 0 order by gt".to_string()]);

    assert_eq!(lexer.next_lexeme(), Some(Lexeme::RawString(String::from("name"))));
    assert_eq!(lexer.next_lexeme(), Some(Lexeme::From));
    assert_eq!(lexer.next_lexeme(), Some(Lexeme::RawString(String::from("."))));
    assert_eq!(lexer.next_lexeme(), Some(Lexeme::Where));
    assert_eq!(lexer.next_lexeme(), Some(Lexeme::RawString(String::from("size"))));
    assert_eq!(lexer.next_lexeme(), Some(Lexeme::Operator(String::from(">"))));
    assert_eq!(lexer.next_lexeme(), Some(Lexeme::RawString(String::from("0"))));
    assert_eq!(lexer.next_lexeme(), Some(Lexeme::Order));
    assert_eq!(lexer.next_lexeme(), Some(Lexeme::By));
    assert_eq!(
        lexer.next_lexeme(),
        Some(Lexeme::RawString(String::from("gt"))),
        "gt in ORDER BY should be RawString, not Operator"
    );
}

#[test]
fn operator_split_across_input_parts() {
    let mut lexer = Lexer::new(vec!["name from . where size >=10".to_string()]);
    assert_eq!(lexer.next_lexeme(), Some(Lexeme::RawString(String::from("name"))));
    assert_eq!(lexer.next_lexeme(), Some(Lexeme::From));
    assert_eq!(lexer.next_lexeme(), Some(Lexeme::RawString(String::from("."))));
    assert_eq!(lexer.next_lexeme(), Some(Lexeme::Where));
    assert_eq!(lexer.next_lexeme(), Some(Lexeme::RawString(String::from("size"))));
    let single_part = lexer.next_lexeme();
    assert_eq!(single_part, Some(Lexeme::Operator(String::from(">="))));

    let mut lexer = Lexer::new(vec!["name".to_string(), "from".to_string(), ".".to_string(), "where".to_string(), "size >".to_string(), "= 10".to_string()]);
    assert_eq!(lexer.next_lexeme(), Some(Lexeme::RawString(String::from("name"))));
    assert_eq!(lexer.next_lexeme(), Some(Lexeme::From));
    assert_eq!(lexer.next_lexeme(), Some(Lexeme::RawString(String::from("."))));
    assert_eq!(lexer.next_lexeme(), Some(Lexeme::Where));
    assert_eq!(lexer.next_lexeme(), Some(Lexeme::RawString(String::from("size"))));
    assert_eq!(
        lexer.next_lexeme(),
        Some(Lexeme::Operator(String::from(">="))),
        "Operator >= split across input parts should still be a single Operator"
    );
}

#[test]
fn minus_as_value_start_vs_star_as_value_start() {
    let mut lexer = Lexer::new(vec!["name from . where name = *test".to_string()]);
    assert_eq!(lexer.next_lexeme(), Some(Lexeme::RawString(String::from("name"))));
    assert_eq!(lexer.next_lexeme(), Some(Lexeme::From));
    assert_eq!(lexer.next_lexeme(), Some(Lexeme::RawString(String::from("."))));
    assert_eq!(lexer.next_lexeme(), Some(Lexeme::Where));
    assert_eq!(lexer.next_lexeme(), Some(Lexeme::RawString(String::from("name"))));
    assert_eq!(lexer.next_lexeme(), Some(Lexeme::Operator(String::from("="))));
    let star_result = lexer.next_lexeme();
    assert_eq!(star_result, Some(Lexeme::RawString(String::from("*test"))));

    let mut lexer = Lexer::new(vec!["name from . where name = -test".to_string()]);
    assert_eq!(lexer.next_lexeme(), Some(Lexeme::RawString(String::from("name"))));
    assert_eq!(lexer.next_lexeme(), Some(Lexeme::From));
    assert_eq!(lexer.next_lexeme(), Some(Lexeme::RawString(String::from("."))));
    assert_eq!(lexer.next_lexeme(), Some(Lexeme::Where));
    assert_eq!(lexer.next_lexeme(), Some(Lexeme::RawString(String::from("name"))));
    assert_eq!(lexer.next_lexeme(), Some(Lexeme::Operator(String::from("="))));
    assert_eq!(
        lexer.next_lexeme(),
        Some(Lexeme::RawString(String::from("-test"))),
        "- at value start should behave like * and produce RawString, not ArithmeticOperator"
    );
}

#[test]
fn from_in_where_field_position_corrupts_state() {
    let mut lexer = Lexer::new(vec!["name from . where from and size > 0".to_string()]);

    assert_eq!(lexer.next_lexeme(), Some(Lexeme::RawString(String::from("name"))));
    assert_eq!(lexer.next_lexeme(), Some(Lexeme::From));
    assert_eq!(lexer.next_lexeme(), Some(Lexeme::RawString(String::from("."))));
    assert_eq!(lexer.next_lexeme(), Some(Lexeme::Where));

    assert_eq!(
        lexer.next_lexeme(),
        Some(Lexeme::RawString(String::from("from"))),
        "from in WHERE field position should be RawString, not From keyword"
    );
}

#[test]
fn select_in_where_field_position() {
    let mut lexer = Lexer::new(vec!["name from . where select > 0".to_string()]);

    assert_eq!(lexer.next_lexeme(), Some(Lexeme::RawString(String::from("name"))));
    assert_eq!(lexer.next_lexeme(), Some(Lexeme::From));
    assert_eq!(lexer.next_lexeme(), Some(Lexeme::RawString(String::from("."))));
    assert_eq!(lexer.next_lexeme(), Some(Lexeme::Where));

    assert_eq!(
        lexer.next_lexeme(),
        Some(Lexeme::Select),
        "select cannot be blocked in field position without breaking subquery support"
    );
}

#[test]
fn from_after_and_corrupts_state() {
    let mut lexer = Lexer::new(vec!["name from . where name = foo and from and size > 0".to_string()]);

    assert_eq!(lexer.next_lexeme(), Some(Lexeme::RawString(String::from("name"))));
    assert_eq!(lexer.next_lexeme(), Some(Lexeme::From));
    assert_eq!(lexer.next_lexeme(), Some(Lexeme::RawString(String::from("."))));
    assert_eq!(lexer.next_lexeme(), Some(Lexeme::Where));
    assert_eq!(lexer.next_lexeme(), Some(Lexeme::RawString(String::from("name"))));
    assert_eq!(lexer.next_lexeme(), Some(Lexeme::Operator(String::from("="))));
    assert_eq!(lexer.next_lexeme(), Some(Lexeme::RawString(String::from("foo"))));
    assert_eq!(lexer.next_lexeme(), Some(Lexeme::And));

    assert_eq!(
        lexer.next_lexeme(),
        Some(Lexeme::RawString(String::from("from"))),
        "from after AND should be RawString in field position"
    );

    assert_eq!(lexer.next_lexeme(), Some(Lexeme::And));
    assert_eq!(lexer.next_lexeme(), Some(Lexeme::RawString(String::from("size"))));
    assert_eq!(
        lexer.next_lexeme(),
        Some(Lexeme::Operator(String::from(">"))),
        "> should still be recognized as operator after from in field position"
    );
}

#[test]
fn from_after_open_paren_in_where() {
    let mut lexer = Lexer::new(vec!["name from . where (from > 0)".to_string()]);

    assert_eq!(lexer.next_lexeme(), Some(Lexeme::RawString(String::from("name"))));
    assert_eq!(lexer.next_lexeme(), Some(Lexeme::From));
    assert_eq!(lexer.next_lexeme(), Some(Lexeme::RawString(String::from("."))));
    assert_eq!(lexer.next_lexeme(), Some(Lexeme::Where));
    assert_eq!(lexer.next_lexeme(), Some(Lexeme::Open));

    assert_eq!(
        lexer.next_lexeme(),
        Some(Lexeme::RawString(String::from("from"))),
        "from after ( in WHERE should be RawString in field position"
    );
}

#[test]
fn word_operator_in_field_position_after_and() {
    let mut lexer = Lexer::new(vec!["name from . where name = foo and gt > 0".to_string()]);

    assert_eq!(lexer.next_lexeme(), Some(Lexeme::RawString(String::from("name"))));
    assert_eq!(lexer.next_lexeme(), Some(Lexeme::From));
    assert_eq!(lexer.next_lexeme(), Some(Lexeme::RawString(String::from("."))));
    assert_eq!(lexer.next_lexeme(), Some(Lexeme::Where));
    assert_eq!(lexer.next_lexeme(), Some(Lexeme::RawString(String::from("name"))));
    assert_eq!(lexer.next_lexeme(), Some(Lexeme::Operator(String::from("="))));
    assert_eq!(lexer.next_lexeme(), Some(Lexeme::RawString(String::from("foo"))));
    assert_eq!(lexer.next_lexeme(), Some(Lexeme::And));

    assert_eq!(
        lexer.next_lexeme(),
        Some(Lexeme::RawString(String::from("gt"))),
        "gt after AND should be RawString in field position, not Operator"
    );
}

#[test]
fn arithmetic_word_in_field_position_after_open() {
    let mut lexer = Lexer::new(vec!["name from . where (mul > 0)".to_string()]);

    assert_eq!(lexer.next_lexeme(), Some(Lexeme::RawString(String::from("name"))));
    assert_eq!(lexer.next_lexeme(), Some(Lexeme::From));
    assert_eq!(lexer.next_lexeme(), Some(Lexeme::RawString(String::from("."))));
    assert_eq!(lexer.next_lexeme(), Some(Lexeme::Where));
    assert_eq!(lexer.next_lexeme(), Some(Lexeme::Open));

    assert_eq!(
        lexer.next_lexeme(),
        Some(Lexeme::RawString(String::from("mul"))),
        "mul after ( in WHERE should be RawString in field position, not ArithmeticOperator"
    );
}

#[test]
fn desc_in_select_column_list() {
    let mut lexer = Lexer::new(vec!["select desc, name from .".to_string()]);

    assert_eq!(lexer.next_lexeme(), Some(Lexeme::Select));
    assert_eq!(
        lexer.next_lexeme(),
        Some(Lexeme::RawString(String::from("desc"))),
        "desc in SELECT column list should be RawString like asc, not DescendingOrder"
    );
}

#[test]
fn word_operator_in_curly_brace_set() {
    let mut lexer = Lexer::new(vec!["name from . where name in {eq}".to_string()]);

    assert_eq!(lexer.next_lexeme(), Some(Lexeme::RawString(String::from("name"))));
    assert_eq!(lexer.next_lexeme(), Some(Lexeme::From));
    assert_eq!(lexer.next_lexeme(), Some(Lexeme::RawString(String::from("."))));
    assert_eq!(lexer.next_lexeme(), Some(Lexeme::Where));
    assert_eq!(lexer.next_lexeme(), Some(Lexeme::RawString(String::from("name"))));
    assert_eq!(lexer.next_lexeme(), Some(Lexeme::Operator(String::from("in"))));
    assert_eq!(lexer.next_lexeme(), Some(Lexeme::CurlyOpen));

    assert_eq!(
        lexer.next_lexeme(),
        Some(Lexeme::RawString(String::from("eq"))),
        "eq inside curly brace set should be RawString, not Operator"
    );
}

#[test]
fn from_in_curly_brace_set_corrupts_state() {
    let mut lexer = Lexer::new(vec!["name from . where name in {from} and size > 0".to_string()]);

    assert_eq!(lexer.next_lexeme(), Some(Lexeme::RawString(String::from("name"))));
    assert_eq!(lexer.next_lexeme(), Some(Lexeme::From));
    assert_eq!(lexer.next_lexeme(), Some(Lexeme::RawString(String::from("."))));
    assert_eq!(lexer.next_lexeme(), Some(Lexeme::Where));
    assert_eq!(lexer.next_lexeme(), Some(Lexeme::RawString(String::from("name"))));
    assert_eq!(lexer.next_lexeme(), Some(Lexeme::Operator(String::from("in"))));
    assert_eq!(lexer.next_lexeme(), Some(Lexeme::CurlyOpen));

    assert_eq!(
        lexer.next_lexeme(),
        Some(Lexeme::RawString(String::from("from"))),
        "from inside curly brace set should be RawString, not From keyword"
    );

    assert_eq!(lexer.next_lexeme(), Some(Lexeme::CurlyClose));
    assert_eq!(
        lexer.next_lexeme(),
        Some(Lexeme::And),
        "and after curly brace set should still be recognized"
    );
}

#[test]
fn word_operator_after_comma_in_paren_list() {
    let mut lexer = Lexer::new(vec!["name from . where name in (foo, eq)".to_string()]);

    assert_eq!(lexer.next_lexeme(), Some(Lexeme::RawString(String::from("name"))));
    assert_eq!(lexer.next_lexeme(), Some(Lexeme::From));
    assert_eq!(lexer.next_lexeme(), Some(Lexeme::RawString(String::from("."))));
    assert_eq!(lexer.next_lexeme(), Some(Lexeme::Where));
    assert_eq!(lexer.next_lexeme(), Some(Lexeme::RawString(String::from("name"))));
    assert_eq!(lexer.next_lexeme(), Some(Lexeme::Operator(String::from("in"))));
    assert_eq!(lexer.next_lexeme(), Some(Lexeme::Open));
    assert_eq!(lexer.next_lexeme(), Some(Lexeme::RawString(String::from("foo"))));
    assert_eq!(lexer.next_lexeme(), Some(Lexeme::Comma));

    assert_eq!(
        lexer.next_lexeme(),
        Some(Lexeme::RawString(String::from("eq"))),
        "eq after comma in value list should be RawString, not Operator"
    );
}

#[test]
fn from_after_comma_in_paren_list_corrupts_state() {
    let mut lexer = Lexer::new(vec!["name from . where name in (foo, from) and size > 0".to_string()]);

    assert_eq!(lexer.next_lexeme(), Some(Lexeme::RawString(String::from("name"))));
    assert_eq!(lexer.next_lexeme(), Some(Lexeme::From));
    assert_eq!(lexer.next_lexeme(), Some(Lexeme::RawString(String::from("."))));
    assert_eq!(lexer.next_lexeme(), Some(Lexeme::Where));
    assert_eq!(lexer.next_lexeme(), Some(Lexeme::RawString(String::from("name"))));
    assert_eq!(lexer.next_lexeme(), Some(Lexeme::Operator(String::from("in"))));
    assert_eq!(lexer.next_lexeme(), Some(Lexeme::Open));
    assert_eq!(lexer.next_lexeme(), Some(Lexeme::RawString(String::from("foo"))));
    assert_eq!(lexer.next_lexeme(), Some(Lexeme::Comma));

    assert_eq!(
        lexer.next_lexeme(),
        Some(Lexeme::RawString(String::from("from"))),
        "from after comma in value list should be RawString, not From keyword"
    );

    assert_eq!(lexer.next_lexeme(), Some(Lexeme::Close));
    assert_eq!(
        lexer.next_lexeme(),
        Some(Lexeme::And),
        "and after paren list should still be recognized when from appeared as value"
    );
}

#[test]
fn and_keyword_in_curly_brace_set() {
    let mut lexer = Lexer::new(vec!["name from . where name in {and}".to_string()]);

    assert_eq!(lexer.next_lexeme(), Some(Lexeme::RawString(String::from("name"))));
    assert_eq!(lexer.next_lexeme(), Some(Lexeme::From));
    assert_eq!(lexer.next_lexeme(), Some(Lexeme::RawString(String::from("."))));
    assert_eq!(lexer.next_lexeme(), Some(Lexeme::Where));
    assert_eq!(lexer.next_lexeme(), Some(Lexeme::RawString(String::from("name"))));
    assert_eq!(lexer.next_lexeme(), Some(Lexeme::Operator(String::from("in"))));
    assert_eq!(lexer.next_lexeme(), Some(Lexeme::CurlyOpen));

    assert_eq!(
        lexer.next_lexeme(),
        Some(Lexeme::RawString(String::from("and"))),
        "and inside curly brace set should be RawString, not And keyword"
    );
}

#[test]
fn operator_in_order_by_without_from() {
    let mut lexer = Lexer::new(vec!["name from . where size > 0 order by name = foo".to_string()]);

    assert_eq!(lexer.next_lexeme(), Some(Lexeme::RawString(String::from("name"))));
    assert_eq!(lexer.next_lexeme(), Some(Lexeme::From));
    assert_eq!(lexer.next_lexeme(), Some(Lexeme::RawString(String::from("."))));
    assert_eq!(lexer.next_lexeme(), Some(Lexeme::Where));
    assert_eq!(lexer.next_lexeme(), Some(Lexeme::RawString(String::from("size"))));
    assert_eq!(lexer.next_lexeme(), Some(Lexeme::Operator(String::from(">"))));
    assert_eq!(lexer.next_lexeme(), Some(Lexeme::RawString(String::from("0"))));
    assert_eq!(lexer.next_lexeme(), Some(Lexeme::Order));
    assert_eq!(lexer.next_lexeme(), Some(Lexeme::By));
    assert_eq!(lexer.next_lexeme(), Some(Lexeme::RawString(String::from("name"))));
    let with_from = lexer.next_lexeme();

    let mut lexer = Lexer::new(vec!["name where size > 0 order by name = foo".to_string()]);

    assert_eq!(lexer.next_lexeme(), Some(Lexeme::RawString(String::from("name"))));
    assert_eq!(lexer.next_lexeme(), Some(Lexeme::Where));
    assert_eq!(lexer.next_lexeme(), Some(Lexeme::RawString(String::from("size"))));
    assert_eq!(lexer.next_lexeme(), Some(Lexeme::Operator(String::from(">"))));
    assert_eq!(lexer.next_lexeme(), Some(Lexeme::RawString(String::from("0"))));
    assert_eq!(lexer.next_lexeme(), Some(Lexeme::Order));
    assert_eq!(lexer.next_lexeme(), Some(Lexeme::By));
    assert_eq!(lexer.next_lexeme(), Some(Lexeme::RawString(String::from("name"))));
    let without_from = lexer.next_lexeme();

    assert_eq!(
        with_from, without_from,
        "= in ORDER BY should tokenize the same with or without explicit FROM"
    );
}

fn assert_spaces(mut lexer: Lexer) {
    assert_eq!(
        lexer.next_lexeme(),
        Some(Lexeme::RawString(String::from("path")))
    );
    assert_eq!(lexer.next_lexeme(), Some(Lexeme::Comma));
    assert_eq!(
        lexer.next_lexeme(),
        Some(Lexeme::RawString(String::from("size")))
    );
    assert_eq!(lexer.next_lexeme(), Some(Lexeme::From));
    assert_eq!(
        lexer.next_lexeme(),
        Some(Lexeme::RawString(String::from(".")))
    );
    assert_eq!(lexer.next_lexeme(), Some(Lexeme::Where));
    assert_eq!(
        lexer.next_lexeme(),
        Some(Lexeme::RawString(String::from("size")))
    );
    assert_eq!(lexer.next_lexeme(), Some(Lexeme::Operator(String::from("="))));
    assert_eq!(
        lexer.next_lexeme(),
        Some(Lexeme::RawString(String::from("0")))
    );
}
fn assert_func_calls_lexemes(lexer: &mut Lexer) {
    assert_eq!(
        lexer.next_lexeme(),
        Some(Lexeme::RawString(String::from("name")))
    );
    assert_eq!(lexer.next_lexeme(), Some(Lexeme::Comma));
    assert_eq!(
        lexer.next_lexeme(),
        Some(Lexeme::RawString(String::from("length")))
    );
    assert_eq!(lexer.next_lexeme(), Some(Lexeme::Open));
    assert_eq!(
        lexer.next_lexeme(),
        Some(Lexeme::RawString(String::from("name")))
    );
    assert_eq!(lexer.next_lexeme(), Some(Lexeme::Close));
    assert_eq!(lexer.next_lexeme(), Some(Lexeme::Comma));
    assert_eq!(
        lexer.next_lexeme(),
        Some(Lexeme::RawString(String::from("UPPER")))
    );
    assert_eq!(lexer.next_lexeme(), Some(Lexeme::Open));
    assert_eq!(
        lexer.next_lexeme(),
        Some(Lexeme::RawString(String::from("name")))
    );
    assert_eq!(lexer.next_lexeme(), Some(Lexeme::Close));
    assert_eq!(lexer.next_lexeme(), Some(Lexeme::From));
    assert_eq!(
        lexer.next_lexeme(),
        Some(Lexeme::RawString(String::from(".")))
    );
}
fn assert_func_calls2_lexemes(lexer: &mut Lexer) {
    assert_eq!(
        lexer.next_lexeme(),
        Some(Lexeme::Select)
    );
    assert_eq!(
        lexer.next_lexeme(),
        Some(Lexeme::RawString(String::from("name")))
    );
    assert_eq!(lexer.next_lexeme(), Some(Lexeme::Comma));
    assert_eq!(
        lexer.next_lexeme(),
        Some(Lexeme::RawString(String::from("upper")))
    );
    assert_eq!(lexer.next_lexeme(), Some(Lexeme::Open));
    assert_eq!(
        lexer.next_lexeme(),
        Some(Lexeme::RawString(String::from("name")))
    );
    assert_eq!(lexer.next_lexeme(), Some(Lexeme::Close));
    assert_eq!(lexer.next_lexeme(), Some(Lexeme::From));
    assert_eq!(
        lexer.next_lexeme(),
        Some(Lexeme::RawString(String::from(".")))
    );
    assert_eq!(
        lexer.next_lexeme(),
        Some(Lexeme::RawString(String::from("depth")))
    );
    assert_eq!(
        lexer.next_lexeme(),
        Some(Lexeme::RawString(String::from("1")))
    );
}
fn assert_func_calls3_lexemes(lexer: &mut Lexer) {
    assert_eq!(
        lexer.next_lexeme(),
        Some(Lexeme::Select)
    );
    assert_eq!(
        lexer.next_lexeme(),
        Some(Lexeme::RawString(String::from("name")))
    );
    assert_eq!(lexer.next_lexeme(), Some(Lexeme::Comma));
    assert_eq!(
        lexer.next_lexeme(),
        Some(Lexeme::RawString(String::from("rand")))
    );
    assert_eq!(lexer.next_lexeme(), Some(Lexeme::Open));
    assert_eq!(lexer.next_lexeme(), Some(Lexeme::Close));
    assert_eq!(lexer.next_lexeme(), Some(Lexeme::From));
    assert_eq!(
        lexer.next_lexeme(),
        Some(Lexeme::RawString(String::from(".")))
    );
    assert_eq!(
        lexer.next_lexeme(),
        Some(Lexeme::RawString(String::from("depth")))
    );
    assert_eq!(
        lexer.next_lexeme(),
        Some(Lexeme::RawString(String::from("1")))
    );
    assert_eq!(lexer.next_lexeme(), Some(Lexeme::Order));
    assert_eq!(lexer.next_lexeme(), Some(Lexeme::By));
    assert_eq!(
        lexer.next_lexeme(),
        Some(Lexeme::RawString(String::from("rand")))
    );
    assert_eq!(lexer.next_lexeme(), Some(Lexeme::Open));
    assert_eq!(lexer.next_lexeme(), Some(Lexeme::Close));
    assert_eq!(lexer.next_lexeme(), Some(Lexeme::Limit));
    assert_eq!(
        lexer.next_lexeme(),
        Some(Lexeme::RawString(String::from("10")))
    );
}
fn assert_agg_func_calls_lexemes(lexer: &mut Lexer) {
    assert_eq!(
        lexer.next_lexeme(),
        Some(Lexeme::RawString(String::from("COUNT")))
    );
    assert_eq!(lexer.next_lexeme(), Some(Lexeme::Open));
    assert_eq!(
        lexer.next_lexeme(),
        Some(Lexeme::RawString(String::from("*")))
    );
    assert_eq!(lexer.next_lexeme(), Some(Lexeme::Close));
    assert_eq!(lexer.next_lexeme(), Some(Lexeme::Comma));
    assert_eq!(
        lexer.next_lexeme(),
        Some(Lexeme::RawString(String::from("MIN")))
    );
    assert_eq!(lexer.next_lexeme(), Some(Lexeme::Open));
    assert_eq!(
        lexer.next_lexeme(),
        Some(Lexeme::RawString(String::from("size")))
    );
    assert_eq!(lexer.next_lexeme(), Some(Lexeme::Close));
    assert_eq!(lexer.next_lexeme(), Some(Lexeme::Comma));
    assert_eq!(
        lexer.next_lexeme(),
        Some(Lexeme::RawString(String::from("AVG")))
    );
    assert_eq!(lexer.next_lexeme(), Some(Lexeme::Open));
    assert_eq!(
        lexer.next_lexeme(),
        Some(Lexeme::RawString(String::from("size")))
    );
    assert_eq!(lexer.next_lexeme(), Some(Lexeme::Close));
    assert_eq!(lexer.next_lexeme(), Some(Lexeme::Comma));
    assert_eq!(
        lexer.next_lexeme(),
        Some(Lexeme::RawString(String::from("MAX")))
    );
    assert_eq!(lexer.next_lexeme(), Some(Lexeme::Open));
    assert_eq!(
        lexer.next_lexeme(),
        Some(Lexeme::RawString(String::from("size")))
    );
    assert_eq!(lexer.next_lexeme(), Some(Lexeme::Close));
    assert_eq!(lexer.next_lexeme(), Some(Lexeme::From));
    assert_eq!(
        lexer.next_lexeme(),
        Some(Lexeme::RawString(String::from(".")))
    );
}
fn assert_root_with_dashes_lexemes(lexer: &mut Lexer) {
    assert_eq!(
        lexer.next_lexeme(),
        Some(Lexeme::RawString(String::from("path")))
    );
    assert_eq!(lexer.next_lexeme(), Some(Lexeme::From));
    assert_eq!(
        lexer.next_lexeme(),
        Some(Lexeme::RawString(String::from("./foo-bar")))
    );
}
fn assert_mime_types_lexemes(lexer: &mut Lexer) {
    assert_eq!(
        lexer.next_lexeme(),
        Some(Lexeme::RawString(String::from("mime")))
    );
    assert_eq!(lexer.next_lexeme(), Some(Lexeme::From));
    assert_eq!(
        lexer.next_lexeme(),
        Some(Lexeme::RawString(String::from(".")))
    );
    assert_eq!(lexer.next_lexeme(), Some(Lexeme::Where));
    assert_eq!(
        lexer.next_lexeme(),
        Some(Lexeme::RawString(String::from("mime")))
    );
    assert_eq!(lexer.next_lexeme(), Some(Lexeme::Operator(String::from("="))));
    assert_eq!(
        lexer.next_lexeme(),
        Some(Lexeme::RawString(String::from("application/pkcs8+pem")))
    );
}
fn assert_group_by_lexemes(lexer: &mut Lexer) {
    assert_eq!(
        lexer.next_lexeme(),
        Some(Lexeme::Select)
    );
    assert_eq!(
        lexer.next_lexeme(),
        Some(Lexeme::RawString(String::from("AVG")))
    );
    assert_eq!(lexer.next_lexeme(), Some(Lexeme::Open));
    assert_eq!(
        lexer.next_lexeme(),
        Some(Lexeme::RawString(String::from("size")))
    );
    assert_eq!(lexer.next_lexeme(), Some(Lexeme::Close));
    assert_eq!(lexer.next_lexeme(), Some(Lexeme::From));
    assert_eq!(
        lexer.next_lexeme(),
        Some(Lexeme::RawString(String::from("/test")))
    );
    assert_eq!(lexer.next_lexeme(), Some(Lexeme::RawString("group".to_owned())));
    assert_eq!(lexer.next_lexeme(), Some(Lexeme::By));
    assert_eq!(
        lexer.next_lexeme(),
        Some(Lexeme::RawString(String::from("mime")))
    );
}
fn assert_between_op_lexemes(lexer: &mut Lexer) {
    assert_eq!(
        lexer.next_lexeme(),
        Some(Lexeme::Select)
    );
    assert_eq!(
        lexer.next_lexeme(),
        Some(Lexeme::RawString(String::from("name")))
    );
    assert_eq!(lexer.next_lexeme(), Some(Lexeme::From));
    assert_eq!(
        lexer.next_lexeme(),
        Some(Lexeme::RawString(String::from("/home/user")))
    );
    assert_eq!(lexer.next_lexeme(), Some(Lexeme::Where));
    assert_eq!(
        lexer.next_lexeme(),
        Some(Lexeme::RawString(String::from("size")))
    );
    assert_eq!(
        lexer.next_lexeme(),
        Some(Lexeme::Operator(String::from("between")))
    );
    assert_eq!(
        lexer.next_lexeme(),
        Some(Lexeme::RawString(String::from("1000000")))
    );
    assert_eq!(lexer.next_lexeme(), Some(Lexeme::And));
    assert_eq!(
        lexer.next_lexeme(),
        Some(Lexeme::RawString(String::from("2000000")))
    );
}