use psqlpack::lexer::{classify_word, create_token, tokenize, Token};

fn ident(s: &str) -> Token {
    Token::Identifier(s.to_string())
}

#[test]
fn comment_then_table_with_one_letter_name_fails() {
    let err = tokenize("-- a comment\nCREATE TABLE t ();").unwrap_err();
    assert_eq!(err.line, "CREATE TABLE t ();");
    assert_eq!(err.line_number, 2);
    assert_eq!(err.start_pos, 13);
    assert_eq!(err.end_pos, 14);
}

#[test]
fn comment_then_table() {
    let tokens = tokenize("-- a comment\nCREATE TABLE tt ();").unwrap();
    assert_eq!(
        tokens,
        vec![
            Token::CREATE,
            Token::TABLE,
            ident("tt"),
            Token::LeftBracket,
            Token::RightBracket,
            Token::Semicolon,
        ]
    );
}

#[test]
fn string_value() {
    assert_eq!(tokenize("'hello'").unwrap(), vec![Token::StringValue("hello".to_string())]);
}

#[test]
fn literal_across_lines() {
    assert_eq!(
        tokenize("$$body with\nnewline$$").unwrap(),
        vec![Token::Literal("body with\nnewline".to_string())]
    );
}

#[test]
fn package_parameter_in_text_is_an_error() {
    let err = tokenize("$(param)").unwrap_err();
    assert_eq!(err.line, "$(param)");
    assert_eq!(err.line_number, 1);
    assert_eq!(err.start_pos, 1);
    assert_eq!(err.end_pos, 1);
}

#[test]
fn package_parameter_word() {
    assert_eq!(
        create_token("$(param)".to_string()),
        Some(Token::PackageParameter("param".to_string()))
    );
}

#[test]
fn unterminated_string() {
    let err = tokenize("'unterminated").unwrap_err();
    assert_eq!(err.line, "'unterminated");
    assert_eq!(err.line_number, 1);
    assert_eq!(err.start_pos, 13);
    assert_eq!(err.end_pos, 13);
}

#[test]
fn quote_inside_word() {
    let err = tokenize("xx'dd").unwrap_err();
    assert_eq!(err.line_number, 1);
    assert_eq!(err.start_pos, 2);
    assert_eq!(err.end_pos, 2);
}

#[test]
fn same_text_same_result() {
    let text = "CREATE SCHEMA foo;\n/* note */ CREATE TABLE foo.bar (id int NOT NULL);";
    assert_eq!(tokenize(text).unwrap(), tokenize(text).unwrap());
    let bad = "CREATE x'y";
    let (a, b) = (tokenize(bad).unwrap_err(), tokenize(bad).unwrap_err());
    assert_eq!((a.line, a.line_number, a.start_pos, a.end_pos), (b.line, b.line_number, b.start_pos, b.end_pos));
}

#[test]
fn empty_text() {
    assert_eq!(tokenize("").unwrap(), vec![]);
    assert_eq!(tokenize("\n\n").unwrap(), vec![]);
}

#[test]
fn keywords_ignore_case() {
    assert_eq!(
        tokenize("create Table sErIaL8 zone").unwrap(),
        vec![Token::CREATE, Token::TABLE, Token::SERIAL8, Token::ZONE]
    );
}

#[test]
fn booleans_and_digits() {
    assert_eq!(
        tokenize("TRUE false 42 007 2147483647").unwrap(),
        vec![
            Token::Boolean(true),
            Token::Boolean(false),
            Token::Digit(42),
            Token::Digit(7),
            Token::Digit(2147483647),
        ]
    );
}

#[test]
fn digit_run_too_large() {
    let err = tokenize("x1 2147483648").unwrap_err();
    assert_eq!(err.start_pos, 3);
    assert_eq!(err.end_pos, 13);
}

#[test]
fn non_ascii_digits_are_no_digit() {
    let err = tokenize("\u{0661}\u{0662}").unwrap_err();
    assert_eq!(err.start_pos, 0);
    assert_eq!(err.end_pos, 2);
}

#[test]
fn punctuation_marks() {
    assert_eq!(
        tokenize("a1.b2(c3,d4)[e5]=f6;").unwrap(),
        vec![
            ident("a1"),
            Token::Period,
            ident("b2"),
            Token::LeftBracket,
            ident("c3"),
            Token::Comma,
            ident("d4"),
            Token::RightBracket,
            Token::LeftSquare,
            ident("e5"),
            Token::RightSquare,
            Token::Equals,
            ident("f6"),
            Token::Semicolon,
        ]
    );
}

#[test]
fn block_comment_over_lines() {
    assert_eq!(
        tokenize("ab /* one\ntwo */ cd").unwrap(),
        vec![ident("ab"), ident("cd")]
    );
}

#[test]
fn comment_right_after_word() {
    assert_eq!(tokenize("ab-- rest").unwrap(), vec![ident("ab")]);
    assert_eq!(tokenize("ab/* x */cd").unwrap(), vec![ident("ab"), ident("cd")]);
}

#[test]
fn unicode_whitespace_separates_words() {
    assert_eq!(
        tokenize("ab\tcd\u{3000}ef\r").unwrap(),
        vec![ident("ab"), ident("cd"), ident("ef")]
    );
}

#[test]
fn lone_dollar_is_an_error() {
    let err = tokenize("ab $x").unwrap_err();
    assert_eq!((err.line_number, err.start_pos, err.end_pos), (1, 4, 4));
    let err = tokenize("ok\nab $").unwrap_err();
    assert_eq!(err.line, "ab $");
    assert_eq!((err.line_number, err.start_pos, err.end_pos), (2, 4, 4));
}

#[test]
fn dollar_inside_word_is_an_error() {
    let err = tokenize("ab$").unwrap_err();
    assert_eq!((err.start_pos, err.end_pos), (2, 2));
}

#[test]
fn error_reports_its_own_line() {
    let err = tokenize("CREATE SCHEMA s1;\nCREATE TABLE s1.t% ();\nCREATE SCHEMA s2;").unwrap_err();
    assert_eq!(err.line, "CREATE TABLE s1.t% ();");
    assert_eq!((err.line_number, err.start_pos, err.end_pos), (2, 16, 18));
}

#[test]
fn function_body_literal() {
    assert_eq!(
        tokenize("AS $$ SELECT 1; $$ LANGUAGE sql;").unwrap(),
        vec![
            Token::AS,
            Token::Literal(" SELECT 1; ".to_string()),
            Token::LANGUAGE,
            Token::SQL,
            Token::Semicolon,
        ]
    );
}

#[test]
fn unterminated_literal_at_end_is_dropped() {
    assert_eq!(tokenize("ab $$ open").unwrap(), vec![ident("ab")]);
}

#[test]
fn classify_word_follows_the_given_matches() {
    assert_eq!(classify_word("abc".to_string(), false, true, false), Some(ident("abc")));
    assert_eq!(classify_word("12".to_string(), true, false, false), Some(Token::Digit(12)));
    assert_eq!(classify_word("12".to_string(), false, false, false), None);
    assert_eq!(
        classify_word("$(ab)".to_string(), false, false, true),
        Some(Token::PackageParameter("ab".to_string()))
    );
    assert_eq!(classify_word("True".to_string(), false, true, false), Some(Token::Boolean(true)));
    assert_eq!(classify_word("index".to_string(), false, true, false), Some(Token::INDEX));
    assert_eq!(classify_word("x".to_string(), false, false, false), None);
}

#[test]
fn create_token_uses_the_patterns() {
    assert_eq!(create_token("ab".to_string()), Some(ident("ab")));
    assert_eq!(create_token("a_1".to_string()), Some(ident("a_1")));
    assert_eq!(create_token("a".to_string()), None);
    assert_eq!(create_token("1a".to_string()), None);
    assert_eq!(create_token("123".to_string()), Some(Token::Digit(123)));
    assert_eq!(create_token("$(a)".to_string()), None);
    assert_eq!(create_token("uuid".to_string()), Some(Token::UUID));
}
