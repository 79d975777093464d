use psqlpack::errors::{syntax_error, PsqlpackErrorKind};
use psqlpack::lexer::tokenize;

#[test]
fn lexical_error_becomes_syntax_error() {
    let err = tokenize("CREATE\nxx'dd").unwrap_err();
    match syntax_error("a.sql".to_string(), &err) {
        PsqlpackErrorKind::SyntaxError(file, line, n, start, end) => {
            assert_eq!(file, "a.sql");
            assert_eq!(line, "xx'dd");
            assert_eq!((n, start, end), (2, 2, 2));
        }
        _ => panic!("expected a syntax error"),
    }
}
