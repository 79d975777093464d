//! The library's error taxonomy: each kind carries what a diagnostic needs.

use vstd::prelude::*;

use crate::lexer::{LexicalError, Token};

verus! {

/// An error of the LR parser.
pub enum ParserError {
    InvalidToken,
    UnrecognizedToken { token: Option<Token>, expected: Vec<String> },
    ExtraToken { token: Token },
    User { message: String },
}

/// What went wrong. Paths are carried as text.
pub enum PsqlpackErrorKind {
    ProjectReadError(String),
    ProjectParseError(String),
    InvalidScriptPath(String),
    PublishProfileReadError(String),
    PublishProfileParseError(String),
    PackageReadError(String),
    PackageUnarchiveError(String),
    PackageInternalReadError(String),
    IOError(String, String),
    /// The file, the offending line, its 1-based number and the 0-based span.
    SyntaxError(String, String, usize, usize, usize),
    ParseError(String, Vec<ParserError>),
    GenerationError(String),
    FormatError(String, String),
    DatabaseError(String),
    QueryExtensionsError(String),
    ProjectError(String),
    MultipleErrors(Vec<PsqlpackErrorKind>),
}

/// The syntax error that a lexical error in `file` becomes.
pub fn syntax_error(file: String, e: &LexicalError) -> (r: PsqlpackErrorKind)
    ensures
        match r {
            PsqlpackErrorKind::SyntaxError(f, line, n, start, end) => f@ == file@ && line@
                == e.line@ && n == e.line_number && start == e.start_pos && end == e.end_pos,
            _ => false,
        },
{
    PsqlpackErrorKind::SyntaxError(file, e.line.to_owned(), e.line_number, e.start_pos, e.end_pos)
}

} // verus!
