//! The SQL tokenizer: a whitespace-sensitive state machine that turns text
//! into tokens, or reports the first lexical error with its line and columns.

use vstd::prelude::*;

verus! {

/// A token of the schema DDL dialect.
#[derive(Clone, Debug, PartialEq, Eq)]
pub enum Token {
    ACTION,
    AS,
    ASC,
    BIGINT,
    BIGSERIAL,
    BIT,
    BOOL,
    BOOLEAN,
    BTREE,
    C,
    CASCADE,
    CONSTRAINT,
    CHAR,
    CHARACTER,
    CREATE,
    DATE,
    DEFAULT,
    DELETE,
    DESC,
    DOUBLE,
    ENUM,
    EXTENSION,
    FILLFACTOR,
    FIRST,
    FOREIGN,
    FULL,
    FUNCTION,
    GIN,
    GIST,
    HASH,
    INDEX,
    INT,
    INT2,
    INT4,
    INT8,
    INTEGER,
    INTERNAL,
    KEY,
    LANGUAGE,
    LAST,
    MATCH,
    MONEY,
    NO,
    NOT,
    NULL,
    NULLS,
    NUMERIC,
    ON,
    OR,
    PARTIAL,
    PLPGSQL,
    PRECISION,
    PRIMARY,
    REAL,
    REFERENCES,
    REPLACE,
    RESTRICT,
    RETURNS,
    SCHEMA,
    SERIAL,
    SERIAL2,
    SERIAL4,
    SERIAL8,
    SET,
    SIMPLE,
    SMALLINT,
    SMALLSERIAL,
    SQL,
    TABLE,
    TEXT,
    TIME,
    TIMESTAMP,
    TIMESTAMPTZ,
    TIMETZ,
    TYPE,
    UNIQUE,
    UPDATE,
    USING,
    UUID,
    VARBIT,
    VARCHAR,
    VARYING,
    WITH,
    WITHOUT,
    ZONE,

    Boolean(bool),
    Digit(i32),
    Identifier(String),
    Literal(String),
    PackageParameter(String),
    StringValue(String),

    LeftBracket,
    RightBracket,
    LeftSquare,
    RightSquare,

    Comma,
    Period,
    Semicolon,
    Equals,
}

/// A token with its text payload, if any, seen as a sequence of characters.
pub enum TokenView {
    /// A keyword, a punctuation mark, a `Boolean` or a `Digit`.
    Word(Token),
    Identifier(Seq<char>),
    Literal(Seq<char>),
    PackageParameter(Seq<char>),
    StringValue(Seq<char>),
}

impl View for Token {
    type V = TokenView;

    open spec fn view(&self) -> TokenView {
        match self {
            Token::Identifier(s) => TokenView::Identifier(s@),
            Token::Literal(s) => TokenView::Literal(s@),
            Token::PackageParameter(s) => TokenView::PackageParameter(s@),
            Token::StringValue(s) => TokenView::StringValue(s@),
            _ => TokenView::Word(*self),
        }
    }
}

pub open spec fn tokens_view(ts: Seq<Token>) -> Seq<TokenView> {
    ts.map_values(|t: Token| t@)
}

pub open spec fn token_view_opt(t: Option<Token>) -> Option<TokenView> {
    match t {
        Some(t) => Some(t@),
        None => None,
    }
}

/// A lexical error: the offending line, its 1-based number, and the 0-based
/// columns where the faulty span starts and ends.
#[derive(Debug)]
pub struct LexicalError<'input> {
    pub line: &'input str,
    pub line_number: usize,
    pub start_pos: usize,
    pub end_pos: usize,
}

/// Whether `c` has the Unicode White_Space property.
pub open spec fn is_white_space(c: char) -> bool {
    let u = c as u32;
    (0x9 <= u <= 0xd) || u == 0x20 || u == 0x85 || u == 0xa0 || u == 0x1680 || (0x2000 <= u
        <= 0x200a) || u == 0x2028 || u == 0x2029 || u == 0x202f || u == 0x205f || u == 0x3000
}

pub open spec fn ascii_lower_char(c: char) -> char {
    if 65 <= c as u32 <= 90 {
        ((c as u32) + 32) as char
    } else {
        c
    }
}

/// `s` with its ASCII capital letters made small, every other character kept.
pub open spec fn ascii_lower(s: Seq<char>) -> Seq<char> {
    s.map_values(|c: char| ascii_lower_char(c))
}

/// Relies on str::eq_ignore_ascii_case: the two strings are equal once their
/// ASCII letters are lower-cased.
#[verifier::external_body]
fn eq_ignore_ascii_case(a: &str, b: &str) -> (r: bool)
    ensures
        r == (ascii_lower(a@) == ascii_lower(b@)),
{
    a.eq_ignore_ascii_case(b)
}

/// Relies on char::is_whitespace: true exactly for the characters with the
/// Unicode White_Space property.
#[verifier::external_body]
fn is_whitespace(c: char) -> (r: bool)
    ensures
        r == is_white_space(c),
{
    c.is_whitespace()
}

/// Relies on str::chars: the characters of `s`, in order.
#[verifier::external_body]
pub(crate) fn chars_of(s: &str) -> (r: Vec<char>)
    ensures
        r@ == s@,
{
    s.chars().collect()
}

/// Relies on String's FromIterator over characters: a string of exactly these
/// characters, in order.
#[verifier::external_body]
fn string_of(chars: &Vec<char>) -> (r: String)
    ensures
        r@ == chars@,
{
    String::from_iter(chars.iter())
}

/// Whether `pattern` is a valid regular expression that matches somewhere in
/// `haystack`.
pub uninterp spec fn regex_is_match(pattern: Seq<char>, haystack: Seq<char>) -> bool;

/// Relies on regex::Regex::new and regex::Regex::is_match: the pattern is
/// compiled with default flags and searched for in `haystack`; a pattern that
/// does not compile matches nothing. The answer depends on the two strings alone.
#[verifier::external_body]
fn pattern_matches(pattern: &str, haystack: &str) -> (r: bool)
    ensures
        r == regex_is_match(pattern@, haystack@),
{
    match regex::Regex::new(pattern) {
        Ok(re) => re.is_match(haystack),
        Err(_) => false,
    }
}

/// A run of decimal digits.
pub const DIGIT_PATTERN: &'static str = "^\\d+$";

/// A letter followed by at least one letter, digit or underscore.
pub const IDENTIFIER_PATTERN: &'static str = "^[a-zA-Z][a-zA-Z0-9_]+$";

/// `$(name)`, with `name` shaped as an identifier.
pub const PACKAGE_PARAMETER_PATTERN: &'static str = "^\\$\\([a-zA-Z][a-zA-Z0-9_]+\\)$";

/// The number of keywords.
pub const KEYWORD_COUNT: usize = 85;

/// The keyword table: each keyword's spelling and its token.
pub open spec fn keyword_entry_spec(i: usize) -> (&'static str, Token) {
    match i {
        0 => ("ACTION", Token::ACTION),
        1 => ("AS", Token::AS),
        2 => ("ASC", Token::ASC),
        3 => ("BIGINT", Token::BIGINT),
        4 => ("BIGSERIAL", Token::BIGSERIAL),
        5 => ("BIT", Token::BIT),
        6 => ("BOOL", Token::BOOL),
        7 => ("BOOLEAN", Token::BOOLEAN),
        8 => ("BTREE", Token::BTREE),
        9 => ("C", Token::C),
        10 => ("CASCADE", Token::CASCADE),
        11 => ("CONSTRAINT", Token::CONSTRAINT),
        12 => ("CHAR", Token::CHAR),
        13 => ("CHARACTER", Token::CHARACTER),
        14 => ("CREATE", Token::CREATE),
        15 => ("DATE", Token::DATE),
        16 => ("DEFAULT", Token::DEFAULT),
        17 => ("DELETE", Token::DELETE),
        18 => ("DESC", Token::DESC),
        19 => ("DOUBLE", Token::DOUBLE),
        20 => ("ENUM", Token::ENUM),
        21 => ("EXTENSION", Token::EXTENSION),
        22 => ("FILLFACTOR", Token::FILLFACTOR),
        23 => ("FIRST", Token::FIRST),
        24 => ("FOREIGN", Token::FOREIGN),
        25 => ("FULL", Token::FULL),
        26 => ("FUNCTION", Token::FUNCTION),
        27 => ("GIN", Token::GIN),
        28 => ("GIST", Token::GIST),
        29 => ("HASH", Token::HASH),
        30 => ("INDEX", Token::INDEX),
        31 => ("INT", Token::INT),
        32 => ("INT2", Token::INT2),
        33 => ("INT4", Token::INT4),
        34 => ("INT8", Token::INT8),
        35 => ("INTEGER", Token::INTEGER),
        36 => ("INTERNAL", Token::INTERNAL),
        37 => ("KEY", Token::KEY),
        38 => ("LANGUAGE", Token::LANGUAGE),
        39 => ("LAST", Token::LAST),
        40 => ("MATCH", Token::MATCH),
        41 => ("MONEY", Token::MONEY),
        42 => ("NO", Token::NO),
        43 => ("NOT", Token::NOT),
        44 => ("NULL", Token::NULL),
        45 => ("NULLS", Token::NULLS),
        46 => ("NUMERIC", Token::NUMERIC),
        47 => ("ON", Token::ON),
        48 => ("OR", Token::OR),
        49 => ("PARTIAL", Token::PARTIAL),
        50 => ("PLPGSQL", Token::PLPGSQL),
        51 => ("PRECISION", Token::PRECISION),
        52 => ("PRIMARY", Token::PRIMARY),
        53 => ("REAL", Token::REAL),
        54 => ("REFERENCES", Token::REFERENCES),
        55 => ("REPLACE", Token::REPLACE),
        56 => ("RESTRICT", Token::RESTRICT),
        57 => ("RETURNS", Token::RETURNS),
        58 => ("SCHEMA", Token::SCHEMA),
        59 => ("SERIAL", Token::SERIAL),
        60 => ("SERIAL2", Token::SERIAL2),
        61 => ("SERIAL4", Token::SERIAL4),
        62 => ("SERIAL8", Token::SERIAL8),
        63 => ("SET", Token::SET),
        64 => ("SIMPLE", Token::SIMPLE),
        65 => ("SMALLINT", Token::SMALLINT),
        66 => ("SMALLSERIAL", Token::SMALLSERIAL),
        67 => ("SQL", Token::SQL),
        68 => ("TABLE", Token::TABLE),
        69 => ("TEXT", Token::TEXT),
        70 => ("TIME", Token::TIME),
        71 => ("TIMESTAMP", Token::TIMESTAMP),
        72 => ("TIMESTAMPTZ", Token::TIMESTAMPTZ),
        73 => ("TIMETZ", Token::TIMETZ),
        74 => ("TYPE", Token::TYPE),
        75 => ("UNIQUE", Token::UNIQUE),
        76 => ("UPDATE", Token::UPDATE),
        77 => ("USING", Token::USING),
        78 => ("UUID", Token::UUID),
        79 => ("VARBIT", Token::VARBIT),
        80 => ("VARCHAR", Token::VARCHAR),
        81 => ("VARYING", Token::VARYING),
        82 => ("WITH", Token::WITH),
        83 => ("WITHOUT", Token::WITHOUT),
        _ => ("ZONE", Token::ZONE),
    }
}

fn keyword_entry(i: usize) -> (r: (&'static str, Token))
    ensures
        r == keyword_entry_spec(i),
{
    match i {
        0 => ("ACTION", Token::ACTION),
        1 => ("AS", Token::AS),
        2 => ("ASC", Token::ASC),
        3 => ("BIGINT", Token::BIGINT),
        4 => ("BIGSERIAL", Token::BIGSERIAL),
        5 => ("BIT", Token::BIT),
        6 => ("BOOL", Token::BOOL),
        7 => ("BOOLEAN", Token::BOOLEAN),
        8 => ("BTREE", Token::BTREE),
        9 => ("C", Token::C),
        10 => ("CASCADE", Token::CASCADE),
        11 => ("CONSTRAINT", Token::CONSTRAINT),
        12 => ("CHAR", Token::CHAR),
        13 => ("CHARACTER", Token::CHARACTER),
        14 => ("CREATE", Token::CREATE),
        15 => ("DATE", Token::DATE),
        16 => ("DEFAULT", Token::DEFAULT),
        17 => ("DELETE", Token::DELETE),
        18 => ("DESC", Token::DESC),
        19 => ("DOUBLE", Token::DOUBLE),
        20 => ("ENUM", Token::ENUM),
        21 => ("EXTENSION", Token::EXTENSION),
        22 => ("FILLFACTOR", Token::FILLFACTOR),
        23 => ("FIRST", Token::FIRST),
        24 => ("FOREIGN", Token::FOREIGN),
        25 => ("FULL", Token::FULL),
        26 => ("FUNCTION", Token::FUNCTION),
        27 => ("GIN", Token::GIN),
        28 => ("GIST", Token::GIST),
        29 => ("HASH", Token::HASH),
        30 => ("INDEX", Token::INDEX),
        31 => ("INT", Token::INT),
        32 => ("INT2", Token::INT2),
        33 => ("INT4", Token::INT4),
        34 => ("INT8", Token::INT8),
        35 => ("INTEGER", Token::INTEGER),
        36 => ("INTERNAL", Token::INTERNAL),
        37 => ("KEY", Token::KEY),
        38 => ("LANGUAGE", Token::LANGUAGE),
        39 => ("LAST", Token::LAST),
        40 => ("MATCH", Token::MATCH),
        41 => ("MONEY", Token::MONEY),
        42 => ("NO", Token::NO),
        43 => ("NOT", Token::NOT),
        44 => ("NULL", Token::NULL),
        45 => ("NULLS", Token::NULLS),
        46 => ("NUMERIC", Token::NUMERIC),
        47 => ("ON", Token::ON),
        48 => ("OR", Token::OR),
        49 => ("PARTIAL", Token::PARTIAL),
        50 => ("PLPGSQL", Token::PLPGSQL),
        51 => ("PRECISION", Token::PRECISION),
        52 => ("PRIMARY", Token::PRIMARY),
        53 => ("REAL", Token::REAL),
        54 => ("REFERENCES", Token::REFERENCES),
        55 => ("REPLACE", Token::REPLACE),
        56 => ("RESTRICT", Token::RESTRICT),
        57 => ("RETURNS", Token::RETURNS),
        58 => ("SCHEMA", Token::SCHEMA),
        59 => ("SERIAL", Token::SERIAL),
        60 => ("SERIAL2", Token::SERIAL2),
        61 => ("SERIAL4", Token::SERIAL4),
        62 => ("SERIAL8", Token::SERIAL8),
        63 => ("SET", Token::SET),
        64 => ("SIMPLE", Token::SIMPLE),
        65 => ("SMALLINT", Token::SMALLINT),
        66 => ("SMALLSERIAL", Token::SMALLSERIAL),
        67 => ("SQL", Token::SQL),
        68 => ("TABLE", Token::TABLE),
        69 => ("TEXT", Token::TEXT),
        70 => ("TIME", Token::TIME),
        71 => ("TIMESTAMP", Token::TIMESTAMP),
        72 => ("TIMESTAMPTZ", Token::TIMESTAMPTZ),
        73 => ("TIMETZ", Token::TIMETZ),
        74 => ("TYPE", Token::TYPE),
        75 => ("UNIQUE", Token::UNIQUE),
        76 => ("UPDATE", Token::UPDATE),
        77 => ("USING", Token::USING),
        78 => ("UUID", Token::UUID),
        79 => ("VARBIT", Token::VARBIT),
        80 => ("VARCHAR", Token::VARCHAR),
        81 => ("VARYING", Token::VARYING),
        82 => ("WITH", Token::WITH),
        83 => ("WITHOUT", Token::WITHOUT),
        _ => ("ZONE", Token::ZONE),
    }
}

/// The first keyword from index `i` on that matches `s` without regard to ASCII case.
pub open spec fn keyword_from(s: Seq<char>, i: int) -> Option<Token>
    decreases KEYWORD_COUNT - i,
{
    if i < 0 || i >= KEYWORD_COUNT {
        None
    } else if ascii_lower(keyword_entry_spec(i as usize).0@) == ascii_lower(s) {
        Some(keyword_entry_spec(i as usize).1)
    } else {
        keyword_from(s, i + 1)
    }
}

/// The keyword that `s` spells, ignoring ASCII case.
pub open spec fn keyword_of(s: Seq<char>) -> Option<Token> {
    keyword_from(s, 0)
}

fn keyword_token(value: &str) -> (r: Option<Token>)
    ensures
        r == keyword_of(value@),
{
    let mut i: usize = 0;
    while i < KEYWORD_COUNT
        invariant
            i <= KEYWORD_COUNT,
            keyword_of(value@) == keyword_from(value@, i as int),
        decreases KEYWORD_COUNT - i,
    {
        let (name, token) = keyword_entry(i);
        if eq_ignore_ascii_case(name, value) {
            return Some(token);
        }
        i += 1;
    }
    None
}

pub open spec fn is_ascii_digit(c: char) -> bool {
    48 <= c as u32 <= 57
}

pub open spec fn all_ascii_digits(s: Seq<char>) -> bool {
    forall|i: int| 0 <= i < s.len() ==> is_ascii_digit(#[trigger] s[i])
}

/// The number that a run of ASCII digits spells in base ten.
pub open spec fn decimal_value(s: Seq<char>) -> int
    decreases s.len(),
{
    if s.len() == 0 {
        0
    } else {
        decimal_value(s.drop_last()) * 10 + (s.last() as u32 - 48)
    }
}

/// `s` read as a non-empty run of ASCII digits whose value fits an `i32`.
pub open spec fn decimal_i32(s: Seq<char>) -> Option<i32> {
    if s.len() > 0 && all_ascii_digits(s) && decimal_value(s) <= i32::MAX {
        Some(decimal_value(s) as i32)
    } else {
        None
    }
}

/// A prefix of a digit run spells a number no larger than the whole run.
proof fn lemma_decimal_prefix(s: Seq<char>, k: int)
    requires
        0 <= k <= s.len(),
        all_ascii_digits(s),
    ensures
        0 <= decimal_value(s.subrange(0, k)) <= decimal_value(s),
    decreases s.len(),
{
    if s.len() > 0 {
        if k == s.len() {
            assert(s.subrange(0, k) =~= s);
        } else {
            assert(s.drop_last().subrange(0, k) =~= s.subrange(0, k));
            lemma_decimal_prefix(s.drop_last(), k);
        }
        lemma_decimal_prefix(s.drop_last(), s.len() - 1);
        assert(s.drop_last().subrange(0, s.len() - 1) =~= s.drop_last());
    }
}

fn parse_decimal(s: &Vec<char>) -> (r: Option<i32>)
    ensures
        r == decimal_i32(s@),
{
    if s.len() == 0 {
        return None;
    }
    let mut acc: i64 = 0;
    let mut i: usize = 0;
    while i < s.len()
        invariant
            i <= s.len(),
            all_ascii_digits(s@.subrange(0, i as int)),
            acc == decimal_value(s@.subrange(0, i as int)),
            0 <= acc <= i32::MAX,
        decreases s.len() - i,
    {
        let u = s[i] as u32;
        if !(48 <= u && u <= 57) {
            return None;
        }
        let d = (u - 48) as i64;
        assert(s@.subrange(0, i + 1).drop_last() =~= s@.subrange(0, i as int));
        acc = acc * 10 + d;
        i += 1;
        assert(all_ascii_digits(s@.subrange(0, i as int)));
        if acc > i32::MAX as i64 {
            proof {
                if all_ascii_digits(s@) {
                    lemma_decimal_prefix(s@, i as int);
                }
            }
            return None;
        }
    }
    assert(s@.subrange(0, i as int) =~= s@);
    Some(acc as i32)
}

/// The token that a flushed word `s` becomes, given whether the digit, the
/// identifier and the package-parameter patterns match it: `true` and `false`
/// first, then the keywords, then the three patterns in that order.
pub open spec fn word_token(s: Seq<char>, digits: bool, identifier: bool, parameter: bool) -> Option<
    TokenView,
> {
    if ascii_lower(s) == ascii_lower("true"@) {
        Some(Token::Boolean(true)@)
    } else if ascii_lower(s) == ascii_lower("false"@) {
        Some(Token::Boolean(false)@)
    } else if keyword_of(s) is Some {
        Some(keyword_of(s)->Some_0@)
    } else if digits {
        match decimal_i32(s) {
            Some(v) => Some(Token::Digit(v)@),
            None => None,
        }
    } else if identifier {
        Some(TokenView::Identifier(s))
    } else if parameter && s.len() >= 3 {
        Some(TokenView::PackageParameter(s.subrange(2, s.len() - 1)))
    } else {
        None
    }
}

/// The token that a flushed word `s` becomes, if any.
pub open spec fn token_of(s: Seq<char>) -> Option<TokenView> {
    word_token(
        s,
        regex_is_match(DIGIT_PATTERN@, s),
        regex_is_match(IDENTIFIER_PATTERN@, s),
        regex_is_match(PACKAGE_PARAMETER_PATTERN@, s),
    )
}

/// Turns a word into its token, given whether each of the three patterns
/// matches it. A digit run that does not fit an `i32` is no token.
pub fn classify_word(value: String, digits: bool, identifier: bool, parameter: bool) -> (r: Option<
    Token,
>)
    ensures
        token_view_opt(r) == word_token(value@, digits, identifier, parameter),
{
    if eq_ignore_ascii_case("true", value.as_str()) {
        return Some(Token::Boolean(true));
    }
    if eq_ignore_ascii_case("false", value.as_str()) {
        return Some(Token::Boolean(false));
    }
    match keyword_token(value.as_str()) {
        Some(t) => {
            return Some(t);
        },
        None => {},
    }
    if digits {
        let chars = chars_of(value.as_str());
        return match parse_decimal(&chars) {
            Some(v) => Some(Token::Digit(v)),
            None => None,
        };
    }
    if identifier {
        return Some(Token::Identifier(value));
    }
    if parameter {
        let n = value.as_str().unicode_len();
        if n >= 3 {
            let inner = value.as_str().substring_char(2, n - 1);
            return Some(Token::PackageParameter(String::from_str(inner)));
        }
    }
    None
}

/// Turns a flushed word into its token: a keyword (ignoring ASCII case), a
/// boolean, a digit run, an identifier or a package parameter; `None` when it
/// is none of them.
pub fn create_token(value: String) -> (r: Option<Token>)
    ensures
        token_view_opt(r) == token_of(value@),
{
    let digits = pattern_matches(DIGIT_PATTERN, value.as_str());
    let identifier = pattern_matches(IDENTIFIER_PATTERN, value.as_str());
    let parameter = pattern_matches(PACKAGE_PARAMETER_PATTERN, value.as_str());
    classify_word(value, digits, identifier, parameter)
}

/// The states of the tokenizer.
#[derive(Clone, Copy, Debug, PartialEq, Eq, Structural)]
pub enum LexerState {
    Normal,
    LineComment,
    BlockComment,
    String,
    MaybeLiteral,
    Literal,
}

/// Where the tokenizer stands after a prefix of the text.
pub struct ScanState {
    pub mode: LexerState,
    pub tokens: Seq<TokenView>,
    pub buffer: Seq<char>,
    /// The character before the current one on the same line, `'\0'` at a line's start.
    pub last: char,
    /// The index in the text of the current line's first character.
    pub line_start: int,
    /// The 0-based number of the current line.
    pub line_index: int,
    /// The 0-based column of the current character.
    pub column: int,
    /// The span of the first lexical error, once there is one.
    pub error: Option<(int, int)>,
}

pub open spec fn fail_at(st: ScanState, start: int, end: int) -> ScanState {
    ScanState { error: Some((start, end)), ..st }
}

/// Turns a non-empty buffer into a token, or fails on the buffer's span.
pub open spec fn flush(st: ScanState) -> ScanState {
    if st.buffer.len() == 0 {
        st
    } else {
        match token_of(st.buffer) {
            Some(t) => ScanState { tokens: st.tokens.push(t), buffer: Seq::empty(), ..st },
            None => fail_at(st, st.column - st.buffer.len(), st.column),
        }
    }
}

pub open spec fn drop_pending(st: ScanState) -> ScanState {
    if st.buffer.len() > 0 {
        ScanState { buffer: st.buffer.drop_last(), ..st }
    } else {
        st
    }
}

pub open spec fn then_mode(st: ScanState, mode: LexerState) -> ScanState {
    if st.error is Some {
        st
    } else {
        ScanState { mode, ..st }
    }
}

pub open spec fn then_emit(st: ScanState, t: TokenView) -> ScanState {
    if st.error is Some {
        st
    } else {
        ScanState { tokens: st.tokens.push(t), ..st }
    }
}

pub open spec fn push_char(st: ScanState, c: char) -> ScanState {
    ScanState { buffer: st.buffer.push(c), ..st }
}

/// Ends a string or a literal: its token is emitted and the buffer emptied.
pub open spec fn close_with(st: ScanState, t: TokenView) -> ScanState {
    ScanState { tokens: st.tokens.push(t), buffer: Seq::empty(), mode: LexerState::Normal, ..st }
}

/// The token of a punctuation mark.
pub open spec fn punctuation_spec(c: char) -> Option<Token> {
    if c == '(' {
        Some(Token::LeftBracket)
    } else if c == ')' {
        Some(Token::RightBracket)
    } else if c == ',' {
        Some(Token::Comma)
    } else if c == ';' {
        Some(Token::Semicolon)
    } else if c == '=' {
        Some(Token::Equals)
    } else if c == '.' {
        Some(Token::Period)
    } else if c == '[' {
        Some(Token::LeftSquare)
    } else if c == ']' {
        Some(Token::RightSquare)
    } else {
        None
    }
}

fn punctuation(c: char) -> (r: Option<Token>)
    ensures
        r == punctuation_spec(c),
{
    if c == '(' {
        Some(Token::LeftBracket)
    } else if c == ')' {
        Some(Token::RightBracket)
    } else if c == ',' {
        Some(Token::Comma)
    } else if c == ';' {
        Some(Token::Semicolon)
    } else if c == '=' {
        Some(Token::Equals)
    } else if c == '.' {
        Some(Token::Period)
    } else if c == '[' {
        Some(Token::LeftSquare)
    } else if c == ']' {
        Some(Token::RightSquare)
    } else {
        None
    }
}

/// What a character other than a line feed does to the state, before the
/// column moves on.
pub open spec fn react(st: ScanState, c: char) -> ScanState {
    match st.mode {
        LexerState::Normal => {
            if st.last == '-' && c == '-' {
                then_mode(flush(drop_pending(st)), LexerState::LineComment)
            } else if st.last == '/' && c == '*' {
                then_mode(flush(drop_pending(st)), LexerState::BlockComment)
            } else if c == '\'' {
                if st.buffer.len() == 0 {
                    ScanState { mode: LexerState::String, ..st }
                } else {
                    fail_at(st, st.column, st.column)
                }
            } else if c == '$' {
                if st.buffer.len() == 0 {
                    ScanState { mode: LexerState::MaybeLiteral, ..st }
                } else {
                    fail_at(st, st.column, st.column)
                }
            } else if is_white_space(c) {
                flush(st)
            } else {
                match punctuation_spec(c) {
                    Some(t) => then_emit(flush(st), t@),
                    None => push_char(st, c),
                }
            }
        },
        LexerState::LineComment => st,
        LexerState::BlockComment => {
            if st.last == '*' && c == '/' {
                ScanState { mode: LexerState::Normal, ..st }
            } else {
                st
            }
        },
        LexerState::String => {
            if c == '\'' {
                close_with(st, TokenView::StringValue(st.buffer))
            } else {
                push_char(st, c)
            }
        },
        LexerState::MaybeLiteral => {
            if c == '$' {
                ScanState { mode: LexerState::Literal, ..st }
            } else {
                fail_at(st, st.column, st.column)
            }
        },
        LexerState::Literal => {
            if st.last == '$' && c == '$' {
                close_with(st, TokenView::Literal(drop_pending(st).buffer))
            } else {
                push_char(st, c)
            }
        },
    }
}

/// One character other than a line feed.
pub open spec fn scan_char(st: ScanState, c: char) -> ScanState {
    let s = react(st, c);
    if s.error is Some {
        s
    } else {
        ScanState { column: s.column + 1, last: c, ..s }
    }
}

/// The end of a line: a line comment ends, a literal gains a line feed, and a
/// string or a lone `$` is an error.
pub open spec fn end_line(st: ScanState) -> ScanState {
    match st.mode {
        LexerState::Normal => flush(st),
        LexerState::LineComment => ScanState { mode: LexerState::Normal, ..st },
        LexerState::BlockComment => st,
        LexerState::String | LexerState::MaybeLiteral => fail_at(st, st.column, st.column),
        LexerState::Literal => push_char(st, '\n'),
    }
}

pub open spec fn next_line(st: ScanState, start: int) -> ScanState {
    if st.error is Some {
        st
    } else {
        ScanState { line_start: start, line_index: st.line_index + 1, column: 0, last: '\0', ..st }
    }
}

pub open spec fn initial_scan() -> ScanState {
    ScanState {
        mode: LexerState::Normal,
        tokens: Seq::empty(),
        buffer: Seq::empty(),
        last: '\0',
        line_start: 0,
        line_index: 0,
        column: 0,
        error: None,
    }
}

/// The state after the first `n` characters of `text`; it stops at the first error.
pub open spec fn scan(text: Seq<char>, n: nat) -> ScanState
    decreases n,
{
    if n == 0 {
        initial_scan()
    } else {
        let st = scan(text, (n - 1) as nat);
        if st.error is Some {
            st
        } else if text[n - 1] == '\n' {
            next_line(end_line(st), n as int)
        } else {
            scan_char(st, text[n - 1])
        }
    }
}

/// The index of the line feed that ends the line holding index `from`, or the
/// text's length.
pub open spec fn line_end(text: Seq<char>, from: int) -> int
    decreases text.len() - from,
{
    if from >= text.len() {
        text.len() as int
    } else if text[from] == '\n' {
        from
    } else {
        line_end(text, from + 1)
    }
}

/// What tokenizing a text gives.
pub enum LexOutcome {
    Tokens(Seq<TokenView>),
    Failed { line: Seq<char>, line_number: int, start_pos: int, end_pos: int },
}

/// The tokens of `text`, or its first lexical error. The last line ends like
/// the others; a literal still open at the end of the text is dropped.
pub open spec fn lex(text: Seq<char>) -> LexOutcome {
    let st = scan(text, text.len());
    let fin = if st.error is Some {
        st
    } else {
        end_line(st)
    };
    match fin.error {
        None => LexOutcome::Tokens(fin.tokens),
        Some((start, end)) => LexOutcome::Failed {
            line: text.subrange(fin.line_start, line_end(text, fin.line_start)),
            line_number: fin.line_index + 1,
            start_pos: start,
            end_pos: end,
        },
    }
}

/// The bounds that a state keeps between characters.
pub open spec fn well_formed(st: ScanState) -> bool {
    &&& st.column >= 0
    &&& st.mode == LexerState::Normal ==> st.buffer.len() <= st.column
    &&& (st.mode == LexerState::LineComment || st.mode == LexerState::BlockComment || st.mode
        == LexerState::MaybeLiteral) ==> st.buffer.len() == 0
    &&& (st.mode == LexerState::String || st.mode == LexerState::MaybeLiteral) ==> st.column >= 1
}

proof fn lemma_scan_char(st: ScanState, c: char)
    requires
        well_formed(st),
        st.error is None,
    ensures
        scan_char(st, c).error is None ==> well_formed(scan_char(st, c)),
        scan_char(st, c).line_start == st.line_start,
        scan_char(st, c).line_index == st.line_index,
{
}

proof fn lemma_end_line(st: ScanState, start: int)
    requires
        well_formed(st),
        st.error is None,
    ensures
        end_line(st).error is None ==> well_formed(next_line(end_line(st), start)),
        end_line(st).line_start == st.line_start,
        end_line(st).line_index == st.line_index,
        end_line(st).error is Some ==> st.column >= 1,
{
}

proof fn lemma_error_stays(text: Seq<char>, k: nat, n: nat)
    requires
        k <= n,
        scan(text, k).error is Some,
    ensures
        scan(text, n) == scan(text, k),
    decreases n - k,
{
    if n > k {
        lemma_error_stays(text, k, (n - 1) as nat);
    }
}

proof fn lemma_tokens_push(ts: Seq<Token>, t: Token)
    ensures
        tokens_view(ts.push(t)) == tokens_view(ts).push(t@),
{
    assert(tokens_view(ts.push(t)) =~= tokens_view(ts).push(t@));
}

struct Scanner {
    mode: LexerState,
    tokens: Vec<Token>,
    buffer: Vec<char>,
    last: char,
    line_start: usize,
    line_index: usize,
    column: usize,
}

impl View for Scanner {
    type V = ScanState;

    closed spec fn view(&self) -> ScanState {
        ScanState {
            mode: self.mode,
            tokens: tokens_view(self.tokens@),
            buffer: self.buffer@,
            last: self.last,
            line_start: self.line_start as int,
            line_index: self.line_index as int,
            column: self.column as int,
            error: None,
        }
    }
}

impl Scanner {
    fn emit(&mut self, t: Token)
        ensures
            final(self)@ == (ScanState { tokens: old(self)@.tokens.push(t@), ..old(self)@ }),
            final(self).line_start == old(self).line_start,
            final(self).line_index == old(self).line_index,
            final(self).column == old(self).column,
    {
        proof {
            lemma_tokens_push(self.tokens@, t);
        }
        self.tokens.push(t);
    }

    fn flush(&mut self) -> (r: Result<(), (usize, usize)>)
        requires
            old(self).buffer@.len() <= old(self).column,
        ensures
            match r {
                Ok(_) => final(self)@ == flush(old(self)@),
                Err((s, e)) => flush(old(self)@).error == Some((s as int, e as int)),
            },
            r is Err ==> old(self).buffer@.len() > 0,
            final(self).line_start == old(self).line_start,
            final(self).line_index == old(self).line_index,
            final(self).column == old(self).column,
    {
        if self.buffer.len() == 0 {
            return Ok(());
        }
        let value = string_of(&self.buffer);
        match create_token(value) {
            Some(t) => {
                self.emit(t);
                self.buffer.clear();
                Ok(())
            },
            None => Err((self.column - self.buffer.len(), self.column)),
        }
    }

    fn drop_pending(&mut self)
        ensures
            final(self)@ == drop_pending(old(self)@),
            final(self).line_start == old(self).line_start,
            final(self).line_index == old(self).line_index,
            final(self).column == old(self).column,
    {
        let _ = self.buffer.pop();
    }

    fn close_with(&mut self, t: Token)
        ensures
            final(self)@ == close_with(old(self)@, t@),
            final(self).line_start == old(self).line_start,
            final(self).line_index == old(self).line_index,
            final(self).column == old(self).column,
    {
        self.emit(t);
        self.buffer.clear();
        self.mode = LexerState::Normal;
    }

    fn react(&mut self, c: char) -> (r: Result<(), (usize, usize)>)
        requires
            well_formed(old(self)@),
        ensures
            match r {
                Ok(_) => final(self)@ == react(old(self)@, c),
                Err((s, e)) => react(old(self)@, c).error == Some((s as int, e as int)),
            },
            final(self).line_start == old(self).line_start,
            final(self).line_index == old(self).line_index,
            final(self).column == old(self).column,
    {
        match self.mode {
            LexerState::Normal => {
                if self.last == '-' && c == '-' {
                    self.drop_pending();
                    let f = self.flush();
                    if f.is_err() {
                        return f;
                    }
                    self.mode = LexerState::LineComment;
                    Ok(())
                } else if self.last == '/' && c == '*' {
                    self.drop_pending();
                    let f = self.flush();
                    if f.is_err() {
                        return f;
                    }
                    self.mode = LexerState::BlockComment;
                    Ok(())
                } else if c == '\'' {
                    if self.buffer.len() == 0 {
                        self.mode = LexerState::String;
                        Ok(())
                    } else {
                        Err((self.column, self.column))
                    }
                } else if c == '$' {
                    if self.buffer.len() == 0 {
                        self.mode = LexerState::MaybeLiteral;
                        Ok(())
                    } else {
                        Err((self.column, self.column))
                    }
                } else if is_whitespace(c) {
                    self.flush()
                } else {
                    match punctuation(c) {
                        Some(t) => {
                            let f = self.flush();
                            if f.is_err() {
                                return f;
                            }
                            self.emit(t);
                            Ok(())
                        },
                        None => {
                            self.buffer.push(c);
                            Ok(())
                        },
                    }
                }
            },
            LexerState::LineComment => Ok(()),
            LexerState::BlockComment => {
                if self.last == '*' && c == '/' {
                    self.mode = LexerState::Normal;
                }
                Ok(())
            },
            LexerState::String => {
                if c == '\'' {
                    let value = string_of(&self.buffer);
                    self.close_with(Token::StringValue(value));
                } else {
                    self.buffer.push(c);
                }
                Ok(())
            },
            LexerState::MaybeLiteral => {
                if c == '$' {
                    self.mode = LexerState::Literal;
                    Ok(())
                } else {
                    Err((self.column, self.column))
                }
            },
            LexerState::Literal => {
                if self.last == '$' && c == '$' {
                    let ghost before = self@;
                    self.drop_pending();
                    let value = string_of(&self.buffer);
                    self.close_with(Token::Literal(value));
                    assert(self@ == close_with(before, TokenView::Literal(drop_pending(before).buffer)));
                } else {
                    self.buffer.push(c);
                }
                Ok(())
            },
        }
    }

    fn end_line(&mut self) -> (r: Result<(), (usize, usize)>)
        requires
            well_formed(old(self)@),
        ensures
            match r {
                Ok(_) => final(self)@ == end_line(old(self)@),
                Err((s, e)) => end_line(old(self)@).error == Some((s as int, e as int)),
            },
            final(self).line_start == old(self).line_start,
            final(self).line_index == old(self).line_index,
            final(self).column == old(self).column,
    {
        match self.mode {
            LexerState::Normal => self.flush(),
            LexerState::LineComment => {
                self.mode = LexerState::Normal;
                Ok(())
            },
            LexerState::BlockComment => Ok(()),
            LexerState::String | LexerState::MaybeLiteral => Err((self.column, self.column)),
            LexerState::Literal => {
                self.buffer.push('\n');
                Ok(())
            },
        }
    }
}

fn lexical_error<'a>(
    text: &'a str,
    chars: &Vec<char>,
    line_start: usize,
    line_index: usize,
    start_pos: usize,
    end_pos: usize,
) -> (r: LexicalError<'a>)
    requires
        chars@ == text@,
        line_start <= chars@.len(),
        line_index < usize::MAX,
    ensures
        r.line@ == text@.subrange(line_start as int, line_end(text@, line_start as int)),
        r.line_number == line_index + 1,
        r.start_pos == start_pos,
        r.end_pos == end_pos,
{
    let mut j: usize = line_start;
    while j < chars.len() && chars[j] != '\n'
        invariant
            chars@ == text@,
            line_start <= j <= chars@.len(),
            line_end(text@, line_start as int) == line_end(text@, j as int),
        decreases chars@.len() - j,
    {
        j += 1;
    }
    LexicalError {
        line: text.substring_char(line_start, j),
        line_number: line_index + 1,
        start_pos,
        end_pos,
    }
}

/// Splits `text` into tokens. Lines end at line feeds; the text is read
/// character by character through the states of `LexerState`. The result is
/// the token list, or the first lexical error, never a part of either.
pub fn tokenize<'a>(text: &'a str) -> (r: Result<Vec<Token>, LexicalError<'a>>)
    ensures
        match r {
            Ok(tokens) => lex(text@) == LexOutcome::Tokens(tokens_view(tokens@)),
            Err(e) => lex(text@) == (LexOutcome::Failed {
                line: e.line@,
                line_number: e.line_number as int,
                start_pos: e.start_pos as int,
                end_pos: e.end_pos as int,
            }),
        },
{
    let chars = chars_of(text);
    let mut sc = Scanner {
        mode: LexerState::Normal,
        tokens: Vec::new(),
        buffer: Vec::new(),
        last: '\0',
        line_start: 0,
        line_index: 0,
        column: 0,
    };
    assert(tokens_view(sc.tokens@) =~= Seq::empty());
    assert(sc@ == initial_scan());
    let mut i: usize = 0;
    while i < chars.len()
        invariant
            chars@ == text@,
            i <= chars@.len(),
            sc@ == scan(text@, i as nat),
            well_formed(sc@),
            sc.line_start + sc.column == i,
            sc.line_index <= sc.line_start,
        decreases chars@.len() - i,
    {
        let c = chars[i];
        let ghost before = sc@;
        proof {
            lemma_scan_char(before, c);
            lemma_end_line(before, i + 1);
        }
        if c == '\n' {
            match sc.end_line() {
                Ok(_) => {
                    sc.line_start = i + 1;
                    sc.line_index = sc.line_index + 1;
                    sc.column = 0;
                    sc.last = '\0';
                    assert(sc@ == next_line(end_line(before), i + 1));
                },
                Err((s, e)) => {
                    proof {
                        lemma_error_stays(text@, (i + 1) as nat, text@.len());
                    }
                    return Err(lexical_error(text, &chars, sc.line_start, sc.line_index, s, e));
                },
            }
        } else {
            match sc.react(c) {
                Ok(_) => {
                    sc.column = sc.column + 1;
                    sc.last = c;
                    assert(sc@ == scan_char(before, c));
                },
                Err((s, e)) => {
                    proof {
                        lemma_error_stays(text@, (i + 1) as nat, text@.len());
                    }
                    return Err(lexical_error(text, &chars, sc.line_start, sc.line_index, s, e));
                },
            }
        }
        i += 1;
    }
    let ghost before = sc@;
    proof {
        lemma_end_line(before, 0);
        assert(text@.len() == i);
    }
    match sc.end_line() {
        Ok(_) => Ok(sc.tokens),
        Err((s, e)) => Err(lexical_error(text, &chars, sc.line_start, sc.line_index, s, e)),
    }
}

} // verus!
