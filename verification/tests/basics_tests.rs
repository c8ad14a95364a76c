use rlox::error_logger;
use rlox::errors::{Error, ErrorDescription, ErrorKind, ErrorLog};
use rlox::language_utilities::enum_variant_equal;
use rlox::scanner::{Token, WhitespaceKind};
use rlox::source_file::{SourceLocation, SourceSpan};
use rlox::text::{decimal_string, is_char, join, same_text};

fn location(line: usize, column: usize, index: usize) -> SourceLocation {
    SourceLocation { line, column, index }
}

fn span_from(line: usize, column: usize) -> SourceSpan {
    SourceSpan { start: location(line, column, 7), end: location(line, column + 2, 9) }
}

#[test]
fn location_starts_at_line_one_column_one() {
    assert_eq!(SourceLocation::new(), location(1, 1, 0));
    let span = SourceSpan::new();
    assert_eq!(span.start, location(1, 1, 0));
    assert_eq!(span.end, location(1, 1, 0));
}

#[test]
fn newline_starts_the_next_line() {
    let mut at = location(3, 9, 40);
    at.increment("\n");
    assert_eq!(at, location(4, 1, 41));
    at.increment_line();
    assert_eq!(at, location(5, 1, 42));
}

#[test]
fn other_symbols_start_the_next_column() {
    let mut at = location(3, 9, 40);
    at.increment("a");
    assert_eq!(at, location(3, 10, 41));
    at.increment("\r\n");
    assert_eq!(at, location(3, 11, 42));
    at.increment("\r");
    assert_eq!(at, location(3, 12, 43));
    at.increment("e\u{301}");
    assert_eq!(at, location(3, 13, 44));
    at.increment("");
    assert_eq!(at, location(3, 14, 45));
    at.increment_column();
    assert_eq!(at, location(3, 15, 46));
}

#[test]
fn index_never_decreases() {
    let mut at = SourceLocation::new();
    let mut last = at.index;
    for symbol in ["a", "\n", "\n", "b", " ", "\n", "c"] {
        at.increment(symbol);
        assert_eq!(at.index, last + 1);
        last = at.index;
    }
    assert_eq!(at, location(4, 2, 7));
}

#[test]
fn close_moves_the_start_to_the_end() {
    let mut span = SourceSpan { start: location(1, 1, 0), end: location(2, 5, 9) };
    span.close();
    assert_eq!(span, SourceSpan { start: location(2, 5, 9), end: location(2, 5, 9) });
    span.close();
    assert_eq!(span, SourceSpan { start: location(2, 5, 9), end: location(2, 5, 9) });
}

#[test]
fn scanning_error_in_display_form() {
    let error = Error {
        kind: ErrorKind::Scanning,
        description: ErrorDescription {
            subject: Some(String::from("@")),
            location: Some(span_from(3, 14)),
            description: String::from("Unexpected character"),
        },
    };
    assert_eq!(error.to_string(), "[line: 3, col: 14] Scanning Error (Unexpected character): @");
}

#[test]
fn display_form_shows_where_the_span_starts() {
    let error = Error {
        kind: ErrorKind::Scanning,
        description: ErrorDescription {
            subject: Some(String::from("@")),
            location: Some(SourceSpan { start: location(2, 5, 11), end: location(4, 1, 30) }),
            description: String::from("Unexpected character"),
        },
    };
    assert_eq!(error.to_string(), "[line: 2, col: 5] Scanning Error (Unexpected character): @");
}

#[test]
fn display_form_of_each_kind() {
    for (kind, name) in [
        (ErrorKind::Scanning, "Scanning"),
        (ErrorKind::Parsing, "Parsing"),
        (ErrorKind::Runtime, "Runtime"),
    ] {
        assert_eq!(
            Error::plain(kind, String::from("m")).to_string(),
            format!("{} Error (m)", name)
        );
        assert_eq!(
            Error::located(kind, span_from(1, 1), String::from("m")).to_string(),
            format!("[line: 1, col: 1] {} Error (m)", name)
        );
    }
}

#[test]
fn parsing_error_in_display_form() {
    let error = Error::located(
        ErrorKind::Parsing,
        span_from(120, 1),
        String::from("Expected ';' after expression, instead found ')'"),
    );
    assert_eq!(
        error.to_string(),
        "[line: 120, col: 1] Parsing Error (Expected ';' after expression, instead found ')')"
    );
    assert_eq!(error.description.subject, None);
    assert_eq!(error.description.location, Some(span_from(120, 1)));
}

#[test]
fn runtime_error_in_display_form() {
    let error = Error::plain(ErrorKind::Runtime, String::from("Illegal operand"));
    assert_eq!(error.to_string(), "Runtime Error (Illegal operand)");
    assert_eq!(error.description.location, None);
    let with_subject = Error {
        kind: ErrorKind::Runtime,
        description: ErrorDescription {
            subject: Some(String::from("x")),
            location: None,
            description: String::from("m"),
        },
    };
    assert_eq!(with_subject.to_string(), "Runtime Error (m): x");
}

#[test]
fn error_log_keeps_the_order() {
    let mut log = ErrorLog::new();
    assert_eq!(log.len(), 0);
    assert_eq!(log.lines(), Vec::<String>::new());
    log.push(Error::plain(ErrorKind::Parsing, String::from("first")));
    log.push(Error::plain(ErrorKind::Runtime, String::from("second")));
    log.push(Error::located(ErrorKind::Scanning, span_from(2, 3), String::from("third")));
    assert_eq!(log.len(), 3);
    assert_eq!(log.errors[0].description.description, "first");
    assert_eq!(log.errors[2].description.description, "third");
    assert_eq!(
        log.lines(),
        vec![
            "Parsing Error (first)",
            "Runtime Error (second)",
            "[line: 2, col: 3] Scanning Error (third)"
        ]
    );
}

#[test]
fn plain_error_log() {
    let mut log = error_logger::ErrorLog::new();
    assert_eq!(log.len(), 0);
    assert_eq!(log.log(4, 12, "@", "Unexpected character").len(), 1);
    assert_eq!(log.log(5, 1, "\"abc", "Unterminated String").errors.len(), 2);
    assert_eq!(log.len(), 2);
    assert_eq!(log.errors[0].to_string(), "[line: 4, col: 12] Error (@): Unexpected character");
    assert_eq!(log.errors[1].to_string(), "[line: 5, col: 1] Error (\"abc): Unterminated String");
    let description = error_logger::ErrorDescription {
        target: String::from("t"),
        line: 0,
        column: 10,
        description: String::from("d"),
    };
    assert_eq!(description.to_string(), "[line: 0, col: 10] Error (t): d");
}

#[test]
fn numbers_in_decimal() {
    assert_eq!(decimal_string(0), "0");
    assert_eq!(decimal_string(7), "7");
    assert_eq!(decimal_string(10), "10");
    assert_eq!(decimal_string(109), "109");
    assert_eq!(decimal_string(1234567890), "1234567890");
    assert_eq!(decimal_string(usize::MAX), usize::MAX.to_string());
}

#[test]
fn text_helpers() {
    assert!(is_char("a", 'a'));
    assert!(!is_char("a", 'b'));
    assert!(!is_char("", 'a'));
    assert!(!is_char("aa", 'a'));
    assert!(!is_char("a\u{301}", 'a'));
    assert!(same_text("ab", "ab"));
    assert!(!same_text("ab", "abc"));
    assert!(same_text("", ""));
    let pieces = vec![String::from("a"), String::from("bc"), String::new(), String::from("d")];
    assert_eq!(join(&pieces, 0, 4), "abcd");
    assert_eq!(join(&pieces, 1, 3), "bc");
    assert_eq!(join(&pieces, 2, 2), "");
    assert_eq!(join(&pieces, 4, 4), "");
}

#[test]
fn tokens_of_one_variant() {
    assert!(enum_variant_equal(&Token::Plus, &Token::Plus));
    assert!(!enum_variant_equal(&Token::Plus, &Token::Minus));
    assert!(enum_variant_equal(
        &Token::Identifier(String::from("a")),
        &Token::Identifier(String::from("example"))
    ));
    assert!(!enum_variant_equal(
        &Token::Identifier(String::from("a")),
        &Token::String(String::from("a"))
    ));
    assert!(enum_variant_equal(
        &Token::Whitespace(WhitespaceKind::Space),
        &Token::Whitespace(WhitespaceKind::Newline)
    ));
    assert!(!enum_variant_equal(&Token::Eof, &Token::Nil));
    assert!(Token::Number(String::from("1")).same_variant(&Token::Number(String::from("2"))));
    assert!(!Token::Comment(String::from("1")).same_variant(&Token::Number(String::from("1"))));
}

#[test]
fn variants_have_different_ordinals() {
    let tokens = vec![
        Token::LeftParen,
        Token::RightParen,
        Token::LeftBrace,
        Token::RightBrace,
        Token::Comma,
        Token::Dot,
        Token::Minus,
        Token::Plus,
        Token::Semicolon,
        Token::Slash,
        Token::Star,
        Token::QuestionMark,
        Token::Colon,
        Token::Bang,
        Token::BangEqual,
        Token::Equal,
        Token::EqualEqual,
        Token::Greater,
        Token::GreaterEqual,
        Token::Less,
        Token::LessEqual,
        Token::Identifier(String::new()),
        Token::String(String::new()),
        Token::Number(String::new()),
        Token::And,
        Token::Class,
        Token::Else,
        Token::False,
        Token::Fun,
        Token::For,
        Token::If,
        Token::Nil,
        Token::Or,
        Token::Print,
        Token::Return,
        Token::Super,
        Token::This,
        Token::True,
        Token::Var,
        Token::While,
        Token::Comment(String::new()),
        Token::Whitespace(WhitespaceKind::Tab),
        Token::Eof,
    ];
    for (i, a) in tokens.iter().enumerate() {
        assert_eq!(a.ordinal() as usize, i);
        assert_eq!(a.clone(), *a);
        for (j, b) in tokens.iter().enumerate() {
            assert_eq!(a.same_variant(b), i == j);
        }
    }
}

#[test]
fn tokens_in_display_form() {
    assert_eq!(Token::LeftParen.to_string(), "(");
    assert_eq!(Token::RightBrace.to_string(), "}");
    assert_eq!(Token::BangEqual.to_string(), "!=");
    assert_eq!(Token::LessEqual.to_string(), "<=");
    assert_eq!(Token::QuestionMark.to_string(), "?");
    assert_eq!(Token::Identifier(String::from("x")).to_string(), "identifier \"x\"");
    assert_eq!(Token::String(String::from("a b")).to_string(), "string \"a b\"");
    assert_eq!(Token::Number(String::from("1.5")).to_string(), "number \"1.5\"");
    assert_eq!(Token::Comment(String::from("// c")).to_string(), "comment \"// c\"");
    assert_eq!(Token::While.to_string(), "while");
    assert_eq!(Token::Nil.to_string(), "nil");
    assert_eq!(Token::Whitespace(WhitespaceKind::Space).to_string(), "whitespace Space");
    assert_eq!(Token::Whitespace(WhitespaceKind::Tab).to_string(), "whitespace Tab");
    assert_eq!(Token::Whitespace(WhitespaceKind::Return).to_string(), "whitespace Return");
    assert_eq!(Token::Whitespace(WhitespaceKind::Newline).to_string(), "whitespace Newline");
    assert_eq!(Token::Eof.to_string(), "Eof");
}
