use rlox::errors::{ErrorKind, ErrorLoggable};
use rlox::scanner::{
    grapheme_to_char, is_alpha, is_alpha_numeric, is_digit, match_keyword, Scanner, SourceToken,
    Token, WhitespaceKind,
};
use rlox::source_file::{SourceLocation, SourceSpan};
use unicode_segmentation::UnicodeSegmentation;

fn scan(source: &str) -> Scanner {
    Scanner::from_source(String::from(source))
}

fn kinds(source: &str) -> Vec<Token> {
    scan(source).tokens().into_iter().map(|t| t.token).collect()
}

fn location(line: usize, column: usize, index: usize) -> SourceLocation {
    SourceLocation { line, column, index }
}

fn number(text: &str) -> Token {
    Token::Number(String::from(text))
}

fn identifier(text: &str) -> Token {
    Token::Identifier(String::from(text))
}

#[test]
fn every_scan_ends_with_eof() {
    for source in ["", " ", "1", "print 1;", "\"open", "@#", "// only a comment", "a\nb\n", "\r\n"]
    {
        let tokens = scan(source).tokens();
        assert!(!tokens.is_empty(), "no tokens for {:?}", source);
        assert_eq!(tokens.last().unwrap().token, Token::Eof, "for {:?}", source);
        let before: Vec<&SourceToken> =
            tokens.iter().take(tokens.len() - 1).filter(|t| t.token == Token::Eof).collect();
        assert!(before.is_empty());
    }
}

#[test]
fn empty_source_is_eof_at_the_start() {
    let scanner = scan("");
    let tokens = scanner.tokens();
    assert_eq!(tokens.len(), 1);
    assert_eq!(
        tokens[0],
        SourceToken {
            token: Token::Eof,
            location_span: SourceSpan { start: location(1, 1, 0), end: location(1, 1, 0) },
        }
    );
    assert_eq!(scanner.error_log().len(), 0);
}

#[test]
fn new_scanner_holds_nothing() {
    let scanner = Scanner::new();
    assert!(scanner.tokens().is_empty());
    assert_eq!(scanner.error_log().len(), 0);
}

#[test]
fn number_with_fraction_is_one_token() {
    assert_eq!(kinds("123.45"), vec![number("123.45"), Token::Eof]);
    match &kinds("123.45")[0] {
        Token::Number(numeral) => assert_eq!(numeral.parse::<f64>(), Ok(123.45)),
        other => panic!("no number: {:?}", other),
    }
}

#[test]
fn every_number_token_reads_as_a_float() {
    for source in ["0", "10.", "1.5.25", "007.100", "12345678901234567890.5", "3.x", "1..2"] {
        for token in kinds(source) {
            if let Token::Number(numeral) = token {
                assert!(numeral.parse::<f64>().is_ok(), "{:?}", numeral);
                assert!(numeral.chars().all(|c| c.is_ascii_digit() || c == '.'));
                assert!(numeral.chars().filter(|c| *c == '.').count() <= 1);
                assert!(numeral.starts_with(|c: char| c.is_ascii_digit()));
                assert!(numeral.ends_with(|c: char| c.is_ascii_digit()));
            }
        }
    }
}

#[test]
fn trailing_point_is_not_part_of_a_number() {
    assert_eq!(kinds("10."), vec![number("10"), Token::Dot, Token::Eof]);
}

#[test]
fn number_takes_one_point_only() {
    assert_eq!(kinds("1.2.3"), vec![number("1.2"), Token::Dot, number("3"), Token::Eof]);
    assert_eq!(kinds("1..2"), vec![number("1"), Token::Dot, Token::Dot, number("2"), Token::Eof]);
    assert_eq!(kinds(".5"), vec![Token::Dot, number("5"), Token::Eof]);
    assert_eq!(kinds("007"), vec![number("007"), Token::Eof]);
}

#[test]
fn number_stops_at_a_letter() {
    assert_eq!(kinds("12ab"), vec![number("12"), identifier("ab"), Token::Eof]);
}

#[test]
fn print_is_a_keyword() {
    assert_eq!(kinds("print"), vec![Token::Print, Token::Eof]);
    assert_ne!(kinds("print")[0], identifier("print"));
}

#[test]
fn every_keyword_is_recognized() {
    let expected = vec![
        ("and", Token::And),
        ("class", Token::Class),
        ("else", Token::Else),
        ("false", Token::False),
        ("for", Token::For),
        ("fun", Token::Fun),
        ("if", Token::If),
        ("nil", Token::Nil),
        ("or", Token::Or),
        ("print", Token::Print),
        ("return", Token::Return),
        ("super", Token::Super),
        ("this", Token::This),
        ("true", Token::True),
        ("var", Token::Var),
        ("while", Token::While),
    ];
    for (text, token) in expected {
        assert_eq!(match_keyword(text), Some(token.clone()));
        assert_eq!(kinds(text), vec![token, Token::Eof]);
    }
    assert_eq!(match_keyword("printer"), None);
    assert_eq!(match_keyword("Print"), None);
    assert_eq!(match_keyword(""), None);
}

#[test]
fn keyword_inside_a_word_is_an_identifier() {
    assert_eq!(kinds("printer"), vec![identifier("printer"), Token::Eof]);
    assert_eq!(kinds("_var1"), vec![identifier("_var1"), Token::Eof]);
    assert_eq!(kinds("Print"), vec![identifier("Print"), Token::Eof]);
}

#[test]
fn string_literal_loses_its_quotes() {
    assert_eq!(kinds("\"abc\""), vec![Token::String(String::from("abc")), Token::Eof]);
    assert_eq!(kinds("\"\""), vec![Token::String(String::new()), Token::Eof]);
}

#[test]
fn string_literal_may_span_lines() {
    let scanner = scan("\"a\nb\" x");
    let tokens = scanner.tokens();
    assert_eq!(tokens[0].token, Token::String(String::from("a\nb")));
    assert_eq!(tokens[0].location_span.start, location(1, 1, 0));
    assert_eq!(tokens[0].location_span.end, location(2, 3, 5));
    assert_eq!(tokens[2].token, identifier("x"));
    assert_eq!(tokens[2].location_span.start, location(2, 4, 6));
}

#[test]
fn unterminated_string_is_an_error_and_no_token() {
    let scanner = scan("\"abc");
    assert_eq!(scanner.tokens().iter().map(|t| t.token.clone()).collect::<Vec<_>>(), vec![
        Token::Eof
    ]);
    let log = scanner.error_log();
    assert_eq!(log.len(), 1);
    let error = &log.errors[0];
    assert_eq!(error.kind, ErrorKind::Scanning);
    assert!(error.description.description.contains("Unterminated String"));
    assert_eq!(error.description.subject, Some(String::from("\"abc")));
    assert_eq!(
        error.description.location,
        Some(SourceSpan { start: location(1, 1, 0), end: location(1, 5, 4) })
    );
    assert_eq!(scanner.tokens()[0].location_span.start, location(1, 5, 4));
}

#[test]
fn tokens_before_an_unterminated_string_are_kept() {
    let scanner = scan("1 + \"abc");
    assert_eq!(
        scanner.tokens().into_iter().map(|t| t.token).collect::<Vec<_>>(),
        vec![
            number("1"),
            Token::Whitespace(WhitespaceKind::Space),
            Token::Plus,
            Token::Whitespace(WhitespaceKind::Space),
            Token::Eof
        ]
    );
    assert_eq!(scanner.error_log().len(), 1);
}

#[test]
fn unexpected_character_is_an_error_and_scanning_goes_on() {
    let scanner = scan("1 @ 2 #");
    assert_eq!(
        scanner.tokens().into_iter().map(|t| t.token).collect::<Vec<_>>(),
        vec![
            number("1"),
            Token::Whitespace(WhitespaceKind::Space),
            Token::Whitespace(WhitespaceKind::Space),
            number("2"),
            Token::Whitespace(WhitespaceKind::Space),
            Token::Eof
        ]
    );
    let log = scanner.error_log();
    assert_eq!(log.len(), 2);
    assert_eq!(log.errors[0].kind, ErrorKind::Scanning);
    assert_eq!(log.errors[0].description.description, "Unexpected character");
    assert_eq!(log.errors[0].description.subject, Some(String::from("@")));
    assert_eq!(
        log.errors[0].description.location,
        Some(SourceSpan { start: location(1, 3, 2), end: location(1, 4, 3) })
    );
    assert_eq!(log.errors[1].description.subject, Some(String::from("#")));
}

#[test]
fn single_character_tokens() {
    assert_eq!(
        kinds("(){},.-+;*?:/"),
        vec![
            Token::LeftParen,
            Token::RightParen,
            Token::LeftBrace,
            Token::RightBrace,
            Token::Comma,
            Token::Dot,
            Token::Minus,
            Token::Plus,
            Token::Semicolon,
            Token::Star,
            Token::QuestionMark,
            Token::Colon,
            Token::Slash,
            Token::Eof
        ]
    );
}

#[test]
fn operators_take_a_following_equal_sign() {
    assert_eq!(
        kinds("!!====<<=>>="),
        vec![
            Token::Bang,
            Token::BangEqual,
            Token::EqualEqual,
            Token::Equal,
            Token::Less,
            Token::LessEqual,
            Token::Greater,
            Token::GreaterEqual,
            Token::Eof
        ]
    );
    assert_eq!(kinds("="), vec![Token::Equal, Token::Eof]);
    assert_eq!(kinds("! ="), vec![
        Token::Bang,
        Token::Whitespace(WhitespaceKind::Space),
        Token::Equal,
        Token::Eof
    ]);
}

#[test]
fn whitespace_is_kept_as_tokens() {
    assert_eq!(
        kinds(" \t\r \n"),
        vec![
            Token::Whitespace(WhitespaceKind::Space),
            Token::Whitespace(WhitespaceKind::Tab),
            Token::Whitespace(WhitespaceKind::Return),
            Token::Whitespace(WhitespaceKind::Space),
            Token::Whitespace(WhitespaceKind::Newline),
            Token::Eof
        ]
    );
}

#[test]
fn carriage_return_with_newline_is_one_unexpected_symbol() {
    let scanner = scan("a\r\nb");
    assert_eq!(
        scanner.tokens().into_iter().map(|t| t.token).collect::<Vec<_>>(),
        vec![identifier("a"), identifier("b"), Token::Eof]
    );
    let log = scanner.error_log();
    assert_eq!(log.len(), 1);
    assert_eq!(log.errors[0].description.subject, Some(String::from("\r\n")));
    assert_eq!(scanner.tokens()[1].location_span.start, location(1, 3, 2));
}

#[test]
fn comment_runs_to_the_end_of_the_line() {
    assert_eq!(
        kinds("1 // two\n3"),
        vec![
            number("1"),
            Token::Whitespace(WhitespaceKind::Space),
            Token::Comment(String::from("// two")),
            Token::Whitespace(WhitespaceKind::Newline),
            number("3"),
            Token::Eof
        ]
    );
    assert_eq!(kinds("//"), vec![Token::Comment(String::from("//")), Token::Eof]);
    assert_eq!(kinds("// a \"b"), vec![Token::Comment(String::from("// a \"b")), Token::Eof]);
}

#[test]
fn locations_count_lines_and_columns() {
    let tokens = scan("ab\n cd").tokens();
    assert_eq!(tokens[0].location_span, SourceSpan {
        start: location(1, 1, 0),
        end: location(1, 3, 2)
    });
    assert_eq!(tokens[1].token, Token::Whitespace(WhitespaceKind::Newline));
    assert_eq!(tokens[1].location_span, SourceSpan {
        start: location(1, 3, 2),
        end: location(2, 1, 3)
    });
    assert_eq!(tokens[3].token, identifier("cd"));
    assert_eq!(tokens[3].location_span, SourceSpan {
        start: location(2, 2, 4),
        end: location(2, 4, 6)
    });
    assert_eq!(tokens[4].token, Token::Eof);
    assert_eq!(tokens[4].location_span, SourceSpan {
        start: location(2, 4, 6),
        end: location(2, 4, 6)
    });
}

#[test]
fn locations_count_grapheme_clusters_not_characters() {
    // The string holds "e" with a combining accent: two characters, one
    // grapheme cluster.
    let tokens = scan("\"e\u{301}\" x").tokens();
    assert_eq!(tokens[0].token, Token::String(String::from("e\u{301}")));
    assert_eq!(tokens[0].location_span.end, location(1, 4, 3));
    assert_eq!(tokens[2].token, identifier("x"));
    assert_eq!(tokens[2].location_span.start, location(1, 5, 4));
}

#[test]
fn letter_with_a_combining_mark_is_no_letter() {
    let scanner = scan("e\u{301}");
    assert_eq!(scanner.tokens().len(), 1);
    let log = scanner.error_log();
    assert_eq!(log.len(), 1);
    assert_eq!(log.errors[0].description.subject, Some(String::from("e\u{301}")));
    assert!(!is_alpha("e\u{301}"));
    assert!(!is_digit("1\u{301}"));
}

#[test]
fn scanning_symbols_is_scanning_the_source() {
    let source = "var x = \"a b\"; // done\nprint x >= 10.5;";
    let symbols: Vec<String> = source.graphemes(true).map(String::from).collect();
    let from_symbols = Scanner::from_symbols(symbols);
    let from_source = scan(source);
    assert_eq!(from_symbols.tokens(), from_source.tokens());
    assert_eq!(from_symbols.error_log().len(), 0);
    assert_eq!(from_source.error_log().len(), 0);
}

#[test]
fn scanning_given_symbols() {
    let symbols = vec![String::from("1"), String::from("0"), String::from("."), String::from("x")];
    let tokens = Scanner::from_symbols(symbols).tokens();
    assert_eq!(tokens.iter().map(|t| t.token.clone()).collect::<Vec<_>>(), vec![
        number("10"),
        Token::Dot,
        identifier("x"),
        Token::Eof
    ]);
}

#[test]
fn spans_of_an_error_free_scan_cover_the_source() {
    for source in [
        "",
        "print 1 + 2 * 3;",
        "var answer = (40 + 2) / 1.0; // the answer\n\"text\" != nil ? true : false;\n",
        " \t\n",
        "\"e\u{301}\u{301}\" >= <= == !",
    ] {
        let scanner = scan(source);
        assert_eq!(scanner.error_log().len(), 0);
        let symbols: Vec<&str> = source.graphemes(true).collect();
        let mut rebuilt = String::new();
        let mut at = 0;
        for token in scanner.tokens() {
            assert_eq!(token.location_span.start.index, at);
            rebuilt.push_str(
                &symbols[token.location_span.start.index..token.location_span.end.index].concat(),
            );
            at = token.location_span.end.index;
        }
        assert_eq!(rebuilt, source);
        let again = scan(&rebuilt);
        assert_eq!(again.tokens(), scanner.tokens());
    }
}

#[test]
fn scanning_the_same_text_twice_gives_the_same_tokens() {
    let source = "1 @ \"a\" // c\n x";
    assert_eq!(scan(source).tokens(), scan(source).tokens());
    assert_eq!(scan(source).error_log().errors, scan(source).error_log().errors);
}

#[test]
fn symbol_classes() {
    for c in "0123456789".graphemes(true) {
        assert!(is_digit(c));
        assert!(is_alpha_numeric(c));
        assert!(!is_alpha(c));
    }
    for c in "azAZ_".graphemes(true) {
        assert!(is_alpha(c));
        assert!(is_alpha_numeric(c));
        assert!(!is_digit(c));
    }
    for c in ["", " ", "-", "é", "٣", "ab", "12", "\n"] {
        assert!(!is_digit(c), "{:?}", c);
        assert!(!is_alpha(c), "{:?}", c);
        assert!(!is_alpha_numeric(c), "{:?}", c);
    }
    assert_eq!(grapheme_to_char("e\u{301}"), 'e');
    assert_eq!(grapheme_to_char("x"), 'x');
}
