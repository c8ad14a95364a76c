//! What scanning means: the lexeme that starts at each place of a source,
//! and the tokens and errors of a whole source.
//!
//! A source is a sequence of grapheme clusters, each a sequence of
//! characters. Places in it are indices of grapheme clusters.
use vstd::prelude::*;
use crate::errors::{ErrorDescriptionView, ErrorKind, ErrorView};
use crate::source_file::{SourceSpan, lemma_location_bounds, span_at};
use crate::text::{is_one, joined, lemma_joined_singles, lemma_joined_split};
use crate::token::{SourceTokenView, TokenView, WhitespaceKind, keyword};

verus! {

/// Whether `g` is one ASCII digit.
pub open spec fn digit_symbol(g: Seq<char>) -> bool {
    g.len() == 1 && '0' <= g[0] <= '9'
}

/// Whether `g` is one ASCII letter or an underscore.
pub open spec fn alpha_symbol(g: Seq<char>) -> bool {
    g.len() == 1 && (('a' <= g[0] <= 'z') || ('A' <= g[0] <= 'Z') || g[0] == '_')
}

/// Whether `g` is one ASCII letter, an underscore or one ASCII digit.
pub open spec fn alpha_numeric_symbol(g: Seq<char>) -> bool {
    alpha_symbol(g) || digit_symbol(g)
}

/// The classes of symbols that a lexeme runs over.
pub enum SymbolClass {
    Digit,
    AlphaNumeric,
    /// Anything but a double quote: the inside of a string literal.
    InString,
    /// Anything but a newline: the rest of a comment.
    InComment,
}

impl SymbolClass {
    /// Whether the symbol `g` is of the class.
    pub open spec fn holds(self, g: Seq<char>) -> bool {
        match self {
            SymbolClass::Digit => digit_symbol(g),
            SymbolClass::AlphaNumeric => alpha_numeric_symbol(g),
            SymbolClass::InString => !is_one(g, '"'),
            SymbolClass::InComment => !is_one(g, '\n'),
        }
    }
}

/// Where the longest run of symbols of `class` that starts at `from` ends:
/// the first place at or after `from` whose symbol is not of the class, or
/// the end of the source.
pub open spec fn run_end(source: Seq<Seq<char>>, from: int, class: SymbolClass) -> int
    decreases source.len() - from,
{
    if 0 <= from < source.len() && class.holds(source[from]) {
        run_end(source, from + 1, class)
    } else {
        from
    }
}

/// A run ends at or after its start, within the source, on a symbol that is
/// not of the class, and holds only symbols of the class.
pub proof fn lemma_run_end(source: Seq<Seq<char>>, from: int, class: SymbolClass)
    requires
        0 <= from <= source.len(),
    ensures
        from <= run_end(source, from, class) <= source.len(),
        run_end(source, from, class) < source.len() ==> !class.holds(
            source[run_end(source, from, class)],
        ),
        forall|i: int| from <= i < run_end(source, from, class) ==> class.holds(#[trigger] source[i]),
    decreases source.len() - from,
{
    if from < source.len() && class.holds(source[from]) {
        lemma_run_end(source, from + 1, class);
    }
}

/// The token of a symbol that is a token by itself.
pub open spec fn single(g: Seq<char>) -> Option<TokenView> {
    if is_one(g, '(') {
        Some(TokenView::LeftParen)
    } else if is_one(g, ')') {
        Some(TokenView::RightParen)
    } else if is_one(g, '{') {
        Some(TokenView::LeftBrace)
    } else if is_one(g, '}') {
        Some(TokenView::RightBrace)
    } else if is_one(g, ',') {
        Some(TokenView::Comma)
    } else if is_one(g, '.') {
        Some(TokenView::Dot)
    } else if is_one(g, '-') {
        Some(TokenView::Minus)
    } else if is_one(g, '+') {
        Some(TokenView::Plus)
    } else if is_one(g, ';') {
        Some(TokenView::Semicolon)
    } else if is_one(g, '*') {
        Some(TokenView::Star)
    } else if is_one(g, '?') {
        Some(TokenView::QuestionMark)
    } else if is_one(g, ':') {
        Some(TokenView::Colon)
    } else if is_one(g, ' ') {
        Some(TokenView::Whitespace(WhitespaceKind::Space))
    } else if is_one(g, '\r') {
        Some(TokenView::Whitespace(WhitespaceKind::Return))
    } else if is_one(g, '\t') {
        Some(TokenView::Whitespace(WhitespaceKind::Tab))
    } else if is_one(g, '\n') {
        Some(TokenView::Whitespace(WhitespaceKind::Newline))
    } else {
        None
    }
}

/// The two tokens of a symbol that may be followed by `=`: alone, and with
/// the `=`.
pub open spec fn paired(g: Seq<char>) -> Option<(TokenView, TokenView)> {
    if is_one(g, '!') {
        Some((TokenView::Bang, TokenView::BangEqual))
    } else if is_one(g, '=') {
        Some((TokenView::Equal, TokenView::EqualEqual))
    } else if is_one(g, '<') {
        Some((TokenView::Less, TokenView::LessEqual))
    } else if is_one(g, '>') {
        Some((TokenView::Greater, TokenView::GreaterEqual))
    } else {
        None
    }
}

/// Whether the symbol at `at` is the one character `c`.
pub open spec fn symbol_is(source: Seq<Seq<char>>, at: int, c: char) -> bool {
    0 <= at < source.len() && is_one(source[at], c)
}

/// Where the numeral that starts at `at` ends: after its digits and, if a
/// point and a digit follow them, after the point and the digits behind it.
/// A point that no digit follows is not part of the numeral.
pub open spec fn numeral_end(source: Seq<Seq<char>>, at: int) -> int {
    let whole = run_end(source, at + 1, SymbolClass::Digit);
    if symbol_is(source, whole, '.') && whole + 1 < source.len() && digit_symbol(
        source[whole + 1],
    ) {
        run_end(source, whole + 2, SymbolClass::Digit)
    } else {
        whole
    }
}

/// A scanning error about `subject`, found in `location`.
pub open spec fn scanning_error(subject: Seq<char>, location: SourceSpan, message: Seq<char>)
    -> ErrorView {
    ErrorView {
        kind: ErrorKind::Scanning,
        description: ErrorDescriptionView {
            subject: Some(subject),
            location: Some(location),
            description: message,
        },
    }
}

/// One step of scanning: the place where the lexeme ends, and the token or
/// the error that it gives.
pub struct Lexeme {
    pub end: int,
    pub outcome: Result<TokenView, ErrorView>,
}

/// The lexeme that starts at `at`, a place inside the source.
///
/// - A symbol that is a token by itself gives that token.
/// - `!`, `=`, `<` and `>` take a following `=` with them.
/// - `//` starts a comment, which runs up to the next newline or the end.
/// - `"` starts a string, which runs to the next `"`; its text is what
///   stands between the two. Without a closing quote the rest of the source
///   is an error.
/// - A digit starts a numeral.
/// - A letter or an underscore starts a word, which runs over letters,
///   digits and underscores and is a keyword or an identifier.
/// - Any other symbol is an error by itself.
pub open spec fn lexeme_at(source: Seq<Seq<char>>, at: int) -> Lexeme {
    let g = source[at];
    if single(g) is Some {
        Lexeme { end: at + 1, outcome: Ok(single(g)->0) }
    } else if paired(g) is Some {
        let pair = paired(g)->0;
        if symbol_is(source, at + 1, '=') {
            Lexeme { end: at + 2, outcome: Ok(pair.1) }
        } else {
            Lexeme { end: at + 1, outcome: Ok(pair.0) }
        }
    } else if is_one(g, '/') {
        if symbol_is(source, at + 1, '/') {
            let end = run_end(source, at + 2, SymbolClass::InComment);
            Lexeme { end, outcome: Ok(TokenView::Comment("//"@ + joined(source, at + 2, end))) }
        } else {
            Lexeme { end: at + 1, outcome: Ok(TokenView::Slash) }
        }
    } else if is_one(g, '"') {
        let closing = run_end(source, at + 1, SymbolClass::InString);
        if closing < source.len() {
            Lexeme {
                end: closing + 1,
                outcome: Ok(TokenView::String(joined(source, at + 1, closing))),
            }
        } else {
            Lexeme {
                end: source.len() as int,
                outcome: Err(
                    scanning_error(
                        joined(source, at, source.len() as int),
                        span_at(source, at, source.len() as int),
                        "Unterminated String"@,
                    ),
                ),
            }
        }
    } else if digit_symbol(g) {
        let end = numeral_end(source, at);
        Lexeme { end, outcome: Ok(TokenView::Number(joined(source, at, end))) }
    } else if alpha_symbol(g) {
        let end = run_end(source, at + 1, SymbolClass::AlphaNumeric);
        let word = joined(source, at, end);
        Lexeme {
            end,
            outcome: Ok(
                match keyword(word) {
                    Some(token) => token,
                    None => TokenView::Identifier(word),
                },
            ),
        }
    } else {
        Lexeme {
            end: at + 1,
            outcome: Err(scanning_error(g, span_at(source, at, at + 1), "Unexpected character"@)),
        }
    }
}

/// Every lexeme holds at least one symbol and ends within the source.
pub proof fn lemma_lexeme_advances(source: Seq<Seq<char>>, at: int)
    requires
        0 <= at < source.len(),
    ensures
        at < lexeme_at(source, at).end <= source.len(),
{
    lemma_run_end(source, at + 1, SymbolClass::Digit);
    lemma_run_end(source, at + 1, SymbolClass::AlphaNumeric);
    lemma_run_end(source, at + 1, SymbolClass::InString);
    if at + 2 <= source.len() {
        lemma_run_end(source, at + 2, SymbolClass::InComment);
    }
    let whole = run_end(source, at + 1, SymbolClass::Digit);
    if whole + 2 <= source.len() {
        lemma_run_end(source, whole + 2, SymbolClass::Digit);
    }
}

/// The tokens and the errors of a scan, each in the order of the source.
pub struct Scan {
    pub tokens: Seq<SourceTokenView>,
    pub errors: Seq<ErrorView>,
}

/// The end-of-input token: it stands at the end of the source and is empty.
pub open spec fn eof_token(source: Seq<Seq<char>>) -> SourceTokenView {
    SourceTokenView {
        token: TokenView::Eof,
        location_span: span_at(source, source.len() as int, source.len() as int),
    }
}

/// The scan of the source from `at` on: lexeme after lexeme, each token with
/// the span of its lexeme, and the end-of-input token last.
pub open spec fn scan_from(source: Seq<Seq<char>>, at: int) -> Scan
    decreases source.len() - at,
    via scan_from_decreases
{
    if 0 <= at < source.len() {
        let lexeme = lexeme_at(source, at);
        let rest = scan_from(source, lexeme.end);
        match lexeme.outcome {
            Ok(token) => Scan {
                tokens: seq![
                    SourceTokenView { token, location_span: span_at(source, at, lexeme.end) },
                ] + rest.tokens,
                errors: rest.errors,
            },
            Err(error) => Scan { tokens: rest.tokens, errors: seq![error] + rest.errors },
        }
    } else {
        Scan { tokens: seq![eof_token(source)], errors: Seq::empty() }
    }
}

#[via_fn]
proof fn scan_from_decreases(source: Seq<Seq<char>>, at: int) {
    if 0 <= at < source.len() {
        lemma_lexeme_advances(source, at);
    }
}

/// The scan of a whole source.
pub open spec fn scan(source: Seq<Seq<char>>) -> Scan {
    scan_from(source, 0)
}

/// Whether the characters `from..to` of `text` are ASCII digits.
pub open spec fn all_digits(text: Seq<char>, from: int, to: int) -> bool {
    forall|i: int| from <= i < to ==> '0' <= #[trigger] text[i] <= '9'
}

/// Whether `text` is a numeral: one digit or more, and then, at most once, a
/// point with one digit or more behind it. The first `whole` characters are
/// the digits before the point.
pub open spec fn is_numeral_with(text: Seq<char>, whole: int) -> bool {
    &&& 0 < whole <= text.len()
    &&& all_digits(text, 0, whole)
    &&& whole < text.len() ==> text[whole] == '.' && whole + 1 < text.len() && all_digits(
        text,
        whole + 1,
        text.len() as int,
    )
}

/// Whether `text` is a numeral.
pub open spec fn is_numeral(text: Seq<char>) -> bool {
    exists|whole: int| is_numeral_with(text, whole)
}

/// The lexeme that a digit starts is a number whose text is a numeral, so
/// every number token can be read as a decimal number.
pub proof fn lemma_number_is_numeral(source: Seq<Seq<char>>, at: int)
    requires
        0 <= at < source.len(),
        digit_symbol(source[at]),
    ensures
        lexeme_at(source, at).outcome is Ok,
        lexeme_at(source, at).outcome->Ok_0 is Number,
        is_numeral(lexeme_at(source, at).outcome->Ok_0->Number_0),
{
    let whole = run_end(source, at + 1, SymbolClass::Digit);
    let end = numeral_end(source, at);
    let text = joined(source, at, end);
    lemma_run_end(source, at + 1, SymbolClass::Digit);
    if end != whole {
        lemma_run_end(source, whole + 2, SymbolClass::Digit);
    }
    assert forall|i: int| at <= i < end implies (#[trigger] source[i]).len() == 1 by {
        if i == whole {
        } else if i < whole {
            assert(i == at || SymbolClass::Digit.holds(source[i]));
        } else {
            assert(i == whole + 1 || SymbolClass::Digit.holds(source[i]));
        }
    }
    lemma_joined_singles(source, at, end);
    assert forall|i: int| 0 <= i < whole - at implies '0' <= #[trigger] text[i] <= '9' by {
        assert(text[i] == source[at + i][0]);
        assert(i == 0 || SymbolClass::Digit.holds(source[at + i]));
    }
    if end != whole {
        assert forall|i: int| whole - at + 1 <= i < text.len() implies '0' <= #[trigger] text[i]
            <= '9' by {
            assert(text[i] == source[at + i][0]);
            assert(at + i == whole + 1 || SymbolClass::Digit.holds(source[at + i]));
        }
        assert(text[whole - at] == source[whole][0]);
    }
    assert(is_numeral_with(text, whole - at));
}

/// Every number token of a scan carries a numeral.
pub proof fn lemma_scanned_numbers_are_numerals(source: Seq<Seq<char>>, at: int, i: int)
    requires
        0 <= at,
        0 <= i < scan_from(source, at).tokens.len(),
        scan_from(source, at).tokens[i].token is Number,
    ensures
        is_numeral(scan_from(source, at).tokens[i].token->Number_0),
    decreases source.len() - at,
{
    if at < source.len() {
        lemma_lexeme_advances(source, at);
        let lexeme = lexeme_at(source, at);
        let rest = scan_from(source, lexeme.end);
        match lexeme.outcome {
            Ok(token) => {
                if i == 0 {
                    assert(token is Number);
                    assert(digit_symbol(source[at])) by {
                        lemma_only_digits_start_numbers(source, at);
                    }
                    lemma_number_is_numeral(source, at);
                } else {
                    assert(scan_from(source, at).tokens[i] == rest.tokens[i - 1]);
                    lemma_scanned_numbers_are_numerals(source, lexeme.end, i - 1);
                }
            },
            Err(_) => {
                lemma_scanned_numbers_are_numerals(source, lexeme.end, i);
            },
        }
    }
}

/// Only a digit starts a number.
pub proof fn lemma_only_digits_start_numbers(source: Seq<Seq<char>>, at: int)
    requires
        0 <= at < source.len(),
        lexeme_at(source, at).outcome is Ok,
        lexeme_at(source, at).outcome->Ok_0 is Number,
    ensures
        digit_symbol(source[at]),
{
    let g = source[at];
    if alpha_symbol(g) && !digit_symbol(g) {
        let end = run_end(source, at + 1, SymbolClass::AlphaNumeric);
        let word = joined(source, at, end);
        assert(!(keyword(word) is Some && keyword(word)->0 is Number));
    }
}

/// Every error of a scan is a scanning error, and says what text it is
/// about and where that text stands.
pub proof fn lemma_scan_errors_are_scanning(source: Seq<Seq<char>>, at: int, i: int)
    requires
        0 <= i < scan_from(source, at).errors.len(),
    ensures
        scan_from(source, at).errors[i].kind == ErrorKind::Scanning,
        scan_from(source, at).errors[i].description.subject is Some,
        scan_from(source, at).errors[i].description.location is Some,
    decreases source.len() - at,
{
    if 0 <= at < source.len() {
        lemma_lexeme_advances(source, at);
        let lexeme = lexeme_at(source, at);
        if lexeme.outcome is Err && i == 0 {
        } else if lexeme.outcome is Err {
            lemma_scan_errors_are_scanning(source, lexeme.end, i - 1);
        } else {
            lemma_scan_errors_are_scanning(source, lexeme.end, i);
        }
    }
}

/// Every scan ends with the end-of-input token, so no scan is empty.
pub proof fn lemma_scan_ends_with_eof(source: Seq<Seq<char>>)
    ensures
        scan(source).tokens.len() > 0,
        scan(source).tokens.last().token is Eof,
{
    lemma_scan_from_ends_with_eof(source, 0);
}

/// The scan from any place on ends with the end-of-input token.
pub proof fn lemma_scan_from_ends_with_eof(source: Seq<Seq<char>>, at: int)
    ensures
        scan_from(source, at).tokens.len() > 0,
        scan_from(source, at).tokens.last() == eof_token(source),
    decreases source.len() - at,
{
    if 0 <= at < source.len() {
        lemma_lexeme_advances(source, at);
        lemma_scan_from_ends_with_eof(source, lexeme_at(source, at).end);
    }
}

/// The text of the source that the spans of `tokens` cover, token by token.
pub open spec fn spanned_text(source: Seq<Seq<char>>, tokens: Seq<SourceTokenView>) -> Seq<char>
    decreases tokens.len(),
{
    if tokens.len() == 0 {
        Seq::empty()
    } else {
        joined(
            source,
            tokens[0].location_span.start.index as int,
            tokens[0].location_span.end.index as int,
        ) + spanned_text(source, tokens.drop_first())
    }
}

/// Scanning loses no text: where a scan finds no error, the spans of its
/// tokens cover the source from its first symbol to its last, in order and
/// without a gap, so that the text under them, joined, is the source.
pub proof fn lemma_scan_covers_source(source: Seq<Seq<char>>)
    requires
        source.len() < usize::MAX,
        scan(source).errors.len() == 0,
    ensures
        spanned_text(source, scan(source).tokens) == joined(source, 0, source.len() as int),
{
    lemma_scan_from_covers_source(source, 0);
}

/// The spans of an error-free scan from `at` on cover the source from `at`
/// to its end.
pub proof fn lemma_scan_from_covers_source(source: Seq<Seq<char>>, at: int)
    requires
        source.len() < usize::MAX,
        0 <= at <= source.len(),
        scan_from(source, at).errors.len() == 0,
    ensures
        spanned_text(source, scan_from(source, at).tokens) == joined(
            source,
            at,
            source.len() as int,
        ),
    decreases source.len() - at,
{
    let end = source.len() as int;
    if at < end {
        lemma_lexeme_advances(source, at);
        let lexeme = lexeme_at(source, at);
        let rest = scan_from(source, lexeme.end);
        lemma_location_bounds(source, at);
        lemma_location_bounds(source, lexeme.end);
        let token = scan_from(source, at).tokens[0];
        assert(scan_from(source, at).tokens.drop_first() =~= rest.tokens);
        assert(rest.errors.len() == 0);
        lemma_scan_from_covers_source(source, lexeme.end);
        lemma_joined_split(source, at, lexeme.end, end);
    } else {
        lemma_location_bounds(source, end);
        let tokens = scan_from(source, at).tokens;
        assert(tokens.drop_first() =~= Seq::<SourceTokenView>::empty());
        assert(spanned_text(source, tokens.drop_first()) =~= Seq::<char>::empty());
        assert(joined(source, end, end) =~= Seq::<char>::empty());
    }
}

} // verus!
