//! The scanner: turns source text into tokens, one grapheme cluster at a
//! time, and collects lexical errors without stopping.
use vstd::prelude::*;
use vstd::string::*;
use crate::errors::{Error, ErrorDescription, ErrorKind, ErrorLog, ErrorLoggable, ErrorView};
use crate::lexis::{
    Scan,
    SymbolClass,
    alpha_numeric_symbol,
    alpha_symbol,
    digit_symbol,
    eof_token,
    lemma_lexeme_advances,
    lemma_scan_covers_source,
    lemma_scan_ends_with_eof,
    lexeme_at,
    numeral_end,
    run_end,
    scan,
    scan_from,
    spanned_text,
    symbol_is,
};
use crate::source_file::{SourceLocation, SourceSpan, lemma_location_bounds, location_at, span_at};
use crate::text::{is_char, join, joined, texts};
pub use crate::token::{
    SourceToken,
    SourceTokenView,
    Token,
    TokenView,
    WhitespaceKind,
    match_keyword,
    token_views,
};

verus! {

/// The grapheme clusters of `text`, in order: its extended grapheme
/// clusters by the rules of Unicode text segmentation.
pub uninterp spec fn grapheme_clusters(text: Seq<char>) -> Seq<Seq<char>>;

/// Splits `source` into its extended grapheme clusters with
/// `unicode_segmentation`'s `graphemes`.
///
/// The contract names the clusters and states what the iterator's code
/// shows of them: they are consecutive pieces of the text from its start to
/// its end, so that joined they give the text back.
#[verifier::external_body]
fn split_graphemes(source: &str) -> (symbols: Vec<String>)
    ensures
        texts(symbols@) == grapheme_clusters(source@),
        joined(texts(symbols@), 0, symbols@.len() as int) == source@,
{
    unicode_segmentation::UnicodeSegmentation::graphemes(source, true).map(
        |grapheme| String::from(grapheme),
    ).collect()
}

/// What a scanner holds of a source that is too long to scan: the
/// end-of-input token at the first location, and one error.
pub open spec fn unscanned() -> Scan {
    Scan {
        tokens: seq![eof_token(Seq::empty())],
        errors: seq![ErrorView::plain(ErrorKind::Scanning, "Source too long"@)],
    }
}

/// What scanning `source` gives: the scan of its grapheme clusters, if they
/// can be indexed.
pub open spec fn scan_of(source: Seq<char>) -> Scan {
    if grapheme_clusters(source).len() < usize::MAX {
        scan(grapheme_clusters(source))
    } else {
        unscanned()
    }
}

/// The first character of a symbol.
pub fn grapheme_to_char(symbol: &str) -> (c: char)
    requires
        symbol@.len() > 0,
    ensures
        c == symbol@[0],
{
    symbol.get_char(0)
}

/// Whether `symbol` is one ASCII digit.
pub fn is_digit(symbol: &str) -> (b: bool)
    ensures
        b == digit_symbol(symbol@),
{
    if symbol.unicode_len() == 1 {
        let c = grapheme_to_char(symbol);
        '0' <= c && c <= '9'
    } else {
        false
    }
}

/// Whether `symbol` is one ASCII letter or an underscore.
pub fn is_alpha(symbol: &str) -> (b: bool)
    ensures
        b == alpha_symbol(symbol@),
{
    if symbol.unicode_len() == 1 {
        let as_char = grapheme_to_char(symbol);
        ('a' <= as_char && as_char <= 'z') || ('A' <= as_char && as_char <= 'Z') || as_char == '_'
    } else {
        false
    }
}

/// Whether `symbol` is one ASCII letter, an underscore or one ASCII digit.
pub fn is_alpha_numeric(symbol: &str) -> (b: bool)
    ensures
        b == alpha_numeric_symbol(symbol@),
{
    is_alpha(symbol) || is_digit(symbol)
}

fn in_class(class: &SymbolClass, symbol: &str) -> (b: bool)
    ensures
        b == class.holds(symbol@),
{
    match class {
        SymbolClass::Digit => is_digit(symbol),
        SymbolClass::AlphaNumeric => is_alpha_numeric(symbol),
        SymbolClass::InString => !is_char(symbol, '"'),
        SymbolClass::InComment => !is_char(symbol, '\n'),
    }
}

/// A copy of `tokens`, token by token.
fn copy_tokens(tokens: &Vec<SourceToken>) -> (copy: Vec<SourceToken>)
    ensures
        token_views(copy@) == token_views(tokens@),
{
    let mut copy: Vec<SourceToken> = Vec::new();
    let mut i: usize = 0;
    while i < tokens.len()
        invariant
            i <= tokens.len(),
            copy@.len() == i,
            forall|j: int| 0 <= j < i ==> (#[trigger] copy@[j])@ == tokens@[j]@,
        decreases tokens.len() - i,
    {
        copy.push(
            SourceToken {
                token: tokens[i].token.clone(),
                location_span: tokens[i].location_span,
            },
        );
        i = i + 1;
    }
    assert(token_views(copy@) =~= token_views(tokens@));
    copy
}

/// Consumes the source and turns it into a sequence of tokens.
pub struct Scanner {
    /// The grapheme clusters of the source.
    source: Vec<String>,
    tokens: Vec<SourceToken>,
    /// The part of the source that the lexeme in hand covers so far.
    cursor: SourceSpan,
    error_log: ErrorLog,
}

impl Scanner {
    /// The grapheme clusters of the source that the scanner holds.
    pub closed spec fn symbols(&self) -> Seq<Seq<char>> {
        texts(self.source@)
    }

    /// The tokens and errors that the scanner holds.
    pub closed spec fn scanned(&self) -> Scan {
        Scan { tokens: token_views(self.tokens@), errors: self.error_log@ }
    }

    /// The span of the lexeme in hand: empty, and at the place of the next
    /// lexeme, whenever the scanner is not in the middle of one.
    pub closed spec fn cursor(&self) -> SourceSpan {
        self.cursor
    }

    /// The cursor covers a range of the source and its two ends are the
    /// locations of the places where they stand.
    spec fn wf(&self) -> bool {
        &&& self.source@.len() < usize::MAX
        &&& self.cursor.start.index <= self.cursor.end.index <= self.source@.len()
        &&& self.cursor.start == location_at(self.symbols(), self.cursor.start.index as int)
        &&& self.cursor.end == location_at(self.symbols(), self.cursor.end.index as int)
    }

    /// The place where the cursor ends: the next symbol to read.
    spec fn at(&self) -> int {
        self.cursor.end.index as int
    }

    /// The place where the cursor starts: the first symbol of the lexeme in
    /// hand.
    spec fn from(&self) -> int {
        self.cursor.start.index as int
    }

    /// Whether `self` differs from `before` at most in where its cursor ends.
    spec fn moved_from(&self, before: &Scanner) -> bool {
        &&& self.source == before.source
        &&& self.tokens == before.tokens
        &&& self.error_log == before.error_log
        &&& self.cursor.start == before.cursor.start
        &&& self.at() >= before.at()
    }

    // --- Constructors ---
    /// A scanner that has scanned nothing.
    pub fn new() -> (s: Self)
        ensures
            s.symbols() == Seq::<Seq<char>>::empty(),
            s.scanned() == (Scan { tokens: Seq::empty(), errors: Seq::empty() }),
            s.cursor() == span_at(Seq::empty(), 0, 0),
    {
        let s = Scanner {
            source: Vec::new(),
            tokens: Vec::new(),
            cursor: SourceSpan::new(),
            error_log: ErrorLog::new(),
        };
        assert(s.symbols() =~= Seq::<Seq<char>>::empty());
        assert(token_views(s.tokens@) =~= Seq::<SourceTokenView>::empty());
        s
    }

    /// Scans a source that is given as its grapheme clusters: the scanner
    /// then holds their scan.
    pub fn from_symbols(symbols: Vec<String>) -> (s: Self)
        requires
            symbols@.len() < usize::MAX,
        ensures
            s.symbols() == texts(symbols@),
            s.scanned() == scan(texts(symbols@)),
    {
        let mut ret = Scanner::new();
        ret.tokenize(symbols);
        ret
    }

    /// Scans `source`: the scanner then holds the scan of its grapheme
    /// clusters, whose last token is the end-of-input token.
    ///
    /// A source of `usize::MAX` grapheme clusters or more cannot be indexed
    /// and is not scanned: the scanner then holds the end-of-input token
    /// alone and one error that says so.
    pub fn from_source(source: String) -> (s: Self)
        ensures
            s.scanned() == scan_of(source@),
            grapheme_clusters(source@).len() < usize::MAX ==> s.symbols() == grapheme_clusters(
                source@,
            ) && joined(s.symbols(), 0, s.symbols().len() as int) == source@,
            grapheme_clusters(source@).len() < usize::MAX && s.scanned().errors.len() == 0
                ==> spanned_text(s.symbols(), s.scanned().tokens) == source@,
            s.scanned().tokens.len() > 0,
            s.scanned().tokens.last().token is Eof,
    {
        let symbols = split_graphemes(source.as_str());
        if symbols.len() < usize::MAX {
            proof {
                lemma_scan_ends_with_eof(texts(symbols@));
                if scan(texts(symbols@)).errors.len() == 0 {
                    lemma_scan_covers_source(texts(symbols@));
                }
            }
            Scanner::from_symbols(symbols)
        } else {
            let mut ret = Scanner::new();
            ret.tokens.push(SourceToken { token: Token::Eof, location_span: ret.cursor });
            ret.error_log.push(
                Error::plain(ErrorKind::Scanning, String::from_str("Source too long")),
            );
            assert(ret.scanned().tokens =~= unscanned().tokens);
            assert(ret.scanned().errors =~= unscanned().errors);
            ret
        }
    }

    // --- Accessors ---
    /// A copy of the tokens that the scanner holds.
    pub fn tokens(&self) -> (tokens: Vec<SourceToken>)
        ensures
            token_views(tokens@) == self.scanned().tokens,
    {
        copy_tokens(&self.tokens)
    }

    // --- Responsibilities ---
    fn tokenize(&mut self, symbols: Vec<String>)
        requires
            symbols@.len() < usize::MAX,
            old(self).tokens@.len() == 0,
            old(self).error_log@.len() == 0,
            old(self).cursor.start == SourceLocation::start(),
            old(self).cursor.end == SourceLocation::start(),
        ensures
            final(self).symbols() == texts(symbols@),
            final(self).scanned() == scan(texts(symbols@)),
    {
        self.source = symbols;
        let ghost symbols = self.symbols();
        proof {
            assert(token_views(self.tokens@) =~= Seq::<SourceTokenView>::empty());
            assert(self.error_log@ =~= Seq::empty());
        }
        loop
            invariant
                self.wf(),
                self.symbols() == symbols,
                self.cursor.start == self.cursor.end,
                scan(symbols).tokens =~= token_views(self.tokens@) + scan_from(
                    symbols,
                    self.at(),
                ).tokens,
                scan(symbols).errors =~= self.error_log@ + scan_from(symbols, self.at()).errors,
            ensures
                self.wf(),
                self.symbols() == symbols,
                self.cursor.start == self.cursor.end,
                self.at() == symbols.len(),
                scan(symbols).tokens =~= token_views(self.tokens@) + scan_from(
                    symbols,
                    self.at(),
                ).tokens,
                scan(symbols).errors =~= self.error_log@ + scan_from(symbols, self.at()).errors,
            decreases symbols.len() - self.at(),
        {
            let ghost at = self.at();
            let ghost tokens_before = token_views(self.tokens@);
            let ghost errors_before = self.error_log@;
            proof {
                if at < symbols.len() {
                    lemma_lexeme_advances(symbols, at);
                }
            }
            match self.scan_next_token() {
                Some(scan_result) => match scan_result {
                    Ok(token) => {
                        self.tokens.push(token);
                        assert(token_views(self.tokens@) =~= tokens_before.push(token@));
                    },
                    Err(error) => {
                        self.error_log.push(error);
                    },
                },
                None => {
                    break ;
                },
            }
        }
        let end = SourceToken { token: Token::Eof, location_span: self.cursor };
        let ghost tokens_before = token_views(self.tokens@);
        proof {
            lemma_location_bounds(symbols, symbols.len() as int);
            assert(end@ == eof_token(symbols));
        }
        self.tokens.push(end);
        assert(token_views(self.tokens@) =~= tokens_before.push(end@));
        assert(self.scanned().tokens =~= scan(symbols).tokens);
        assert(self.scanned().errors =~= scan(symbols).errors);
    }

    /// Scans one lexeme. This is the only function that closes the cursor;
    /// all others only move its end.
    fn scan_next_token(&mut self) -> (r: Option<Result<SourceToken, Error>>)
        requires
            old(self).wf(),
            old(self).cursor.start == old(self).cursor.end,
        ensures
            final(self).wf(),
            final(self).source == old(self).source,
            final(self).tokens == old(self).tokens,
            final(self).error_log == old(self).error_log,
            final(self).cursor.start == final(self).cursor.end,
            old(self).at() >= old(self).source@.len() ==> r is None && final(self).cursor == old(self).cursor,
            old(self).at() < old(self).source@.len() ==> {
                let lexeme = lexeme_at(old(self).symbols(), old(self).at());
                &&& final(self).at() == lexeme.end
                &&& match r {
                    Some(Ok(token)) => lexeme.outcome == Ok::<TokenView, ErrorView>(
                        token@.token,
                    ) && token@.location_span == span_at(
                        old(self).symbols(),
                        old(self).at(),
                        lexeme.end,
                    ),
                    Some(Err(error)) => lexeme.outcome == Err::<
                        TokenView,
                        ErrorView,
                    >(error@),
                    None => false,
                }
            },
    {
        let ghost symbols = self.symbols();
        let ghost at = self.at();
        let lead = match self.consume_next_symbol() {
            Some(symbol) => symbol,
            None => {
                return None;
            },
        };
        let symbol = lead.as_str();
        let scan_result: Result<Token, Error> = if is_char(symbol, '(') {
            Ok(Token::LeftParen)
        } else if is_char(symbol, ')') {
            Ok(Token::RightParen)
        } else if is_char(symbol, '{') {
            Ok(Token::LeftBrace)
        } else if is_char(symbol, '}') {
            Ok(Token::RightBrace)
        } else if is_char(symbol, ',') {
            Ok(Token::Comma)
        } else if is_char(symbol, '.') {
            Ok(Token::Dot)
        } else if is_char(symbol, '-') {
            Ok(Token::Minus)
        } else if is_char(symbol, '+') {
            Ok(Token::Plus)
        } else if is_char(symbol, ';') {
            Ok(Token::Semicolon)
        } else if is_char(symbol, '*') {
            Ok(Token::Star)
        } else if is_char(symbol, '?') {
            Ok(Token::QuestionMark)
        } else if is_char(symbol, ':') {
            Ok(Token::Colon)
        } else if is_char(symbol, ' ') {
            Ok(Token::Whitespace(WhitespaceKind::Space))
        } else if is_char(symbol, '\r') {
            Ok(Token::Whitespace(WhitespaceKind::Return))
        } else if is_char(symbol, '\t') {
            Ok(Token::Whitespace(WhitespaceKind::Tab))
        } else if is_char(symbol, '\n') {
            Ok(Token::Whitespace(WhitespaceKind::Newline))
        } else if is_char(symbol, '!') {
            if self.match_next_symbol('=') {
                Ok(Token::BangEqual)
            } else {
                Ok(Token::Bang)
            }
        } else if is_char(symbol, '=') {
            if self.match_next_symbol('=') {
                Ok(Token::EqualEqual)
            } else {
                Ok(Token::Equal)
            }
        } else if is_char(symbol, '<') {
            if self.match_next_symbol('=') {
                Ok(Token::LessEqual)
            } else {
                Ok(Token::Less)
            }
        } else if is_char(symbol, '>') {
            if self.match_next_symbol('=') {
                Ok(Token::GreaterEqual)
            } else {
                Ok(Token::Greater)
            }
        } else if is_char(symbol, '/') {
            if self.match_next_symbol('/') {
                self.consume_comment()
            } else {
                Ok(Token::Slash)
            }
        } else if is_char(symbol, '"') {
            self.consume_string()
        } else if is_digit(symbol) {
            self.consume_number()
        } else if is_alpha(symbol) {
            self.consume_identifier()
        } else {
            Err(
                Error {
                    kind: ErrorKind::Scanning,
                    description: ErrorDescription {
                        subject: Some(lead.clone()),
                        location: Some(self.cursor),
                        description: String::from_str("Unexpected character"),
                    },
                },
            )
        };
        let ret = match scan_result {
            Ok(token) => {
                let location_span = self.cursor;
                Some(Ok(SourceToken { token, location_span }))
            },
            Err(error) => Some(Err(error)),
        };
        self.cursor.close();
        ret
    }

    fn consume_next_symbol(&mut self) -> (r: Option<String>)
        requires
            old(self).wf(),
        ensures
            final(self).wf(),
            final(self).moved_from(old(self)),
            match r {
                Some(symbol) => old(self).at() < old(self).source@.len() && symbol@ == old(self).symbols()[old(self).at()] && final(self).at() == old(self).at() + 1,
                None => old(self).at() >= old(self).source@.len() && final(self).cursor == old(self).cursor,
            },
    {
        let index = self.cursor.end.index;
        if index < self.source.len() {
            let ret = self.source[index].clone();
            proof {
                lemma_location_bounds(self.symbols(), index as int);
            }
            self.cursor.end.increment(ret.as_str());
            Some(ret)
        } else {
            None
        }
    }

    fn match_next_symbol(&mut self, target: char) -> (b: bool)
        requires
            old(self).wf(),
        ensures
            final(self).wf(),
            final(self).moved_from(old(self)),
            b == symbol_is(old(self).symbols(), old(self).at(), target),
            final(self).at() == if b {
                old(self).at() + 1
            } else {
                old(self).at()
            },
    {
        let index = self.cursor.end.index;
        if index < self.source.len() {
            if is_char(self.source[index].as_str(), target) {
                let curr = self.source[index].clone();
                proof {
                    lemma_location_bounds(self.symbols(), index as int);
                }
                self.cursor.end.increment(curr.as_str());
                return true;
            }
        }
        false
    }

    fn peek_next_symbol(&self) -> (r: Option<String>)
        requires
            self.wf(),
        ensures
            match r {
                Some(symbol) => self.at() < self.source@.len() && symbol@ == self.symbols()[self.at()],
                None => self.at() >= self.source@.len(),
            },
    {
        let index = self.cursor.end.index;
        if index < self.source.len() {
            Some(self.source[index].clone())
        } else {
            None
        }
    }

    fn peek_next_symbol_twice(&self) -> (r: Option<String>)
        requires
            self.wf(),
        ensures
            match r {
                Some(symbol) => self.at() + 1 < self.source@.len() && symbol@
                    == self.symbols()[self.at() + 1],
                None => self.at() + 1 >= self.source@.len(),
            },
    {
        let index = self.cursor.end.index + 1;
        if index < self.source.len() {
            Some(self.source[index].clone())
        } else {
            None
        }
    }

    /// Moves the cursor's end over the longest run of symbols of `class`.
    fn consume_run(&mut self, class: SymbolClass)
        requires
            old(self).wf(),
        ensures
            final(self).wf(),
            final(self).moved_from(old(self)),
            final(self).at() == run_end(old(self).symbols(), old(self).at(), class),
    {
        let ghost symbols = self.symbols();
        let ghost start = self.at();
        loop
            invariant
                self.wf(),
                self.moved_from(old(self)),
                run_end(symbols, self.at(), class) == run_end(symbols, start, class),
                symbols == old(self).symbols(),
                start == old(self).at(),
            ensures
                self.wf(),
                self.moved_from(old(self)),
                self.at() == run_end(symbols, start, class),
            decreases symbols.len() - self.at(),
        {
            match self.peek_next_symbol() {
                Some(symbol) => {
                    if in_class(&class, symbol.as_str()) {
                        self.consume_next_symbol();
                    } else {
                        break ;
                    }
                },
                None => {
                    break ;
                },
            }
        }
    }

    /// The rest of a comment whose two slashes have been read.
    fn consume_comment(&mut self) -> (r: Result<Token, Error>)
        requires
            old(self).wf(),
            old(self).from() + 2 == old(self).at(),
        ensures
            final(self).wf(),
            final(self).moved_from(old(self)),
            final(self).at() == run_end(old(self).symbols(), old(self).at(), SymbolClass::InComment),
            match r {
                Ok(token) => token@ == TokenView::Comment(
                    "//"@ + joined(old(self).symbols(), old(self).at(), final(self).at()),
                ),
                Err(_) => false,
            },
    {
        let first = self.cursor.end.index;
        self.consume_run(SymbolClass::InComment);
        let mut content = String::from_str("//");
        content.append(join(&self.source, first, self.cursor.end.index).as_str());
        Ok(Token::Comment(content))
    }

    /// The rest of a string whose opening quote has been read.
    fn consume_string(&mut self) -> (r: Result<Token, Error>)
        requires
            old(self).wf(),
            old(self).from() + 1 == old(self).at(),
        ensures
            final(self).wf(),
            final(self).moved_from(old(self)),
            ({
                let symbols = old(self).symbols();
                let closing = run_end(symbols, old(self).at(), SymbolClass::InString);
                if closing < symbols.len() {
                    &&& final(self).at() == closing + 1
                    &&& match r {
                        Ok(token) => token@ == TokenView::String(
                            joined(symbols, old(self).at(), closing),
                        ),
                        Err(_) => false,
                    }
                } else {
                    &&& final(self).at() == symbols.len()
                    &&& match r {
                        Ok(_) => false,
                        Err(error) => error@ == crate::lexis::scanning_error(
                            joined(symbols, old(self).from(), symbols.len() as int),
                            span_at(symbols, old(self).from(), symbols.len() as int),
                            "Unterminated String"@,
                        ),
                    }
                }
            }),
    {
        let first = self.cursor.end.index;
        self.consume_run(SymbolClass::InString);
        let closing = self.cursor.end.index;
        match self.consume_next_symbol() {
            Some(_) => Ok(Token::String(join(&self.source, first, closing))),
            None => {
                let error_string = self.source_substring(self.cursor);
                Err(
                    Error {
                        kind: ErrorKind::Scanning,
                        description: ErrorDescription {
                            subject: Some(error_string),
                            location: Some(self.cursor),
                            description: String::from_str("Unterminated String"),
                        },
                    },
                )
            },
        }
    }

    /// The text of the source inside `cursor`.
    fn source_substring(&self, cursor: SourceSpan) -> (r: String)
        requires
            cursor.start.index <= cursor.end.index <= self.source@.len(),
        ensures
            r@ == joined(self.symbols(), cursor.start.index as int, cursor.end.index as int),
    {
        join(&self.source, cursor.start.index, cursor.end.index)
    }

    /// The rest of a numeral whose first digit has been read.
    fn consume_number(&mut self) -> (r: Result<Token, Error>)
        requires
            old(self).wf(),
            old(self).from() + 1 == old(self).at(),
        ensures
            final(self).wf(),
            final(self).moved_from(old(self)),
            final(self).at() == numeral_end(old(self).symbols(), old(self).from()),
            match r {
                Ok(token) => token@ == TokenView::Number(
                    joined(old(self).symbols(), old(self).from(), final(self).at()),
                ),
                Err(_) => false,
            },
    {
        // All digits up to the first symbol that is none.
        self.consume_run(SymbolClass::Digit);
        // A decimal point counts only with a digit behind it.
        if let Some(symbol) = self.peek_next_symbol() {
            if is_char(symbol.as_str(), '.') {
                if let Some(symbol) = self.peek_next_symbol_twice() {
                    if is_digit(symbol.as_str()) {
                        // The point itself, then the digits behind it.
                        self.consume_next_symbol();
                        self.consume_run(SymbolClass::Digit);
                    }
                }
            }
        }
        let value = self.source_substring(self.cursor);
        Ok(Token::Number(value))
    }

    /// The rest of a word whose first symbol has been read.
    fn consume_identifier(&mut self) -> (r: Result<Token, Error>)
        requires
            old(self).wf(),
            old(self).from() + 1 == old(self).at(),
        ensures
            final(self).wf(),
            final(self).moved_from(old(self)),
            final(self).at() == run_end(
                old(self).symbols(),
                old(self).at(),
                SymbolClass::AlphaNumeric,
            ),
            match r {
                Ok(token) => {
                    let word = joined(old(self).symbols(), old(self).from(), final(self).at());
                    token@ == match crate::token::keyword(word) {
                        Some(k) => k,
                        None => TokenView::Identifier(word),
                    }
                },
                Err(_) => false,
            },
    {
        self.consume_run(SymbolClass::AlphaNumeric);
        let value = self.source_substring(self.cursor);
        if let Some(keyword) = match_keyword(value.as_str()) {
            Ok(keyword)
        } else {
            Ok(Token::Identifier(value))
        }
    }
}

impl ErrorLoggable for Scanner {
    fn error_log(&self) -> (log: &ErrorLog)
        ensures
            log@ == self.scanned().errors,
    {
        &self.error_log
    }
}

} // verus!
