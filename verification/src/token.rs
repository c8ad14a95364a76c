//! Tokens: the lexical units that the scanner produces and the parser reads.
use vstd::prelude::*;
use vstd::string::*;
use crate::source_file::SourceSpan;
use crate::text::same_text;

verus! {

/// The four symbols that are whitespace.
#[derive(Debug, Clone, Copy, PartialEq, Eq, Structural)]
pub enum WhitespaceKind {
    Space,
    Tab,
    Return,
    Newline,
}

impl WhitespaceKind {
    /// The name of the kind, as a rendered token shows it.
    pub open spec fn name(self) -> Seq<char> {
        match self {
            WhitespaceKind::Space => "Space"@,
            WhitespaceKind::Tab => "Tab"@,
            WhitespaceKind::Return => "Return"@,
            WhitespaceKind::Newline => "Newline"@,
        }
    }
}

/// A token. A number carries its numeral, the digits as they stand in the
/// source; the text of a comment includes its two slashes.
#[derive(Debug, PartialEq)]
pub enum Token {
    // Single-character tokens
    LeftParen,
    RightParen,
    LeftBrace,
    RightBrace,
    Comma,
    Dot,
    Minus,
    Plus,
    Semicolon,
    Slash,
    Star,
    QuestionMark,
    Colon,
    // One or two character tokens
    Bang,
    BangEqual,
    Equal,
    EqualEqual,
    Greater,
    GreaterEqual,
    Less,
    LessEqual,
    // Literals
    Identifier(String),
    String(String),
    Number(String),
    // Keywords
    And,
    Class,
    Else,
    False,
    Fun,
    For,
    If,
    Nil,
    Or,
    Print,
    Return,
    Super,
    This,
    True,
    Var,
    While,
    // Meta
    Comment(String),
    Whitespace(WhitespaceKind),
    Eof,
}

/// A token with its text as a sequence of characters.
pub enum TokenView {
    LeftParen,
    RightParen,
    LeftBrace,
    RightBrace,
    Comma,
    Dot,
    Minus,
    Plus,
    Semicolon,
    Slash,
    Star,
    QuestionMark,
    Colon,
    Bang,
    BangEqual,
    Equal,
    EqualEqual,
    Greater,
    GreaterEqual,
    Less,
    LessEqual,
    Identifier(Seq<char>),
    String(Seq<char>),
    Number(Seq<char>),
    And,
    Class,
    Else,
    False,
    Fun,
    For,
    If,
    Nil,
    Or,
    Print,
    Return,
    Super,
    This,
    True,
    Var,
    While,
    Comment(Seq<char>),
    Whitespace(WhitespaceKind),
    Eof,
}

impl View for Token {
    type V = TokenView;

    open spec fn view(&self) -> TokenView {
        match self {
            Token::LeftParen => TokenView::LeftParen,
            Token::RightParen => TokenView::RightParen,
            Token::LeftBrace => TokenView::LeftBrace,
            Token::RightBrace => TokenView::RightBrace,
            Token::Comma => TokenView::Comma,
            Token::Dot => TokenView::Dot,
            Token::Minus => TokenView::Minus,
            Token::Plus => TokenView::Plus,
            Token::Semicolon => TokenView::Semicolon,
            Token::Slash => TokenView::Slash,
            Token::Star => TokenView::Star,
            Token::QuestionMark => TokenView::QuestionMark,
            Token::Colon => TokenView::Colon,
            Token::Bang => TokenView::Bang,
            Token::BangEqual => TokenView::BangEqual,
            Token::Equal => TokenView::Equal,
            Token::EqualEqual => TokenView::EqualEqual,
            Token::Greater => TokenView::Greater,
            Token::GreaterEqual => TokenView::GreaterEqual,
            Token::Less => TokenView::Less,
            Token::LessEqual => TokenView::LessEqual,
            Token::Identifier(text) => TokenView::Identifier(text@),
            Token::String(text) => TokenView::String(text@),
            Token::Number(text) => TokenView::Number(text@),
            Token::And => TokenView::And,
            Token::Class => TokenView::Class,
            Token::Else => TokenView::Else,
            Token::False => TokenView::False,
            Token::Fun => TokenView::Fun,
            Token::For => TokenView::For,
            Token::If => TokenView::If,
            Token::Nil => TokenView::Nil,
            Token::Or => TokenView::Or,
            Token::Print => TokenView::Print,
            Token::Return => TokenView::Return,
            Token::Super => TokenView::Super,
            Token::This => TokenView::This,
            Token::True => TokenView::True,
            Token::Var => TokenView::Var,
            Token::While => TokenView::While,
            Token::Comment(text) => TokenView::Comment(text@),
            Token::Whitespace(kind) => TokenView::Whitespace(*kind),
            Token::Eof => TokenView::Eof,
        }
    }
}

impl Clone for Token {
    fn clone(&self) -> (r: Self)
        ensures
            r@ == self@,
    {
        match self {
            Token::LeftParen => Token::LeftParen,
            Token::RightParen => Token::RightParen,
            Token::LeftBrace => Token::LeftBrace,
            Token::RightBrace => Token::RightBrace,
            Token::Comma => Token::Comma,
            Token::Dot => Token::Dot,
            Token::Minus => Token::Minus,
            Token::Plus => Token::Plus,
            Token::Semicolon => Token::Semicolon,
            Token::Slash => Token::Slash,
            Token::Star => Token::Star,
            Token::QuestionMark => Token::QuestionMark,
            Token::Colon => Token::Colon,
            Token::Bang => Token::Bang,
            Token::BangEqual => Token::BangEqual,
            Token::Equal => Token::Equal,
            Token::EqualEqual => Token::EqualEqual,
            Token::Greater => Token::Greater,
            Token::GreaterEqual => Token::GreaterEqual,
            Token::Less => Token::Less,
            Token::LessEqual => Token::LessEqual,
            Token::Identifier(text) => Token::Identifier(text.clone()),
            Token::String(text) => Token::String(text.clone()),
            Token::Number(text) => Token::Number(text.clone()),
            Token::And => Token::And,
            Token::Class => Token::Class,
            Token::Else => Token::Else,
            Token::False => Token::False,
            Token::Fun => Token::Fun,
            Token::For => Token::For,
            Token::If => Token::If,
            Token::Nil => Token::Nil,
            Token::Or => Token::Or,
            Token::Print => Token::Print,
            Token::Return => Token::Return,
            Token::Super => Token::Super,
            Token::This => Token::This,
            Token::True => Token::True,
            Token::Var => Token::Var,
            Token::While => Token::While,
            Token::Comment(text) => Token::Comment(text.clone()),
            Token::Whitespace(kind) => Token::Whitespace(*kind),
            Token::Eof => Token::Eof,
        }
    }
}

impl TokenView {
    /// The token as an error message shows it: an operator or keyword by its
    /// spelling, a literal by its class and its text in double quotes.
    pub open spec fn rendered(self) -> Seq<char> {
        match self {
            TokenView::LeftParen => "("@,
            TokenView::RightParen => ")"@,
            TokenView::LeftBrace => "{"@,
            TokenView::RightBrace => "}"@,
            TokenView::Comma => ","@,
            TokenView::Dot => "."@,
            TokenView::Minus => "-"@,
            TokenView::Plus => "+"@,
            TokenView::Semicolon => ";"@,
            TokenView::Slash => "/"@,
            TokenView::Star => "*"@,
            TokenView::QuestionMark => "?"@,
            TokenView::Colon => ":"@,
            TokenView::Bang => "!"@,
            TokenView::BangEqual => "!="@,
            TokenView::Equal => "="@,
            TokenView::EqualEqual => "=="@,
            TokenView::Greater => ">"@,
            TokenView::GreaterEqual => ">="@,
            TokenView::Less => "<"@,
            TokenView::LessEqual => "<="@,
            TokenView::Identifier(text) => "identifier \""@ + text + "\""@,
            TokenView::String(text) => "string \""@ + text + "\""@,
            TokenView::Number(text) => "number \""@ + text + "\""@,
            TokenView::And => "and"@,
            TokenView::Class => "class"@,
            TokenView::Else => "else"@,
            TokenView::False => "false"@,
            TokenView::Fun => "fun"@,
            TokenView::For => "for"@,
            TokenView::If => "if"@,
            TokenView::Nil => "nil"@,
            TokenView::Or => "or"@,
            TokenView::Print => "print"@,
            TokenView::Return => "return"@,
            TokenView::Super => "super"@,
            TokenView::This => "this"@,
            TokenView::True => "true"@,
            TokenView::Var => "var"@,
            TokenView::While => "while"@,
            TokenView::Comment(text) => "comment \""@ + text + "\""@,
            TokenView::Whitespace(kind) => "whitespace "@ + kind.name(),
            TokenView::Eof => "Eof"@,
        }
    }

    /// The place of the token's variant in the list of variants.
    pub open spec fn ordinal(self) -> nat {
        match self {
            TokenView::LeftParen => 0,
            TokenView::RightParen => 1,
            TokenView::LeftBrace => 2,
            TokenView::RightBrace => 3,
            TokenView::Comma => 4,
            TokenView::Dot => 5,
            TokenView::Minus => 6,
            TokenView::Plus => 7,
            TokenView::Semicolon => 8,
            TokenView::Slash => 9,
            TokenView::Star => 10,
            TokenView::QuestionMark => 11,
            TokenView::Colon => 12,
            TokenView::Bang => 13,
            TokenView::BangEqual => 14,
            TokenView::Equal => 15,
            TokenView::EqualEqual => 16,
            TokenView::Greater => 17,
            TokenView::GreaterEqual => 18,
            TokenView::Less => 19,
            TokenView::LessEqual => 20,
            TokenView::Identifier(_) => 21,
            TokenView::String(_) => 22,
            TokenView::Number(_) => 23,
            TokenView::And => 24,
            TokenView::Class => 25,
            TokenView::Else => 26,
            TokenView::False => 27,
            TokenView::Fun => 28,
            TokenView::For => 29,
            TokenView::If => 30,
            TokenView::Nil => 31,
            TokenView::Or => 32,
            TokenView::Print => 33,
            TokenView::Return => 34,
            TokenView::Super => 35,
            TokenView::This => 36,
            TokenView::True => 37,
            TokenView::Var => 38,
            TokenView::While => 39,
            TokenView::Comment(_) => 40,
            TokenView::Whitespace(_) => 41,
            TokenView::Eof => 42,
        }
    }

    /// Whether two tokens are of the same variant, whatever they carry.
    pub open spec fn same_variant(self, other: TokenView) -> bool {
        self.ordinal() == other.ordinal()
    }
}

impl Token {
    /// Renders the token for an error message.
    pub fn to_string(&self) -> (r: String)
        ensures
            r@ == self@.rendered(),
    {
        match self {
            Token::LeftParen => String::from_str("("),
            Token::RightParen => String::from_str(")"),
            Token::LeftBrace => String::from_str("{"),
            Token::RightBrace => String::from_str("}"),
            Token::Comma => String::from_str(","),
            Token::Dot => String::from_str("."),
            Token::Minus => String::from_str("-"),
            Token::Plus => String::from_str("+"),
            Token::Semicolon => String::from_str(";"),
            Token::Slash => String::from_str("/"),
            Token::Star => String::from_str("*"),
            Token::QuestionMark => String::from_str("?"),
            Token::Colon => String::from_str(":"),
            Token::Bang => String::from_str("!"),
            Token::BangEqual => String::from_str("!="),
            Token::Equal => String::from_str("="),
            Token::EqualEqual => String::from_str("=="),
            Token::Greater => String::from_str(">"),
            Token::GreaterEqual => String::from_str(">="),
            Token::Less => String::from_str("<"),
            Token::LessEqual => String::from_str("<="),
            Token::Identifier(text) => quoted("identifier \"", text),
            Token::String(text) => quoted("string \"", text),
            Token::Number(text) => quoted("number \"", text),
            Token::And => String::from_str("and"),
            Token::Class => String::from_str("class"),
            Token::Else => String::from_str("else"),
            Token::False => String::from_str("false"),
            Token::Fun => String::from_str("fun"),
            Token::For => String::from_str("for"),
            Token::If => String::from_str("if"),
            Token::Nil => String::from_str("nil"),
            Token::Or => String::from_str("or"),
            Token::Print => String::from_str("print"),
            Token::Return => String::from_str("return"),
            Token::Super => String::from_str("super"),
            Token::This => String::from_str("this"),
            Token::True => String::from_str("true"),
            Token::Var => String::from_str("var"),
            Token::While => String::from_str("while"),
            Token::Comment(text) => quoted("comment \"", text),
            Token::Whitespace(kind) => {
                let mut r = String::from_str("whitespace ");
                match kind {
                    WhitespaceKind::Space => r.append("Space"),
                    WhitespaceKind::Tab => r.append("Tab"),
                    WhitespaceKind::Return => r.append("Return"),
                    WhitespaceKind::Newline => r.append("Newline"),
                }
                r
            },
            Token::Eof => String::from_str("Eof"),
        }
    }

    /// The place of the token's variant in the list of variants.
    pub fn ordinal(&self) -> (n: u8)
        ensures
            n == self@.ordinal(),
    {
        match self {
            Token::LeftParen => 0,
            Token::RightParen => 1,
            Token::LeftBrace => 2,
            Token::RightBrace => 3,
            Token::Comma => 4,
            Token::Dot => 5,
            Token::Minus => 6,
            Token::Plus => 7,
            Token::Semicolon => 8,
            Token::Slash => 9,
            Token::Star => 10,
            Token::QuestionMark => 11,
            Token::Colon => 12,
            Token::Bang => 13,
            Token::BangEqual => 14,
            Token::Equal => 15,
            Token::EqualEqual => 16,
            Token::Greater => 17,
            Token::GreaterEqual => 18,
            Token::Less => 19,
            Token::LessEqual => 20,
            Token::Identifier(_) => 21,
            Token::String(_) => 22,
            Token::Number(_) => 23,
            Token::And => 24,
            Token::Class => 25,
            Token::Else => 26,
            Token::False => 27,
            Token::Fun => 28,
            Token::For => 29,
            Token::If => 30,
            Token::Nil => 31,
            Token::Or => 32,
            Token::Print => 33,
            Token::Return => 34,
            Token::Super => 35,
            Token::This => 36,
            Token::True => 37,
            Token::Var => 38,
            Token::While => 39,
            Token::Comment(_) => 40,
            Token::Whitespace(_) => 41,
            Token::Eof => 42,
        }
    }

    /// Whether `self` and `other` are of the same variant, whatever they
    /// carry.
    pub fn same_variant(&self, other: &Token) -> (b: bool)
        ensures
            b == self@.same_variant(other@),
    {
        self.ordinal() == other.ordinal()
    }
}

/// `head`, then `text`, then a closing double quote.
fn quoted(head: &str, text: &String) -> (r: String)
    ensures
        r@ == head@ + text@ + "\""@,
{
    let mut r = String::from_str(head);
    r.append(text.as_str());
    r.append("\"");
    r
}

/// The keyword that `text` spells, if it spells one.
pub open spec fn keyword(text: Seq<char>) -> Option<TokenView> {
    if text == "and"@ {
        Some(TokenView::And)
    } else if text == "class"@ {
        Some(TokenView::Class)
    } else if text == "else"@ {
        Some(TokenView::Else)
    } else if text == "false"@ {
        Some(TokenView::False)
    } else if text == "for"@ {
        Some(TokenView::For)
    } else if text == "fun"@ {
        Some(TokenView::Fun)
    } else if text == "if"@ {
        Some(TokenView::If)
    } else if text == "nil"@ {
        Some(TokenView::Nil)
    } else if text == "or"@ {
        Some(TokenView::Or)
    } else if text == "print"@ {
        Some(TokenView::Print)
    } else if text == "return"@ {
        Some(TokenView::Return)
    } else if text == "super"@ {
        Some(TokenView::Super)
    } else if text == "this"@ {
        Some(TokenView::This)
    } else if text == "true"@ {
        Some(TokenView::True)
    } else if text == "var"@ {
        Some(TokenView::Var)
    } else if text == "while"@ {
        Some(TokenView::While)
    } else {
        None
    }
}

/// Looks `symbol` up in the table of keywords.
pub fn match_keyword(symbol: &str) -> (r: Option<Token>)
    ensures
        match r {
            Some(token) => keyword(symbol@) == Some(token@),
            None => keyword(symbol@) is None,
        },
{
    if same_text(symbol, "and") {
        Some(Token::And)
    } else if same_text(symbol, "class") {
        Some(Token::Class)
    } else if same_text(symbol, "else") {
        Some(Token::Else)
    } else if same_text(symbol, "false") {
        Some(Token::False)
    } else if same_text(symbol, "for") {
        Some(Token::For)
    } else if same_text(symbol, "fun") {
        Some(Token::Fun)
    } else if same_text(symbol, "if") {
        Some(Token::If)
    } else if same_text(symbol, "nil") {
        Some(Token::Nil)
    } else if same_text(symbol, "or") {
        Some(Token::Or)
    } else if same_text(symbol, "print") {
        Some(Token::Print)
    } else if same_text(symbol, "return") {
        Some(Token::Return)
    } else if same_text(symbol, "super") {
        Some(Token::Super)
    } else if same_text(symbol, "this") {
        Some(Token::This)
    } else if same_text(symbol, "true") {
        Some(Token::True)
    } else if same_text(symbol, "var") {
        Some(Token::Var)
    } else if same_text(symbol, "while") {
        Some(Token::While)
    } else {
        None
    }
}

/// A token together with the span of the source that it was read from.
#[derive(Debug, Clone, PartialEq)]
pub struct SourceToken {
    pub token: Token,
    pub location_span: SourceSpan,
}

/// A token with its span, the token as a view.
pub struct SourceTokenView {
    pub token: TokenView,
    pub location_span: SourceSpan,
}

impl View for SourceToken {
    type V = SourceTokenView;

    open spec fn view(&self) -> SourceTokenView {
        SourceTokenView { token: self.token@, location_span: self.location_span }
    }
}

/// The views of a sequence of tokens.
pub open spec fn token_views(tokens: Seq<SourceToken>) -> Seq<SourceTokenView> {
    Seq::new(tokens.len(), |i: int| tokens[i]@)
}

} // verus!
