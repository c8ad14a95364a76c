//! The parser: recursive descent over the tokens, one function for each
//! rule of the grammar, with recovery at statement boundaries.
//!
//! The rules for expressions call each other, so the depth of the call stack
//! grows with the depth to which parentheses and unary operators are nested
//! in the source.
use vstd::prelude::*;
use vstd::string::*;
use crate::errors::{Error, ErrorKind, ErrorLog, ErrorLoggable, ErrorView};
use crate::grammar::{
    Level,
    at_end,
    binary,
    binary_rest,
    consume,
    declaration,
    expression,
    has_end,
    lemma_declaration_advances,
    lemma_significant_twice,
    lemma_statements_bounded,
    missing_end,
    next_is,
    no_expression,
    operand,
    peek,
    primary,
    program,
    remaining,
    semicolons,
    significant,
    skipped,
    starts_statement,
    statement,
    terminated_expression,
    ternary,
    ternary_rest,
    unary,
    unexpected_end,
    unexpected_token,
    var_declaration,
};
use crate::language_utilities::enum_variant_equal;
use crate::token::{SourceToken, SourceTokenView, Token, token_views};
pub use crate::ast::{
    BinaryExpr,
    Expr,
    ExprStmt,
    ExprView,
    LiteralKind,
    PrintStmt,
    Stmt,
    StmtView,
    TernaryExpr,
    UnaryExpr,
    VarStmt,
    stmt_views,
};

verus! {

/// The view of a rule's result, for each kind of result.
pub open spec fn token_outcome(r: Result<SourceToken, Error>) -> Result<SourceTokenView, ErrorView> {
    match r {
        Ok(token) => Ok(token@),
        Err(error) => Err(error@),
    }
}

/// The view of a rule's result that is an expression.
pub open spec fn expr_outcome(r: Result<Expr, Error>) -> Result<ExprView, ErrorView> {
    match r {
        Ok(e) => Ok(e@),
        Err(error) => Err(error@),
    }
}

/// The view of a rule's result that is a statement.
pub open spec fn stmt_outcome(r: Result<Stmt, Error>) -> Result<StmtView, ErrorView> {
    match r {
        Ok(s) => Ok(s@),
        Err(error) => Err(error@),
    }
}

fn copy_token(token: &SourceToken) -> (copy: SourceToken)
    ensures
        copy@ == token@,
{
    SourceToken { token: token.token.clone(), location_span: token.location_span }
}

/// The tokens of `tokens` that are not whitespace.
fn strip_whitespace(tokens: &Vec<SourceToken>) -> (kept: Vec<SourceToken>)
    ensures
        token_views(kept@) == significant(token_views(tokens@)),
{
    let mut kept: Vec<SourceToken> = Vec::new();
    let mut i: usize = 0;
    let ghost all = token_views(tokens@);
    assert(all.take(0) =~= Seq::<SourceTokenView>::empty());
    while i < tokens.len()
        invariant
            i <= tokens.len(),
            all == token_views(tokens@),
            token_views(kept@) =~= significant(all.take(i as int)),
        decreases tokens.len() - i,
    {
        let ghost before = token_views(kept@);
        assert(all.take(i + 1).drop_last() =~= all.take(i as int));
        assert(all.take(i + 1).last() == tokens@[i as int]@);
        if !matches!(tokens[i].token, Token::Whitespace(_)) {
            let copy = copy_token(&tokens[i]);
            kept.push(copy);
            assert(token_views(kept@) =~= before.push(copy@));
        }
        i = i + 1;
    }
    assert(all.take(tokens.len() as int) =~= all);
    kept
}

fn level_has(level: Level, token: &Token) -> (b: bool)
    ensures
        b == level.has(token@),
{
    match level {
        Level::Equality => matches!(token, Token::BangEqual | Token::EqualEqual),
        Level::Comparison => matches!(
            token,
            Token::Greater | Token::GreaterEqual | Token::Less | Token::LessEqual
        ),
        Level::Term => matches!(token, Token::Minus | Token::Plus),
        Level::Factor => matches!(token, Token::Slash | Token::Star),
    }
}

fn begins_statement(token: &Token) -> (b: bool)
    ensures
        b == starts_statement(token@),
{
    matches!(
        token,
        Token::Class | Token::For | Token::Fun | Token::If | Token::Print | Token::Return
            | Token::Var | Token::While
    )
}

fn unexpected_token_error(expected: &Token, found: &SourceToken) -> (e: Error)
    ensures
        e@ == unexpected_token(expected@, found@),
{
    let mut message = String::from_str("Expected '");
    message.append(expected.to_string().as_str());
    message.append("' after expression, instead found '");
    message.append(found.token.to_string().as_str());
    message.append("'");
    Error::located(ErrorKind::Parsing, found.location_span, message)
}

fn unexpected_end_error(expected: &Token) -> (e: Error)
    ensures
        e@ == unexpected_end(expected@),
{
    let mut message = String::from_str("Reached end of file while expecting '");
    message.append(expected.to_string().as_str());
    message.append("'");
    Error::plain(ErrorKind::Parsing, message)
}

fn no_expression_error(found: &SourceToken) -> (e: Error)
    ensures
        e@ == no_expression(found@),
{
    let mut message = String::from_str("Expected value or expression, found '");
    message.append(found.token.to_string().as_str());
    message.append("'");
    Error::located(ErrorKind::Parsing, found.location_span, message)
}

/// Reads tokens and assembles them into statements.
pub struct Parser {
    tokens: Vec<SourceToken>,
    /// The place of the next token to read.
    index: usize,
    error_log: ErrorLog,
}

impl Parser {
    /// The tokens that the parser holds.
    pub closed spec fn tokens(&self) -> Seq<SourceTokenView> {
        token_views(self.tokens@)
    }

    /// The place of the next token to read.
    pub closed spec fn position(&self) -> int {
        self.index as int
    }

    /// The errors that the parser has collected.
    pub closed spec fn errors(&self) -> Seq<ErrorView> {
        self.error_log@
    }

    /// An end-of-input token stands at or after the parser's place.
    spec fn wf(&self) -> bool {
        has_end(self.tokens(), self.position())
    }

    /// Whether `self` is `before` with `used` more tokens read.
    spec fn stepped_from(&self, before: &Parser, used: nat) -> bool {
        &&& self.wf()
        &&& self.tokens == before.tokens
        &&& self.error_log == before.error_log
        &&& self.index == before.index + used
    }

    /// Whether the parser can parse: an end-of-input token stands ahead of
    /// it among the tokens that are not whitespace. A parser that has read
    /// tokens holds no whitespace any more.
    pub open spec fn ready(&self) -> bool {
        &&& has_end(significant(self.tokens()), self.position())
        &&& self.position() == 0 || significant(self.tokens()) == self.tokens()
    }

    /// A parser at the start of `tokens`, with an empty log.
    pub fn new(tokens: Vec<SourceToken>) -> (parser: Self)
        ensures
            parser.tokens() == token_views(tokens@),
            parser.position() == 0,
            parser.errors() == Seq::<ErrorView>::empty(),
    {
        Parser { tokens, index: 0, error_log: ErrorLog::new() }
    }

    // --- Drivers ---
    /// Parses the tokens, whitespace left out, into statements. Each
    /// declaration that fails adds its error to the log and gives no
    /// statement; parsing takes up again at the next statement boundary.
    pub fn parse(&mut self) -> (statements: Vec<Stmt>)
        requires
            old(self).ready(),
        ensures
            final(self).ready(),
            final(self).tokens() == significant(old(self).tokens()),
            stmt_views(statements@) == program(
                final(self).tokens(),
                old(self).position(),
            ).statements,
            final(self).errors() == old(self).errors() + program(
                final(self).tokens(),
                old(self).position(),
            ).errors,
            at_end(final(self).tokens(), final(self).position()),
            statements@.len() <= semicolons(final(self).tokens(), old(self).position()),
    {
        let ghost start = self.position();
        proof {
            lemma_significant_twice(self.tokens());
        }
        // The tokens handed to the parser may hold whitespace.
        self.tokens = strip_whitespace(&self.tokens);
        let ghost all = self.tokens();
        let ghost errors_before = self.error_log@;
        proof {
            lemma_statements_bounded(all, start);
        }
        // Begin parsing statements
        let mut statements: Vec<Stmt> = Vec::new();
        assert(stmt_views(statements@) =~= Seq::<StmtView>::empty());
        loop
            invariant
                self.wf(),
                self.tokens() == all,
                program(all, start).statements =~= stmt_views(statements@) + program(
                    all,
                    self.position(),
                ).statements,
                errors_before + program(all, start).errors =~= self.error_log@ + program(
                    all,
                    self.position(),
                ).errors,
            ensures
                self.wf(),
                self.tokens() == all,
                at_end(all, self.position()),
                program(all, start).statements =~= stmt_views(statements@),
                errors_before + program(all, start).errors =~= self.error_log@,
            decreases remaining(all, self.position()),
        {
            let ghost views_before = stmt_views(statements@);
            proof {
                if !at_end(all, self.position()) {
                    lemma_declaration_advances(all, self.position());
                }
            }
            match self.parse_next_statement() {
                Some(parse_result) => match parse_result {
                    Ok(statement) => {
                        statements.push(statement);
                        assert(stmt_views(statements@) =~= views_before.push(statement@));
                    },
                    Err(error) => self.error_log.push(error),
                },
                None => {
                    break ;
                },
            }
        }
        statements
    }

    fn parse_next_statement(&mut self) -> (r: Option<Result<Stmt, Error>>)
        requires
            old(self).wf(),
        ensures
            match r {
                Some(result) => !at_end(old(self).tokens(), old(self).position()) && stmt_outcome(
                    result,
                ) == declaration(old(self).tokens(), old(self).position()).outcome && final(self).stepped_from(
                    old(self),
                    declaration(old(self).tokens(), old(self).position()).used,
                ),
                None => at_end(old(self).tokens(), old(self).position()) && final(self).stepped_from(old(self), 0),
            },
    {
        if let Some(_) = self.peek_next_token() {
            Some(self.declaration())
        } else {
            None
        }
    }

    // --- Token Reading ---
    /// The next token, unless it is the end-of-input token. Does not move.
    fn peek_next_token(&self) -> (r: Option<SourceToken>)
        requires
            self.wf(),
        ensures
            match r {
                Some(token) => peek(self.tokens(), self.position()) == Some(token@),
                None => peek(self.tokens(), self.position()) is None,
            },
    {
        let token = &self.tokens[self.index];
        if matches!(token.token, Token::Eof) {
            None
        } else {
            Some(copy_token(token))
        }
    }

    /// Reads the next token if it is of the variant of `target`.
    fn match_then_consume(&mut self, target: &Token) -> (b: bool)
        requires
            old(self).wf(),
        ensures
            b == next_is(old(self).tokens(), old(self).position(), target@),
            final(self).stepped_from(
                old(self),
                if b {
                    1nat
                } else {
                    0nat
                },
            ),
    {
        if let Some(token) = self.peek_next_token() {
            if token.token.same_variant(target) {
                let _ = self.advance_token_index();
                return true;
            }
        }
        false
    }

    /// Returns the token at the parser's place and moves past it. At the
    /// end-of-input token it returns that token too, but stays where it is:
    /// the parser never passes the end of the input. Where no token stands
    /// at the place, the end-of-input token is missing, which is an error.
    fn advance_token_index(&mut self) -> (r: Result<SourceToken, Error>)
        ensures
            final(self).tokens == old(self).tokens,
            final(self).error_log == old(self).error_log,
            match r {
                Ok(token) => {
                    &&& 0 <= old(self).position() < old(self).tokens().len()
                    &&& token@ == old(self).tokens()[old(self).position()]
                    &&& final(self).position() == if token@.token is Eof {
                        old(self).position()
                    } else {
                        old(self).position() + 1
                    }
                },
                Err(error) => {
                    &&& old(self).position() >= old(self).tokens().len()
                    &&& error@ == missing_end()
                    &&& final(self).position() == old(self).position()
                },
            },
            old(self).wf() ==> r is Ok && final(self).wf(),
    {
        if self.index < self.tokens.len() {
            let token = copy_token(&self.tokens[self.index]);
            if !matches!(token.token, Token::Eof) {
                self.index += 1;
            }
            return Ok(token);
        }
        Err(
            Error::plain(
                ErrorKind::Parsing,
                String::from_str("Consumed all tokens without encountering EOF"),
            ),
        )
    }

    /// Reads the next token, which must be of the variant of
    /// `expected_token`.
    fn consume_next_token(&mut self, expected_token: Token) -> (r: Result<SourceToken, Error>)
        requires
            old(self).wf(),
        ensures
            token_outcome(r) == consume(
                old(self).tokens(),
                old(self).position(),
                expected_token@,
            ).outcome,
            final(self).stepped_from(
                old(self),
                consume(old(self).tokens(), old(self).position(), expected_token@).used,
            ),
    {
        if let Some(next_token) = self.peek_next_token() {
            let _ = self.advance_token_index();
            if enum_variant_equal(&next_token.token, &expected_token) {
                return Ok(next_token);
            }
            return Err(unexpected_token_error(&expected_token, &next_token));
        }
        Err(unexpected_end_error(&expected_token))
    }

    /// The token before the next one.
    fn previous_token(&self) -> (r: SourceToken)
        requires
            self.wf(),
            self.position() > 0,
        ensures
            r@ == self.tokens()[self.position() - 1],
    {
        copy_token(&self.tokens[self.index - 1])
    }

    /// Skips to the next statement boundary: reads tokens until a `;` has
    /// just been read or a keyword that starts a statement stands next.
    fn synchronize_to_statement_boundary(&mut self)
        requires
            old(self).wf(),
        ensures
            final(self).stepped_from(old(self), skipped(old(self).tokens(), old(self).position())),
    {
        let ghost all = self.tokens();
        let ghost start = self.position();
        loop
            invariant
                self.wf(),
                self.tokens == old(self).tokens,
                self.error_log == old(self).error_log,
                all == self.tokens(),
                start == old(self).position(),
                start <= self.position(),
                skipped(all, start) == self.position() - start + skipped(all, self.position()),
            ensures
                self.stepped_from(old(self), skipped(all, start)),
            decreases remaining(all, self.position()),
        {
            match self.peek_next_token() {
                None => {
                    break ;
                },
                Some(next) => {
                    if self.index > 0 && matches!(self.previous_token().token, Token::Semicolon) {
                        break ;
                    }
                    if begins_statement(&next.token) {
                        break ;
                    }
                    let _ = self.advance_token_index();
                },
            }
        }
    }

    // --- Statement Rules ---
    fn declaration(&mut self) -> (r: Result<Stmt, Error>)
        requires
            old(self).wf(),
        ensures
            stmt_outcome(r) == declaration(old(self).tokens(), old(self).position()).outcome,
            final(self).stepped_from(
                old(self),
                declaration(old(self).tokens(), old(self).position()).used,
            ),
    {
        let res = if self.match_then_consume(&Token::Var) {
            self.var_declaration()
        } else {
            self.statement()
        };
        match res {
            Ok(stmt) => Ok(stmt),
            Err(error) => {
                self.synchronize_to_statement_boundary();
                Err(error)
            },
        }
    }

    fn var_declaration(&mut self) -> (r: Result<Stmt, Error>)
        requires
            old(self).wf(),
        ensures
            stmt_outcome(r) == var_declaration(old(self).tokens(), old(self).position()).outcome,
            final(self).stepped_from(
                old(self),
                var_declaration(old(self).tokens(), old(self).position()).used,
            ),
    {
        reveal(var_declaration);
        let exemplar = Token::Identifier(String::from_str("example"));
        let name = match self.consume_next_token(exemplar) {
            Err(error) => {
                return Err(error);
            },
            Ok(source_token) => match source_token.token {
                Token::Identifier(name) => name,
                _ => vstd::pervasive::unreached(),
            },
        };
        if self.match_then_consume(&Token::Equal) {
            match self.terminated_expression() {
                Err(error) => Err(error),
                Ok(value) => Ok(Stmt::Var(VarStmt { name, initializer: Some(value) })),
            }
        } else {
            match self.consume_next_token(Token::Semicolon) {
                Err(error) => Err(error),
                Ok(_) => Ok(Stmt::Var(VarStmt { name, initializer: None })),
            }
        }
    }

    fn statement(&mut self) -> (r: Result<Stmt, Error>)
        requires
            old(self).wf(),
        ensures
            stmt_outcome(r) == statement(old(self).tokens(), old(self).position()).outcome,
            final(self).stepped_from(
                old(self),
                statement(old(self).tokens(), old(self).position()).used,
            ),
    {
        reveal(statement);
        if self.match_then_consume(&Token::Print) {
            return self.print_statement();
        }
        // At the end of the input the expression rule reports what is
        // missing.
        self.expression_statement()
    }

    fn print_statement(&mut self) -> (r: Result<Stmt, Error>)
        requires
            old(self).wf(),
        ensures
            stmt_outcome(r) == match terminated_expression(
                old(self).tokens(),
                old(self).position(),
            ).outcome {
                Ok(e) => Ok(StmtView::Print(e)),
                Err(error) => Err::<StmtView, ErrorView>(error),
            },
            final(self).stepped_from(
                old(self),
                terminated_expression(old(self).tokens(), old(self).position()).used,
            ),
    {
        match self.terminated_expression() {
            Err(error) => Err(error),
            Ok(expression) => Ok(Stmt::Print(PrintStmt { expression })),
        }
    }

    fn expression_statement(&mut self) -> (r: Result<Stmt, Error>)
        requires
            old(self).wf(),
        ensures
            stmt_outcome(r) == match terminated_expression(
                old(self).tokens(),
                old(self).position(),
            ).outcome {
                Ok(e) => Ok(StmtView::Expression(e)),
                Err(error) => Err::<StmtView, ErrorView>(error),
            },
            final(self).stepped_from(
                old(self),
                terminated_expression(old(self).tokens(), old(self).position()).used,
            ),
    {
        match self.terminated_expression() {
            Err(error) => Err(error),
            Ok(expression) => Ok(Stmt::Expression(ExprStmt { expression })),
        }
    }

    /// An expression and the `;` behind it.
    fn terminated_expression(&mut self) -> (r: Result<Expr, Error>)
        requires
            old(self).wf(),
        ensures
            expr_outcome(r) == terminated_expression(
                old(self).tokens(),
                old(self).position(),
            ).outcome,
            final(self).stepped_from(
                old(self),
                terminated_expression(old(self).tokens(), old(self).position()).used,
            ),
    {
        let expression = match self.expression() {
            Err(error) => {
                return Err(error);
            },
            Ok(expression) => expression,
        };
        match self.consume_next_token(Token::Semicolon) {
            Err(error) => Err(error),
            Ok(_) => Ok(expression),
        }
    }

    // --- Expression Rules ---
    fn expression(&mut self) -> (r: Result<Expr, Error>)
        requires
            old(self).wf(),
        ensures
            expr_outcome(r) == expression(old(self).tokens(), old(self).position()).outcome,
            final(self).stepped_from(
                old(self),
                expression(old(self).tokens(), old(self).position()).used,
            ),
        decreases remaining(old(self).tokens(), old(self).position()), 12nat,
    {
        self.ternary()
    }

    fn ternary(&mut self) -> (r: Result<Expr, Error>)
        requires
            old(self).wf(),
        ensures
            expr_outcome(r) == ternary(old(self).tokens(), old(self).position()).outcome,
            final(self).stepped_from(
                old(self),
                ternary(old(self).tokens(), old(self).position()).used,
            ),
        decreases remaining(old(self).tokens(), old(self).position()), 11nat,
    {
        let ghost all = self.tokens();
        let ghost start = self.position();
        let mut expr = match self.binary(Level::Equality) {
            Err(error) => {
                return Err(error);
            },
            Ok(expr) => expr,
        };
        loop
            invariant
                self.wf(),
                self.tokens == old(self).tokens,
                self.error_log == old(self).error_log,
                all == self.tokens(),
                start == old(self).position(),
                start <= self.position(),
                ternary(all, start).outcome == ternary_rest(all, self.position(), expr@).outcome,
                ternary(all, start).used == self.position() - start + ternary_rest(
                    all,
                    self.position(),
                    expr@,
                ).used,
            ensures
                self.stepped_from(old(self), ternary(all, start).used),
                ternary(all, start).outcome == Ok::<ExprView, ErrorView>(expr@),
            decreases remaining(all, self.position()),
        {
            let ghost here = self.position();
            let ghost condition = expr@;
            match self.peek_next_token() {
                Some(source_token) => {
                    if matches!(source_token.token, Token::QuestionMark) {
                        let _ = self.advance_token_index();
                        let left_result = match self.binary(Level::Equality) {
                            Err(error) => {
                                return Err(error);
                            },
                            Ok(e) => e,
                        };
                        match self.consume_next_token(Token::Colon) {
                            Err(error) => {
                                return Err(error);
                            },
                            Ok(_) => {},
                        }
                        let right_result = match self.binary(Level::Equality) {
                            Err(error) => {
                                return Err(error);
                            },
                            Ok(e) => e,
                        };
                        expr = Expr::Ternary(
                            TernaryExpr {
                                condition: Box::new(expr),
                                left_result: Box::new(left_result),
                                right_result: Box::new(right_result),
                            },
                        );
                    } else {
                        break ;
                    }
                },
                None => {
                    break ;
                },
            }
        }
        Ok(expr)
    }

    /// One level of left-associative binary operators: equality, comparison,
    /// term or factor.
    fn binary(&mut self, level: Level) -> (r: Result<Expr, Error>)
        requires
            old(self).wf(),
        ensures
            expr_outcome(r) == binary(level, old(self).tokens(), old(self).position()).outcome,
            final(self).stepped_from(
                old(self),
                binary(level, old(self).tokens(), old(self).position()).used,
            ),
        decreases remaining(old(self).tokens(), old(self).position()), 2 * level.rank() + 1,
    {
        let ghost all = self.tokens();
        let ghost start = self.position();
        let mut expr = match self.operand(level) {
            Err(error) => {
                return Err(error);
            },
            Ok(expr) => expr,
        };
        loop
            invariant
                self.wf(),
                self.tokens == old(self).tokens,
                self.error_log == old(self).error_log,
                all == self.tokens(),
                start == old(self).position(),
                start <= self.position(),
                binary(level, all, start).outcome == binary_rest(
                    level,
                    all,
                    self.position(),
                    expr@,
                ).outcome,
                binary(level, all, start).used == self.position() - start + binary_rest(
                    level,
                    all,
                    self.position(),
                    expr@,
                ).used,
            ensures
                self.stepped_from(old(self), binary(level, all, start).used),
                binary(level, all, start).outcome == Ok::<ExprView, ErrorView>(expr@),
            decreases remaining(all, self.position()),
        {
            match self.peek_next_token() {
                Some(source_token) => {
                    if level_has(level, &source_token.token) {
                        let _ = self.advance_token_index();
                        let operator = source_token.token;
                        let right = match self.operand(level) {
                            Err(error) => {
                                return Err(error);
                            },
                            Ok(e) => e,
                        };
                        expr = Expr::Binary(
                            BinaryExpr { left: Box::new(expr), operator, right: Box::new(right) },
                        );
                    } else {
                        break ;
                    }
                },
                None => {
                    break ;
                },
            }
        }
        Ok(expr)
    }

    /// An operand of `level`: an expression of the next tighter level.
    fn operand(&mut self, level: Level) -> (r: Result<Expr, Error>)
        requires
            old(self).wf(),
        ensures
            expr_outcome(r) == operand(level, old(self).tokens(), old(self).position()).outcome,
            final(self).stepped_from(
                old(self),
                operand(level, old(self).tokens(), old(self).position()).used,
            ),
        decreases remaining(old(self).tokens(), old(self).position()), 2 * level.rank(),
    {
        match level {
            Level::Equality => self.binary(Level::Comparison),
            Level::Comparison => self.binary(Level::Term),
            Level::Term => self.binary(Level::Factor),
            Level::Factor => self.unary(),
        }
    }

    fn unary(&mut self) -> (r: Result<Expr, Error>)
        requires
            old(self).wf(),
        ensures
            expr_outcome(r) == unary(old(self).tokens(), old(self).position()).outcome,
            final(self).stepped_from(
                old(self),
                unary(old(self).tokens(), old(self).position()).used,
            ),
        decreases remaining(old(self).tokens(), old(self).position()), 1nat,
    {
        if let Some(source_token) = self.peek_next_token() {
            if matches!(source_token.token, Token::Bang | Token::Minus) {
                let _ = self.advance_token_index();
                let operator = source_token.token;
                return match self.unary() {
                    Err(error) => Err(error),
                    Ok(right) => Ok(Expr::Unary(UnaryExpr { operator, right: Box::new(right) })),
                };
            }
        }
        // At the end of the input the primary rule reports what is missing.
        self.primary()
    }

    fn primary(&mut self) -> (r: Result<Expr, Error>)
        requires
            old(self).wf(),
        ensures
            expr_outcome(r) == primary(old(self).tokens(), old(self).position()).outcome,
            final(self).stepped_from(
                old(self),
                primary(old(self).tokens(), old(self).position()).used,
            ),
        decreases remaining(old(self).tokens(), old(self).position()), 0nat,
    {
        if let Some(source_token) = self.peek_next_token() {
            let _ = self.advance_token_index();
            match &source_token.token {
                Token::False => Ok(Expr::Literal(LiteralKind::Boolean(false))),
                Token::True => Ok(Expr::Literal(LiteralKind::Boolean(true))),
                Token::Nil => Ok(Expr::Literal(LiteralKind::Nil)),
                Token::Number(value) => Ok(Expr::Literal(LiteralKind::Number(value.clone()))),
                Token::String(value) => Ok(Expr::Literal(LiteralKind::String(value.clone()))),
                Token::LeftParen => {
                    let expr = match self.expression() {
                        Err(error) => {
                            return Err(error);
                        },
                        Ok(expr) => expr,
                    };
                    match self.consume_next_token(Token::RightParen) {
                        Err(error) => Err(error),
                        Ok(_) => Ok(Expr::Grouping(Box::new(expr))),
                    }
                },
                _ => Err(no_expression_error(&source_token)),
            }
        } else {
            let mut message = String::from_str("Ran out of tokens while satisfying expression rule");
            if self.index > 0 {
                Err(
                    Error::located(
                        ErrorKind::Parsing,
                        self.previous_token().location_span,
                        message,
                    ),
                )
            } else {
                Err(Error::plain(ErrorKind::Parsing, message))
            }
        }
    }
}

impl ErrorLoggable for Parser {
    fn error_log(&self) -> (log: &ErrorLog)
        ensures
            log@ == self.errors(),
    {
        &self.error_log
    }
}

} // verus!
