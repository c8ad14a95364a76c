//! What parsing means: for each rule of the grammar, what it yields at a
//! place in the token sequence and how many tokens it uses.
//!
//! ```text
//! program     -> declaration* EOF
//! declaration -> "var" IDENTIFIER ( "=" expression )? ";" | statement
//! statement   -> "print" expression ";" | expression ";"
//! expression  -> ternary
//! ternary     -> equality ( "?" equality ":" equality )*
//! equality    -> comparison ( ( "!=" | "==" ) comparison )*
//! comparison  -> term ( ( ">" | ">=" | "<" | "<=" ) term )*
//! term        -> factor ( ( "-" | "+" ) factor )*
//! factor      -> unary ( ( "/" | "*" ) unary )*
//! unary       -> ( "!" | "-" ) unary | primary
//! primary     -> NUMBER | STRING | "true" | "false" | "nil" | "(" expression ")"
//! ```
//!
//! The token sequence is the scanner's without its whitespace. Places in it
//! are indices; the end-of-input token is never passed.
use vstd::prelude::*;
use crate::ast::{ExprView, LiteralView, StmtView};
use crate::errors::{ErrorKind, ErrorView};
use crate::token::{SourceTokenView, TokenView};

verus! {

/// The tokens of `tokens` that are not whitespace, in order.
pub open spec fn significant(tokens: Seq<SourceTokenView>) -> Seq<SourceTokenView>
    decreases tokens.len(),
{
    if tokens.len() == 0 {
        Seq::empty()
    } else if tokens.last().token is Whitespace {
        significant(tokens.drop_last())
    } else {
        significant(tokens.drop_last()).push(tokens.last())
    }
}

/// Leaving whitespace out of a sequence that holds none changes nothing.
pub proof fn lemma_significant_twice(tokens: Seq<SourceTokenView>)
    ensures
        significant(significant(tokens)) == significant(tokens),
        forall|i: int|
            0 <= i < significant(tokens).len() ==> !(#[trigger] significant(
                tokens,
            )[i].token is Whitespace),
    decreases tokens.len(),
{
    if tokens.len() > 0 {
        lemma_significant_twice(tokens.drop_last());
        let kept = significant(tokens.drop_last());
        if !(tokens.last().token is Whitespace) {
            assert(kept.push(tokens.last()).drop_last() =~= kept);
        }
    }
}

/// The place of the first end-of-input token at or after `p`, or the length
/// of the sequence if there is none.
pub open spec fn end_of(tokens: Seq<SourceTokenView>, p: int) -> int
    decreases tokens.len() - p,
{
    if 0 <= p < tokens.len() && !(tokens[p].token is Eof) {
        end_of(tokens, p + 1)
    } else {
        p
    }
}

/// Whether an end-of-input token stands at or after `p`.
pub open spec fn has_end(tokens: Seq<SourceTokenView>, p: int) -> bool {
    0 <= p && end_of(tokens, p) < tokens.len()
}

/// Whether `p` is at the end of the input: on the end-of-input token, or
/// outside the sequence.
pub open spec fn at_end(tokens: Seq<SourceTokenView>, p: int) -> bool {
    p < 0 || p >= tokens.len() || tokens[p].token is Eof
}

/// The token at `p`, if the input does not end there.
pub open spec fn peek(tokens: Seq<SourceTokenView>, p: int) -> Option<SourceTokenView> {
    if at_end(tokens, p) {
        None
    } else {
        Some(tokens[p])
    }
}

/// How many tokens stand at or after `p`: the measure by which the rules
/// recur.
pub open spec fn remaining(tokens: Seq<SourceTokenView>, p: int) -> nat {
    if p >= tokens.len() {
        0
    } else {
        (tokens.len() - p) as nat
    }
}

/// Whether a token of the variant of `target` stands at `p`.
pub open spec fn next_is(tokens: Seq<SourceTokenView>, p: int, target: TokenView) -> bool {
    peek(tokens, p) is Some && peek(tokens, p)->0.token.same_variant(target)
}

/// What a rule yields and how many tokens it uses.
pub struct Parsed<T> {
    pub outcome: Result<T, ErrorView>,
    pub used: nat,
}

/// The error of a place at which no token stands: the token sequence lacks
/// its end-of-input token.
pub open spec fn missing_end() -> ErrorView {
    ErrorView::plain(ErrorKind::Parsing, "Consumed all tokens without encountering EOF"@)
}

/// The error of a token that is not of the variant that the rule expects.
pub open spec fn unexpected_token(expected: TokenView, found: SourceTokenView) -> ErrorView {
    ErrorView::located(
        ErrorKind::Parsing,
        found.location_span,
        "Expected '"@ + expected.rendered() + "' after expression, instead found '"@
            + found.token.rendered() + "'"@,
    )
}

/// The error of an input that ends where the rule expects a token.
pub open spec fn unexpected_end(expected: TokenView) -> ErrorView {
    ErrorView::plain(
        ErrorKind::Parsing,
        "Reached end of file while expecting '"@ + expected.rendered() + "'"@,
    )
}

/// The error of a token that starts no expression.
pub open spec fn no_expression(found: SourceTokenView) -> ErrorView {
    ErrorView::located(
        ErrorKind::Parsing,
        found.location_span,
        "Expected value or expression, found '"@ + found.token.rendered() + "'"@,
    )
}

/// The error of an expression that the end of the input cuts short. It
/// points at the last token before the end, if there is one.
pub open spec fn out_of_tokens(tokens: Seq<SourceTokenView>, p: int) -> ErrorView {
    let message = "Ran out of tokens while satisfying expression rule"@;
    if 0 < p <= tokens.len() {
        ErrorView::located(ErrorKind::Parsing, tokens[p - 1].location_span, message)
    } else {
        ErrorView::plain(ErrorKind::Parsing, message)
    }
}

/// Reads one token that must be of the variant of `expected`. The token is
/// used whether it matches or not; the end of the input is not.
pub open spec fn consume(tokens: Seq<SourceTokenView>, p: int, expected: TokenView) -> Parsed<
    SourceTokenView,
> {
    match peek(tokens, p) {
        None => Parsed { outcome: Err(unexpected_end(expected)), used: 0 },
        Some(found) => if found.token.same_variant(expected) {
            Parsed { outcome: Ok(found), used: 1 }
        } else {
            Parsed { outcome: Err(unexpected_token(expected, found)), used: 1 }
        },
    }
}

/// The four levels of left-associative binary operators, from the loosest
/// to the tightest.
#[derive(Debug, Clone, Copy, PartialEq, Eq, Structural)]
pub enum Level {
    Equality,
    Comparison,
    Term,
    Factor,
}

impl Level {
    /// Whether `token` is an operator of the level.
    pub open spec fn has(self, token: TokenView) -> bool {
        match self {
            Level::Equality => token is BangEqual || token is EqualEqual,
            Level::Comparison => token is Greater || token is GreaterEqual || token is Less
                || token is LessEqual,
            Level::Term => token is Minus || token is Plus,
            Level::Factor => token is Slash || token is Star,
        }
    }

    /// How loosely the level binds: a measure for the recursion.
    pub open spec fn rank(self) -> nat {
        match self {
            Level::Equality => 4,
            Level::Comparison => 3,
            Level::Term => 2,
            Level::Factor => 1,
        }
    }
}

/// Whether `token` is a unary operator.
pub open spec fn is_unary_operator(token: TokenView) -> bool {
    token is Bang || token is Minus
}

/// `primary`: a literal, or an expression in parentheses.
pub open spec fn primary(tokens: Seq<SourceTokenView>, p: int) -> Parsed<ExprView>
    decreases remaining(tokens, p), 0nat,
{
    match peek(tokens, p) {
        None => Parsed { outcome: Err(out_of_tokens(tokens, p)), used: 0 },
        Some(found) => match found.token {
            TokenView::False => Parsed {
                outcome: Ok(ExprView::Literal(LiteralView::Boolean(false))),
                used: 1,
            },
            TokenView::True => Parsed {
                outcome: Ok(ExprView::Literal(LiteralView::Boolean(true))),
                used: 1,
            },
            TokenView::Nil => Parsed { outcome: Ok(ExprView::Literal(LiteralView::Nil)), used: 1 },
            TokenView::Number(numeral) => Parsed {
                outcome: Ok(ExprView::Literal(LiteralView::Number(numeral))),
                used: 1,
            },
            TokenView::String(text) => Parsed {
                outcome: Ok(ExprView::Literal(LiteralView::String(text))),
                used: 1,
            },
            TokenView::LeftParen => {
                let inner = expression(tokens, p + 1);
                match inner.outcome {
                    Err(error) => Parsed { outcome: Err(error), used: 1 + inner.used },
                    Ok(e) => {
                        let closing = consume(tokens, p + 1 + inner.used, TokenView::RightParen);
                        Parsed {
                            outcome: match closing.outcome {
                                Err(error) => Err(error),
                                Ok(_) => Ok(ExprView::Grouping(Box::new(e))),
                            },
                            used: 1 + inner.used + closing.used,
                        }
                    },
                }
            },
            _ => Parsed { outcome: Err(no_expression(found)), used: 1 },
        },
    }
}

/// `unary`: any number of `!` and `-`, then a primary.
pub open spec fn unary(tokens: Seq<SourceTokenView>, p: int) -> Parsed<ExprView>
    decreases remaining(tokens, p), 1nat,
{
    match peek(tokens, p) {
        Some(found) => if is_unary_operator(found.token) {
            let right = unary(tokens, p + 1);
            Parsed {
                outcome: match right.outcome {
                    Err(error) => Err(error),
                    Ok(e) => Ok(ExprView::Unary { operator: found.token, right: Box::new(e) }),
                },
                used: 1 + right.used,
            }
        } else {
            primary(tokens, p)
        },
        None => primary(tokens, p),
    }
}

/// An operand of a level: an expression of the next tighter level.
pub open spec fn operand(level: Level, tokens: Seq<SourceTokenView>, p: int) -> Parsed<ExprView>
    decreases remaining(tokens, p), 2 * level.rank(),
{
    match level {
        Level::Equality => binary(Level::Comparison, tokens, p),
        Level::Comparison => binary(Level::Term, tokens, p),
        Level::Term => binary(Level::Factor, tokens, p),
        Level::Factor => unary(tokens, p),
    }
}

/// A level of binary operators: one operand, then operators of the level
/// with an operand each, folded to the left.
pub open spec fn binary(level: Level, tokens: Seq<SourceTokenView>, p: int) -> Parsed<ExprView>
    decreases remaining(tokens, p), 2 * level.rank() + 1,
{
    let first = operand(level, tokens, p);
    match first.outcome {
        Err(error) => Parsed { outcome: Err(error), used: first.used },
        Ok(left) => {
            let rest = binary_rest(level, tokens, p + first.used, left);
            Parsed { outcome: rest.outcome, used: first.used + rest.used }
        },
    }
}

/// What follows the operand `left` at a level: as long as an operator of the
/// level stands next, it and the operand behind it join `left` on the right.
pub open spec fn binary_rest(level: Level, tokens: Seq<SourceTokenView>, p: int, left: ExprView)
    -> Parsed<ExprView>
    decreases remaining(tokens, p), 2 * level.rank(),
{
    match peek(tokens, p) {
        Some(found) => if level.has(found.token) {
            let right = operand(level, tokens, p + 1);
            match right.outcome {
                Err(error) => Parsed { outcome: Err(error), used: 1 + right.used },
                Ok(r) => {
                    let rest = binary_rest(
                        level,
                        tokens,
                        p + 1 + right.used,
                        ExprView::Binary {
                            left: Box::new(left),
                            operator: found.token,
                            right: Box::new(r),
                        },
                    );
                    Parsed { outcome: rest.outcome, used: 1 + right.used + rest.used }
                },
            }
        } else {
            Parsed { outcome: Ok(left), used: 0 }
        },
        None => Parsed { outcome: Ok(left), used: 0 },
    }
}

/// `ternary`: an equality, then any number of `? equality : equality`, each
/// taking all that stands before it as its condition.
pub open spec fn ternary(tokens: Seq<SourceTokenView>, p: int) -> Parsed<ExprView>
    decreases remaining(tokens, p), 11nat,
{
    let first = binary(Level::Equality, tokens, p);
    match first.outcome {
        Err(error) => Parsed { outcome: Err(error), used: first.used },
        Ok(condition) => {
            let rest = ternary_rest(tokens, p + first.used, condition);
            Parsed { outcome: rest.outcome, used: first.used + rest.used }
        },
    }
}

/// What follows the condition of a ternary. A `?` must be followed by an
/// equality, a `:` and another equality.
pub open spec fn ternary_rest(tokens: Seq<SourceTokenView>, p: int, condition: ExprView) -> Parsed<
    ExprView,
>
    decreases remaining(tokens, p), 10nat,
{
    match peek(tokens, p) {
        Some(found) => if found.token is QuestionMark {
            let left = binary(Level::Equality, tokens, p + 1);
            match left.outcome {
                Err(error) => Parsed { outcome: Err(error), used: 1 + left.used },
                Ok(l) => {
                    let colon = consume(tokens, p + 1 + left.used, TokenView::Colon);
                    match colon.outcome {
                        Err(error) => Parsed {
                            outcome: Err(error),
                            used: 1 + left.used + colon.used,
                        },
                        Ok(_) => {
                            let right = binary(
                                Level::Equality,
                                tokens,
                                p + 1 + left.used + colon.used,
                            );
                            match right.outcome {
                                Err(error) => Parsed {
                                    outcome: Err(error),
                                    used: 1 + left.used + colon.used + right.used,
                                },
                                Ok(r) => {
                                    let rest = ternary_rest(
                                        tokens,
                                        p + 1 + left.used + colon.used + right.used,
                                        ExprView::Ternary {
                                            condition: Box::new(condition),
                                            left_result: Box::new(l),
                                            right_result: Box::new(r),
                                        },
                                    );
                                    Parsed {
                                        outcome: rest.outcome,
                                        used: 1 + left.used + colon.used + right.used + rest.used,
                                    }
                                },
                            }
                        },
                    }
                },
            }
        } else {
            Parsed { outcome: Ok(condition), used: 0 }
        },
        None => Parsed { outcome: Ok(condition), used: 0 },
    }
}

/// `expression`.
pub open spec fn expression(tokens: Seq<SourceTokenView>, p: int) -> Parsed<ExprView>
    decreases remaining(tokens, p), 12nat,
{
    ternary(tokens, p)
}

/// An expression and the `;` that ends its statement.
pub open spec fn terminated_expression(tokens: Seq<SourceTokenView>, p: int) -> Parsed<ExprView> {
    let value = expression(tokens, p);
    match value.outcome {
        Err(error) => Parsed { outcome: Err(error), used: value.used },
        Ok(e) => {
            let semicolon = consume(tokens, p + value.used, TokenView::Semicolon);
            Parsed {
                outcome: match semicolon.outcome {
                    Err(error) => Err(error),
                    Ok(_) => Ok(e),
                },
                used: value.used + semicolon.used,
            }
        },
    }
}

/// `statement`: a print statement or an expression statement.
#[verifier::opaque]
pub open spec fn statement(tokens: Seq<SourceTokenView>, p: int) -> Parsed<StmtView> {
    if next_is(tokens, p, TokenView::Print) {
        let body = terminated_expression(tokens, p + 1);
        Parsed {
            outcome: match body.outcome {
                Err(error) => Err(error),
                Ok(e) => Ok(StmtView::Print(e)),
            },
            used: 1 + body.used,
        }
    } else {
        let body = terminated_expression(tokens, p);
        Parsed {
            outcome: match body.outcome {
                Err(error) => Err(error),
                Ok(e) => Ok(StmtView::Expression(e)),
            },
            used: body.used,
        }
    }
}

/// The token that stands for any identifier where one is expected.
pub open spec fn any_identifier() -> TokenView {
    TokenView::Identifier("example"@)
}

/// What follows `var`: a name, an initializer if a `=` stands next, and `;`.
#[verifier::opaque]
pub open spec fn var_declaration(tokens: Seq<SourceTokenView>, p: int) -> Parsed<StmtView> {
    let name = consume(tokens, p, any_identifier());
    match name.outcome {
        Err(error) => Parsed { outcome: Err(error), used: name.used },
        Ok(identifier) => {
            let q = p + name.used;
            if next_is(tokens, q, TokenView::Equal) {
                let value = terminated_expression(tokens, q + 1);
                Parsed {
                    outcome: match value.outcome {
                        Err(error) => Err(error),
                        Ok(e) => Ok(
                            StmtView::Var {
                                name: identifier.token->Identifier_0,
                                initializer: Some(e),
                            },
                        ),
                    },
                    used: name.used + 1 + value.used,
                }
            } else {
                let semicolon = consume(tokens, q, TokenView::Semicolon);
                Parsed {
                    outcome: match semicolon.outcome {
                        Err(error) => Err(error),
                        Ok(_) => Ok(
                            StmtView::Var {
                                name: identifier.token->Identifier_0,
                                initializer: None,
                            },
                        ),
                    },
                    used: name.used + semicolon.used,
                }
            }
        },
    }
}

/// Whether a statement may start with `token`: the keywords at which the
/// parser takes up its work again after an error.
pub open spec fn starts_statement(token: TokenView) -> bool {
    token is Class || token is For || token is Fun || token is If || token is Print
        || token is Return || token is Var || token is While
}

/// How many tokens the parser skips from `p` on after an error: up to the
/// end of the input, to just behind a `;`, or to just before a keyword that
/// starts a statement, whichever comes first.
pub open spec fn skipped(tokens: Seq<SourceTokenView>, p: int) -> nat
    decreases tokens.len() - p,
{
    if at_end(tokens, p) {
        0
    } else if p > 0 && tokens[p - 1].token is Semicolon {
        0
    } else if starts_statement(tokens[p].token) {
        0
    } else {
        1 + skipped(tokens, p + 1)
    }
}

/// `declaration`: a variable declaration or a statement. After an error the
/// tokens up to the next statement boundary are used up too.
pub open spec fn declaration(tokens: Seq<SourceTokenView>, p: int) -> Parsed<StmtView> {
    let parsed = if next_is(tokens, p, TokenView::Var) {
        let rest = var_declaration(tokens, p + 1);
        Parsed { outcome: rest.outcome, used: 1 + rest.used }
    } else {
        statement(tokens, p)
    };
    match parsed.outcome {
        Ok(_) => parsed,
        Err(_) => Parsed {
            outcome: parsed.outcome,
            used: parsed.used + skipped(tokens, p + parsed.used),
        },
    }
}

/// A unary expression that does not start at the end of the input uses at
/// least one token.
pub proof fn lemma_unary_advances(tokens: Seq<SourceTokenView>, p: int)
    requires
        !at_end(tokens, p),
    ensures
        primary(tokens, p).used >= 1,
        unary(tokens, p).used >= 1,
{
    assert(peek(tokens, p) is Some);
    assert(primary(tokens, p).used >= 1);
}

/// An operand and a whole level that do not start at the end of the input
/// use at least one token.
pub proof fn lemma_binary_advances(level: Level, tokens: Seq<SourceTokenView>, p: int)
    requires
        !at_end(tokens, p),
    ensures
        operand(level, tokens, p).used >= 1,
        binary(level, tokens, p).used >= 1,
    decreases level.rank(),
{
    match level {
        Level::Equality => lemma_binary_advances(Level::Comparison, tokens, p),
        Level::Comparison => lemma_binary_advances(Level::Term, tokens, p),
        Level::Term => lemma_binary_advances(Level::Factor, tokens, p),
        Level::Factor => lemma_unary_advances(tokens, p),
    }
}

/// An expression that does not start at the end of the input uses at least
/// one token.
pub proof fn lemma_expression_advances(tokens: Seq<SourceTokenView>, p: int)
    requires
        !at_end(tokens, p),
    ensures
        expression(tokens, p).used >= 1,
        terminated_expression(tokens, p).used >= 1,
{
    lemma_binary_advances(Level::Equality, tokens, p);
}

/// A declaration that does not start at the end of the input uses at least
/// one token, whether it succeeds or fails.
pub proof fn lemma_declaration_advances(tokens: Seq<SourceTokenView>, p: int)
    requires
        !at_end(tokens, p),
    ensures
        declaration(tokens, p).used >= 1,
{
    reveal(statement);
    lemma_expression_advances(tokens, p);
}

/// The statements and the errors of a parse, each in the order of the
/// tokens.
pub struct Program {
    pub statements: Seq<StmtView>,
    pub errors: Seq<ErrorView>,
}

/// `program` from `p` on: declaration after declaration up to the end of the
/// input. A declaration that fails gives its error and no statement.
pub open spec fn program(tokens: Seq<SourceTokenView>, p: int) -> Program
    decreases remaining(tokens, p),
    via program_decreases
{
    if at_end(tokens, p) {
        Program { statements: Seq::empty(), errors: Seq::empty() }
    } else {
        let first = declaration(tokens, p);
        let rest = program(tokens, p + first.used);
        match first.outcome {
            Ok(statement) => Program {
                statements: seq![statement] + rest.statements,
                errors: rest.errors,
            },
            Err(error) => Program { statements: rest.statements, errors: seq![error] + rest.errors },
        }
    }
}

#[via_fn]
proof fn program_decreases(tokens: Seq<SourceTokenView>, p: int) {
    if !at_end(tokens, p) {
        lemma_declaration_advances(tokens, p);
    }
}

/// The first end-of-input token at or after `p` stands no later than any
/// end-of-input token there.
pub proof fn lemma_end_of_bound(tokens: Seq<SourceTokenView>, p: int, e: int)
    requires
        0 <= p <= e < tokens.len(),
        tokens[e].token is Eof,
    ensures
        end_of(tokens, p) <= e,
    decreases e - p,
{
    if p < e && !(tokens[p].token is Eof) {
        lemma_end_of_bound(tokens, p + 1, e);
    }
}

/// A token sequence that ends with the end-of-input token can be parsed:
/// without its whitespace it still holds that token.
pub proof fn lemma_significant_has_end(tokens: Seq<SourceTokenView>)
    requires
        tokens.len() > 0,
        tokens.last().token is Eof,
    ensures
        has_end(significant(tokens), 0),
{
    let kept = significant(tokens);
    assert(kept == significant(tokens.drop_last()).push(tokens.last()));
    lemma_end_of_bound(kept, 0, kept.len() - 1);
}

/// How many `;` stand at or after `p`.
pub open spec fn semicolons(tokens: Seq<SourceTokenView>, p: int) -> nat
    decreases tokens.len() - p,
{
    if 0 <= p < tokens.len() {
        if tokens[p].token is Semicolon {
            1 + semicolons(tokens, p + 1)
        } else {
            semicolons(tokens, p + 1)
        }
    } else {
        0
    }
}

/// The `;` from `p` on are those from `q` on and those between the two.
pub proof fn lemma_semicolons_from(tokens: Seq<SourceTokenView>, p: int, q: int)
    requires
        0 <= p <= q,
    ensures
        semicolons(tokens, p) >= semicolons(tokens, q),
        p < q <= tokens.len() && tokens[q - 1].token is Semicolon ==> semicolons(tokens, p) >= 1
            + semicolons(tokens, q),
    decreases q - p,
{
    if p < q {
        lemma_semicolons_from(tokens, p + 1, q);
    }
}

/// Where a `;` is read with success, a `;` stands.
pub proof fn lemma_consumed_semicolon(tokens: Seq<SourceTokenView>, p: int)
    requires
        consume(tokens, p, TokenView::Semicolon).outcome is Ok,
    ensures
        consume(tokens, p, TokenView::Semicolon).used == 1,
        0 <= p < tokens.len(),
        tokens[p].token is Semicolon,
{
}

/// An expression with its `;` ends with that `;`.
pub proof fn lemma_terminated_expression_ends(tokens: Seq<SourceTokenView>, p: int)
    requires
        0 <= p,
        terminated_expression(tokens, p).outcome is Ok,
    ensures
        terminated_expression(tokens, p).used >= 1,
        p + terminated_expression(tokens, p).used <= tokens.len(),
        tokens[p + terminated_expression(tokens, p).used - 1].token is Semicolon,
{
    let value = expression(tokens, p);
    lemma_consumed_semicolon(tokens, p + value.used);
}

/// A statement that succeeds ends with a `;`.
pub proof fn lemma_statement_ends(tokens: Seq<SourceTokenView>, p: int)
    requires
        0 <= p,
        statement(tokens, p).outcome is Ok,
    ensures
        statement(tokens, p).used >= 1,
        p + statement(tokens, p).used <= tokens.len(),
        tokens[p + statement(tokens, p).used - 1].token is Semicolon,
{
    reveal(statement);
    if next_is(tokens, p, TokenView::Print) {
        lemma_terminated_expression_ends(tokens, p + 1);
    } else {
        lemma_terminated_expression_ends(tokens, p);
    }
}

/// A variable declaration that succeeds ends with a `;`.
pub proof fn lemma_var_declaration_ends(tokens: Seq<SourceTokenView>, p: int)
    requires
        0 <= p,
        var_declaration(tokens, p).outcome is Ok,
    ensures
        var_declaration(tokens, p).used >= 1,
        p + var_declaration(tokens, p).used <= tokens.len(),
        tokens[p + var_declaration(tokens, p).used - 1].token is Semicolon,
{
    reveal(var_declaration);
    let name = consume(tokens, p, any_identifier());
    let q = p + name.used;
    if next_is(tokens, q, TokenView::Equal) {
        lemma_terminated_expression_ends(tokens, q + 1);
    } else {
        lemma_consumed_semicolon(tokens, q);
    }
}

/// A declaration that succeeds ends with a `;`.
pub proof fn lemma_declaration_ends_with_semicolon(tokens: Seq<SourceTokenView>, p: int)
    requires
        0 <= p,
        declaration(tokens, p).outcome is Ok,
    ensures
        declaration(tokens, p).used >= 1,
        p + declaration(tokens, p).used <= tokens.len(),
        tokens[p + declaration(tokens, p).used - 1].token is Semicolon,
{
    if next_is(tokens, p, TokenView::Var) {
        lemma_var_declaration_ends(tokens, p + 1);
    } else {
        lemma_statement_ends(tokens, p);
    }
}

/// A parse gives no more statements than the tokens hold `;`: every
/// statement ends with one of its own.
pub proof fn lemma_statements_bounded(tokens: Seq<SourceTokenView>, p: int)
    requires
        0 <= p,
    ensures
        program(tokens, p).statements.len() <= semicolons(tokens, p),
    decreases remaining(tokens, p),
{
    if !at_end(tokens, p) {
        let first = declaration(tokens, p);
        lemma_declaration_advances(tokens, p);
        lemma_statements_bounded(tokens, p + first.used);
        if first.outcome is Ok {
            lemma_declaration_ends_with_semicolon(tokens, p);
        }
        lemma_semicolons_from(tokens, p, p + first.used);
    }
}

/// A parse gives one error for each declaration that fails and one
/// statement for each that succeeds, and no more of both together than
/// there are tokens before the end of the input.
pub proof fn lemma_parse_bounded(tokens: Seq<SourceTokenView>, p: int)
    requires
        0 <= p,
    ensures
        program(tokens, p).statements.len() + program(tokens, p).errors.len() <= remaining(
            tokens,
            p,
        ),
    decreases remaining(tokens, p),
{
    if !at_end(tokens, p) {
        lemma_declaration_advances(tokens, p);
        lemma_parse_bounded(tokens, p + declaration(tokens, p).used);
    }
}

/// Whether the parser takes up its work at `p` after an error: at the end
/// of the input, just behind a `;`, or just before a keyword that starts a
/// statement.
pub open spec fn is_boundary(tokens: Seq<SourceTokenView>, p: int) -> bool {
    at_end(tokens, p) || (p > 0 && tokens[p - 1].token is Semicolon) || starts_statement(
        tokens[p].token,
    )
}

/// Skipping after an error stops at the first statement boundary: no error
/// takes more of the input with it than the rest of its own statement.
pub proof fn lemma_skipping_stops_at_boundary(tokens: Seq<SourceTokenView>, p: int)
    ensures
        is_boundary(tokens, p + skipped(tokens, p)),
        forall|q: int| p <= q < p + skipped(tokens, p) ==> !is_boundary(tokens, q),
    decreases remaining(tokens, p),
{
    if !is_boundary(tokens, p) {
        lemma_skipping_stops_at_boundary(tokens, p + 1);
    }
}

/// A declaration that fails ends at a statement boundary.
pub proof fn lemma_failure_ends_at_boundary(tokens: Seq<SourceTokenView>, p: int)
    requires
        declaration(tokens, p).outcome is Err,
    ensures
        is_boundary(tokens, p + declaration(tokens, p).used),
{
    let parsed = if next_is(tokens, p, TokenView::Var) {
        let rest = var_declaration(tokens, p + 1);
        Parsed { outcome: rest.outcome, used: 1 + rest.used }
    } else {
        statement(tokens, p)
    };
    lemma_skipping_stops_at_boundary(tokens, p + parsed.used);
}

/// Whether a rule that fails, fails with a parsing error.
pub open spec fn fails_as_parsing<T>(parsed: Parsed<T>) -> bool {
    parsed.outcome is Err ==> parsed.outcome->Err_0.kind == ErrorKind::Parsing
}

/// A primary that fails, fails with a parsing error.
pub proof fn lemma_primary_fails_as_parsing(tokens: Seq<SourceTokenView>, p: int)
    ensures
        fails_as_parsing(primary(tokens, p)),
    decreases remaining(tokens, p), 0nat,
{
    if peek(tokens, p) is Some && peek(tokens, p)->0.token is LeftParen {
        lemma_expression_fails_as_parsing(tokens, p + 1);
    }
}

/// A unary expression that fails, fails with a parsing error.
pub proof fn lemma_unary_fails_as_parsing(tokens: Seq<SourceTokenView>, p: int)
    ensures
        fails_as_parsing(unary(tokens, p)),
    decreases remaining(tokens, p), 1nat,
{
    if peek(tokens, p) is Some && is_unary_operator(peek(tokens, p)->0.token) {
        lemma_unary_fails_as_parsing(tokens, p + 1);
    } else {
        lemma_primary_fails_as_parsing(tokens, p);
    }
}

/// An operand that fails, fails with a parsing error.
pub proof fn lemma_operand_fails_as_parsing(level: Level, tokens: Seq<SourceTokenView>, p: int)
    ensures
        fails_as_parsing(operand(level, tokens, p)),
    decreases remaining(tokens, p), 2 * level.rank(),
{
    match level {
        Level::Equality => lemma_binary_fails_as_parsing(Level::Comparison, tokens, p),
        Level::Comparison => lemma_binary_fails_as_parsing(Level::Term, tokens, p),
        Level::Term => lemma_binary_fails_as_parsing(Level::Factor, tokens, p),
        Level::Factor => lemma_unary_fails_as_parsing(tokens, p),
    }
}

/// A level of binary operators that fails, fails with a parsing error.
pub proof fn lemma_binary_fails_as_parsing(level: Level, tokens: Seq<SourceTokenView>, p: int)
    ensures
        fails_as_parsing(binary(level, tokens, p)),
    decreases remaining(tokens, p), 2 * level.rank() + 1,
{
    let first = operand(level, tokens, p);
    lemma_operand_fails_as_parsing(level, tokens, p);
    if first.outcome is Ok {
        lemma_binary_rest_fails_as_parsing(level, tokens, p + first.used, first.outcome->Ok_0);
    }
}

/// What follows an operand fails with a parsing error, if it fails.
pub proof fn lemma_binary_rest_fails_as_parsing(
    level: Level,
    tokens: Seq<SourceTokenView>,
    p: int,
    left: ExprView,
)
    ensures
        fails_as_parsing(binary_rest(level, tokens, p, left)),
    decreases remaining(tokens, p), 2 * level.rank(),
{
    if peek(tokens, p) is Some && level.has(peek(tokens, p)->0.token) {
        let right = operand(level, tokens, p + 1);
        lemma_operand_fails_as_parsing(level, tokens, p + 1);
        if right.outcome is Ok {
            lemma_binary_rest_fails_as_parsing(
                level,
                tokens,
                p + 1 + right.used,
                ExprView::Binary {
                    left: Box::new(left),
                    operator: peek(tokens, p)->0.token,
                    right: Box::new(right.outcome->Ok_0),
                },
            );
        }
    }
}

/// A ternary that fails, fails with a parsing error.
pub proof fn lemma_ternary_fails_as_parsing(tokens: Seq<SourceTokenView>, p: int)
    ensures
        fails_as_parsing(ternary(tokens, p)),
    decreases remaining(tokens, p), 11nat,
{
    let first = binary(Level::Equality, tokens, p);
    lemma_binary_fails_as_parsing(Level::Equality, tokens, p);
    if first.outcome is Ok {
        lemma_ternary_rest_fails_as_parsing(tokens, p + first.used, first.outcome->Ok_0);
    }
}

/// What follows a condition fails with a parsing error, if it fails.
pub proof fn lemma_ternary_rest_fails_as_parsing(
    tokens: Seq<SourceTokenView>,
    p: int,
    condition: ExprView,
)
    ensures
        fails_as_parsing(ternary_rest(tokens, p, condition)),
    decreases remaining(tokens, p), 10nat,
{
    if peek(tokens, p) is Some && peek(tokens, p)->0.token is QuestionMark {
        let left = binary(Level::Equality, tokens, p + 1);
        lemma_binary_fails_as_parsing(Level::Equality, tokens, p + 1);
        if left.outcome is Ok {
            let colon = consume(tokens, p + 1 + left.used, TokenView::Colon);
            if colon.outcome is Ok {
                let q = p + 1 + left.used + colon.used;
                let right = binary(Level::Equality, tokens, q);
                lemma_binary_fails_as_parsing(Level::Equality, tokens, q);
                if right.outcome is Ok {
                    lemma_ternary_rest_fails_as_parsing(
                        tokens,
                        q + right.used,
                        ExprView::Ternary {
                            condition: Box::new(condition),
                            left_result: Box::new(left.outcome->Ok_0),
                            right_result: Box::new(right.outcome->Ok_0),
                        },
                    );
                }
            }
        }
    }
}

/// An expression that fails, fails with a parsing error.
pub proof fn lemma_expression_fails_as_parsing(tokens: Seq<SourceTokenView>, p: int)
    ensures
        fails_as_parsing(expression(tokens, p)),
        fails_as_parsing(terminated_expression(tokens, p)),
    decreases remaining(tokens, p), 12nat,
{
    lemma_ternary_fails_as_parsing(tokens, p);
}

/// A declaration that fails, fails with a parsing error.
pub proof fn lemma_declaration_fails_as_parsing(tokens: Seq<SourceTokenView>, p: int)
    ensures
        fails_as_parsing(declaration(tokens, p)),
{
    reveal(statement);
    reveal(var_declaration);
    lemma_expression_fails_as_parsing(tokens, p);
    lemma_expression_fails_as_parsing(tokens, p + 1);
    let name = consume(tokens, p + 1, any_identifier());
    lemma_expression_fails_as_parsing(tokens, p + 1 + name.used + 1);
}

/// Every error of a parse is a parsing error.
pub proof fn lemma_parse_errors_are_parsing(tokens: Seq<SourceTokenView>, p: int, i: int)
    requires
        0 <= i < program(tokens, p).errors.len(),
    ensures
        program(tokens, p).errors[i].kind == ErrorKind::Parsing,
    decreases remaining(tokens, p),
{
    if !at_end(tokens, p) {
        let first = declaration(tokens, p);
        lemma_declaration_advances(tokens, p);
        lemma_declaration_fails_as_parsing(tokens, p);
        if first.outcome is Err && i == 0 {
        } else if first.outcome is Err {
            lemma_parse_errors_are_parsing(tokens, p + first.used, i - 1);
        } else {
            lemma_parse_errors_are_parsing(tokens, p + first.used, i);
        }
    }
}

} // verus!
