//! The syntax tree: statements over expressions over literals.
use vstd::prelude::*;
use vstd::string::*;
use crate::token::{Token, TokenView};

verus! {

/// A value: what a literal expression holds and what evaluation yields.
/// A number is held as a numeral; the interpreter hands numerals to the
/// arithmetic it is given and never computes on them itself.
#[derive(Debug, PartialEq)]
pub enum LiteralKind {
    Number(String),
    String(String),
    Boolean(bool),
    Nil,
}

/// A value with its text as a sequence of characters.
pub enum LiteralView {
    Number(Seq<char>),
    String(Seq<char>),
    Boolean(bool),
    Nil,
}

impl View for LiteralKind {
    type V = LiteralView;

    open spec fn view(&self) -> LiteralView {
        match self {
            LiteralKind::Number(numeral) => LiteralView::Number(numeral@),
            LiteralKind::String(text) => LiteralView::String(text@),
            LiteralKind::Boolean(b) => LiteralView::Boolean(*b),
            LiteralKind::Nil => LiteralView::Nil,
        }
    }
}

impl Clone for LiteralKind {
    fn clone(&self) -> (r: Self)
        ensures
            r@ == self@,
    {
        match self {
            LiteralKind::Number(numeral) => LiteralKind::Number(numeral.clone()),
            LiteralKind::String(text) => LiteralKind::String(text.clone()),
            LiteralKind::Boolean(b) => LiteralKind::Boolean(*b),
            LiteralKind::Nil => LiteralKind::Nil,
        }
    }
}

/// What `text` looks like in double quotes with its special characters
/// escaped, as the standard library's debug formatting of a string writes it.
pub uninterp spec fn debug_quoted(text: Seq<char>) -> Seq<char>;

/// Formats `text` with the standard library's `{:?}`: in double quotes, with
/// escapes. The contract only names the result.
#[verifier::external_body]
fn debug_quote(text: &str) -> (r: String)
    ensures
        r@ == debug_quoted(text@),
{
    format!("{:?}", text)
}

impl LiteralView {
    /// The value as a runtime error shows it and as it is printed: the
    /// variant's name, with what it carries in parentheses. A number is
    /// shown by its numeral as the value holds it: a literal as it stands in
    /// the source, a computed number as the arithmetic gave it.
    pub open spec fn debug(self) -> Seq<char> {
        match self {
            LiteralView::Number(numeral) => "Number("@ + numeral + ")"@,
            LiteralView::String(text) => "String("@ + debug_quoted(text) + ")"@,
            LiteralView::Boolean(b) => if b {
                "Boolean(true)"@
            } else {
                "Boolean(false)"@
            },
            LiteralView::Nil => "Nil"@,
        }
    }

    /// The value as a syntax tree shows it.
    pub open spec fn plain(self) -> Seq<char> {
        match self {
            LiteralView::Number(numeral) => numeral,
            LiteralView::String(text) => text,
            LiteralView::Boolean(b) => if b {
                "true"@
            } else {
                "false"@
            },
            LiteralView::Nil => "nil"@,
        }
    }

    /// The truth value of `nil` and of a boolean; a number or a string has
    /// none.
    pub open spec fn truth(self) -> Option<bool> {
        match self {
            LiteralView::Boolean(b) => Some(b),
            LiteralView::Nil => Some(false),
            LiteralView::Number(_) => None,
            LiteralView::String(_) => None,
        }
    }
}

impl LiteralKind {
    /// Renders the value for a runtime error or for printing.
    pub fn to_debug_string(&self) -> (r: String)
        ensures
            r@ == self@.debug(),
    {
        match self {
            LiteralKind::Number(numeral) => {
                let mut r = String::from_str("Number(");
                r.append(numeral.as_str());
                r.append(")");
                r
            },
            LiteralKind::String(text) => {
                let mut r = String::from_str("String(");
                r.append(debug_quote(text.as_str()).as_str());
                r.append(")");
                r
            },
            LiteralKind::Boolean(b) => if *b {
                String::from_str("Boolean(true)")
            } else {
                String::from_str("Boolean(false)")
            },
            LiteralKind::Nil => String::from_str("Nil"),
        }
    }

    /// Renders the value as a syntax tree shows it.
    pub fn to_plain_string(&self) -> (r: String)
        ensures
            r@ == self@.plain(),
    {
        match self {
            LiteralKind::Number(numeral) => numeral.clone(),
            LiteralKind::String(text) => text.clone(),
            LiteralKind::Boolean(b) => if *b {
                String::from_str("true")
            } else {
                String::from_str("false")
            },
            LiteralKind::Nil => String::from_str("nil"),
        }
    }

    /// The truth value of `nil` and of a boolean; `None` for a number or a
    /// string.
    pub fn to_bool_option(&self) -> (r: Option<bool>)
        ensures
            r == self@.truth(),
    {
        match self {
            LiteralKind::Boolean(value) => Some(*value),
            LiteralKind::Nil => Some(false),
            LiteralKind::Number(_) => None,
            LiteralKind::String(_) => None,
        }
    }
}

/// An expression. Every node owns its parts.
#[derive(Debug, PartialEq)]
pub enum Expr {
    Binary(BinaryExpr),
    Ternary(TernaryExpr),
    Grouping(Box<Expr>),
    Unary(UnaryExpr),
    Literal(LiteralKind),
}

/// Two operands and the operator between them.
#[derive(Debug, PartialEq)]
pub struct BinaryExpr {
    pub left: Box<Expr>,
    pub operator: Token,
    pub right: Box<Expr>,
}

/// The one ternary form, `condition ? left_result : right_result`.
#[derive(Debug, PartialEq)]
pub struct TernaryExpr {
    pub condition: Box<Expr>,
    pub left_result: Box<Expr>,
    pub right_result: Box<Expr>,
}

/// An operator and the operand behind it.
#[derive(Debug, PartialEq)]
pub struct UnaryExpr {
    pub operator: Token,
    pub right: Box<Expr>,
}

/// An expression with its tokens and literals as views.
pub enum ExprView {
    Binary { left: Box<ExprView>, operator: TokenView, right: Box<ExprView> },
    Ternary { condition: Box<ExprView>, left_result: Box<ExprView>, right_result: Box<ExprView> },
    Grouping(Box<ExprView>),
    Unary { operator: TokenView, right: Box<ExprView> },
    Literal(LiteralView),
}

/// The view of an expression, node by node.
pub open spec fn expr_view(e: Expr) -> ExprView
    decreases e,
{
    match e {
        Expr::Binary(b) => ExprView::Binary {
            left: Box::new(expr_view(*b.left)),
            operator: b.operator@,
            right: Box::new(expr_view(*b.right)),
        },
        Expr::Ternary(t) => ExprView::Ternary {
            condition: Box::new(expr_view(*t.condition)),
            left_result: Box::new(expr_view(*t.left_result)),
            right_result: Box::new(expr_view(*t.right_result)),
        },
        Expr::Grouping(inner) => ExprView::Grouping(Box::new(expr_view(*inner))),
        Expr::Unary(u) => ExprView::Unary {
            operator: u.operator@,
            right: Box::new(expr_view(*u.right)),
        },
        Expr::Literal(literal) => ExprView::Literal(literal@),
    }
}

impl View for Expr {
    type V = ExprView;

    open spec fn view(&self) -> ExprView {
        expr_view(*self)
    }
}

/// A statement.
#[derive(Debug, PartialEq)]
pub enum Stmt {
    Expression(ExprStmt),
    Print(PrintStmt),
    Var(VarStmt),
}

/// An expression that is evaluated for its effect.
#[derive(Debug, PartialEq)]
pub struct ExprStmt {
    pub expression: Expr,
}

/// An expression whose value is printed.
#[derive(Debug, PartialEq)]
pub struct PrintStmt {
    pub expression: Expr,
}

/// A variable declaration: a name and, if it has one, its initializer.
#[derive(Debug, PartialEq)]
pub struct VarStmt {
    pub name: String,
    pub initializer: Option<Expr>,
}

/// A statement with its expressions as views.
pub enum StmtView {
    Expression(ExprView),
    Print(ExprView),
    Var { name: Seq<char>, initializer: Option<ExprView> },
}

impl View for Stmt {
    type V = StmtView;

    open spec fn view(&self) -> StmtView {
        match self {
            Stmt::Expression(s) => StmtView::Expression(s.expression@),
            Stmt::Print(s) => StmtView::Print(s.expression@),
            Stmt::Var(s) => StmtView::Var {
                name: s.name@,
                initializer: match s.initializer {
                    Some(e) => Some(e@),
                    None => None,
                },
            },
        }
    }
}

/// The views of a sequence of statements.
pub open spec fn stmt_views(statements: Seq<Stmt>) -> Seq<StmtView> {
    Seq::new(statements.len(), |i: int| statements[i]@)
}

} // verus!
