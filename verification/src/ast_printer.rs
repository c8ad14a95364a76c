//! Renders syntax trees as text, in prefix form with every node in
//! parentheses.
use vstd::prelude::*;
use vstd::string::*;
use crate::ast::{Expr, ExprView, Stmt, StmtView};

verus! {

/// An expression in prefix form: `(operator left right)` for a binary,
/// `(condition ? left : right)` for a ternary, `(group inner)` for a
/// grouping, `(operator right)` for a unary, and a literal as it is.
pub open spec fn printed(e: ExprView) -> Seq<char>
    decreases e,
{
    match e {
        ExprView::Binary { left, operator, right } => "("@ + operator.rendered() + " "@ + printed(
            *left,
        ) + " "@ + printed(*right) + ")"@,
        ExprView::Ternary { condition, left_result, right_result } => "("@ + printed(*condition)
            + " ? "@ + printed(*left_result) + " : "@ + printed(*right_result) + ")"@,
        ExprView::Grouping(inner) => "(group "@ + printed(*inner) + ")"@,
        ExprView::Literal(value) => value.plain(),
        ExprView::Unary { operator, right } => "("@ + operator.rendered() + " "@ + printed(*right)
            + ")"@,
    }
}

/// A statement: its kind, a colon, and what it holds.
pub open spec fn printed_statement(s: StmtView) -> Seq<char> {
    match s {
        StmtView::Expression(e) => "Expression Statement: "@ + printed(e),
        StmtView::Print(e) => "Print Statement: "@ + printed(e),
        StmtView::Var { name, initializer } => "Variable Statement: "@ + name + match initializer {
            Some(e) => " = "@ + printed(e),
            None => Seq::empty(),
        },
    }
}

/// Renders an expression in prefix form.
pub fn expr_to_ast_string(expression: &Expr) -> (ret: String)
    ensures
        ret@ == printed(expression@),
    decreases expression,
{
    match expression {
        Expr::Binary(expr) => {
            let mut ret = String::from_str("(");
            ret.append(expr.operator.to_string().as_str());
            ret.append(" ");
            ret.append(expr_to_ast_string(&expr.left).as_str());
            ret.append(" ");
            ret.append(expr_to_ast_string(&expr.right).as_str());
            ret.append(")");
            ret
        },
        Expr::Ternary(expr) => {
            let mut ret = String::from_str("(");
            ret.append(expr_to_ast_string(&expr.condition).as_str());
            ret.append(" ? ");
            ret.append(expr_to_ast_string(&expr.left_result).as_str());
            ret.append(" : ");
            ret.append(expr_to_ast_string(&expr.right_result).as_str());
            ret.append(")");
            ret
        },
        Expr::Grouping(expr) => {
            let mut ret = String::from_str("(group ");
            ret.append(expr_to_ast_string(expr).as_str());
            ret.append(")");
            ret
        },
        Expr::Literal(kind) => kind.to_plain_string(),
        Expr::Unary(expr) => {
            let mut ret = String::from_str("(");
            ret.append(expr.operator.to_string().as_str());
            ret.append(" ");
            ret.append(expr_to_ast_string(&expr.right).as_str());
            ret.append(")");
            ret
        },
    }
}

/// Renders a statement: its kind, a colon, and what it holds.
pub fn stmt_to_ast_string(statement: &Stmt) -> (ret: String)
    ensures
        ret@ == printed_statement(statement@),
{
    match statement {
        Stmt::Expression(stmt) => {
            let mut ret = String::from_str("Expression Statement: ");
            ret.append(expr_to_ast_string(&stmt.expression).as_str());
            ret
        },
        Stmt::Print(stmt) => {
            let mut ret = String::from_str("Print Statement: ");
            ret.append(expr_to_ast_string(&stmt.expression).as_str());
            ret
        },
        Stmt::Var(stmt) => {
            let mut ret = String::from_str("Variable Statement: ");
            ret.append(stmt.name.as_str());
            let ghost head = ret@;
            if let Some(initializer) = &stmt.initializer {
                ret.append(" = ");
                ret.append(expr_to_ast_string(initializer).as_str());
                assert(ret@ =~= head + (" = "@ + printed(initializer@)));
            } else {
                assert(ret@ =~= head + Seq::<char>::empty());
            }
            ret
        },
    }
}

} // verus!
