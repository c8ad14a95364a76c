//! The evaluator: walks an expression tree and yields a value or a runtime
//! error.
//!
//! Numbers are numerals, and the interpreter never computes on them itself:
//! it hands each arithmetic step and each comparison of two numbers to the
//! two functions it is given. Everything else is decided here: the order of
//! evaluation, which operands an operator accepts, equality across variants,
//! truthiness, and the error for each way an expression can go wrong.
//!
//! Evaluation follows the tree, so the depth of the call stack grows with
//! the depth of the expression.
//!
//! The rules are stated three times over, each on top of the one before:
//! - `unary_step`, `binary_step` and `condition_value` say what an operator
//!   asks for once its operands are known. They know of no arithmetic.
//! - `may_evaluate` and `may_run` say what evaluation may end in with any two
//!   functions, whatever they answer.
//! - `evaluate` and `run` say what evaluation ends in under an arithmetic,
//!   which is what two functions compute that answer each request in one way
//!   only.
use vstd::prelude::*;
use vstd::string::*;
use crate::ast::{
    BinaryExpr,
    Expr,
    ExprView,
    LiteralKind,
    LiteralView,
    Stmt,
    StmtView,
    TernaryExpr,
    UnaryExpr,
    stmt_views,
};
use crate::errors::{Error, ErrorKind, ErrorLog, ErrorView};
use crate::text::texts;
use crate::token::{Token, TokenView};

verus! {

/// One step of arithmetic on numerals.
#[derive(Debug, Clone, PartialEq)]
pub enum Calculation {
    Negate(String),
    Subtract(String, String),
    Divide(String, String),
    Multiply(String, String),
    Add(String, String),
}

/// A calculation with its numerals as sequences of characters.
pub enum CalculationView {
    Negate(Seq<char>),
    Subtract(Seq<char>, Seq<char>),
    Divide(Seq<char>, Seq<char>),
    Multiply(Seq<char>, Seq<char>),
    Add(Seq<char>, Seq<char>),
}

impl View for Calculation {
    type V = CalculationView;

    open spec fn view(&self) -> CalculationView {
        match self {
            Calculation::Negate(a) => CalculationView::Negate(a@),
            Calculation::Subtract(a, b) => CalculationView::Subtract(a@, b@),
            Calculation::Divide(a, b) => CalculationView::Divide(a@, b@),
            Calculation::Multiply(a, b) => CalculationView::Multiply(a@, b@),
            Calculation::Add(a, b) => CalculationView::Add(a@, b@),
        }
    }
}

/// One comparison of two numerals.
#[derive(Debug, Clone, PartialEq)]
pub enum Comparison {
    Greater(String, String),
    GreaterEqual(String, String),
    Less(String, String),
    LessEqual(String, String),
    Equal(String, String),
}

/// A comparison with its numerals as sequences of characters.
pub enum ComparisonView {
    Greater(Seq<char>, Seq<char>),
    GreaterEqual(Seq<char>, Seq<char>),
    Less(Seq<char>, Seq<char>),
    LessEqual(Seq<char>, Seq<char>),
    Equal(Seq<char>, Seq<char>),
}

impl View for Comparison {
    type V = ComparisonView;

    open spec fn view(&self) -> ComparisonView {
        match self {
            Comparison::Greater(a, b) => ComparisonView::Greater(a@, b@),
            Comparison::GreaterEqual(a, b) => ComparisonView::GreaterEqual(a@, b@),
            Comparison::Less(a, b) => ComparisonView::Less(a@, b@),
            Comparison::LessEqual(a, b) => ComparisonView::LessEqual(a@, b@),
            Comparison::Equal(a, b) => ComparisonView::Equal(a@, b@),
        }
    }
}

/// An arithmetic: what each calculation and each comparison yields.
pub struct Arithmetic {
    pub calculate: spec_fn(CalculationView) -> Seq<char>,
    pub compare: spec_fn(ComparisonView) -> bool,
}

/// Whether the two functions can be called on every request.
pub open spec fn total<A: Fn(Calculation) -> String, C: Fn(Comparison) -> bool>(
    calculate: &A,
    compare: &C,
) -> bool {
    &&& forall|request: Calculation| #[trigger] calculate.requires((request,))
    &&& forall|request: Comparison| #[trigger] compare.requires((request,))
}

/// Whether the two functions compute the arithmetic `n`: whatever they
/// return for a request is what `n` yields for it.
pub open spec fn follows<A: Fn(Calculation) -> String, C: Fn(Comparison) -> bool>(
    calculate: &A,
    compare: &C,
    n: Arithmetic,
) -> bool {
    &&& forall|request: Calculation, r: String| #[trigger]
        calculate.ensures((request,), r) ==> r@ == (n.calculate)(request@)
    &&& forall|request: Comparison, r: bool| #[trigger]
        compare.ensures((request,), r) ==> r == (n.compare)(request@)
}

/// A runtime error with `message`.
pub open spec fn runtime_error(message: Seq<char>) -> ErrorView {
    ErrorView::plain(ErrorKind::Runtime, message)
}

/// The error of a unary operator on an operand that it does not accept.
pub open spec fn illegal_unary_operand(operator: TokenView, right: LiteralView) -> ErrorView {
    runtime_error(
        "Illegal operand for unary '"@ + operator.rendered() + "' expression: "@ + right.debug(),
    )
}

/// The error of a unary expression whose operator is none.
pub open spec fn illegal_unary_operator(operator: TokenView) -> ErrorView {
    runtime_error("Illegal operator for unary expression: "@ + operator.rendered())
}

/// The error of a binary operator on operands that it does not accept: it
/// names the operator and shows both operands.
pub open spec fn illegal_binary_operand(operator: TokenView, left: LiteralView, right: LiteralView)
    -> ErrorView {
    runtime_error(
        "Illegal operand for binary '"@ + operator.rendered() + "' expression: "@ + left.debug()
            + " "@ + operator.rendered() + " "@ + right.debug(),
    )
}

/// The error of a binary expression whose operator is none.
pub open spec fn illegal_binary_operator(operator: TokenView) -> ErrorView {
    runtime_error("Illegal operator for binary expression: "@ + operator.rendered())
}

/// The error of a ternary whose condition is no boolean.
pub open spec fn illegal_condition(condition: LiteralView) -> ErrorView {
    runtime_error("Non boolean type used as condition in ternary: "@ + condition.debug())
}

/// Truthiness: a boolean is its own truth value, everything else is false.
pub open spec fn truthy(value: LiteralView) -> bool {
    match value.truth() {
        Some(b) => b,
        None => false,
    }
}

/// What is left to do once the operands of an operator are known: nothing,
/// one calculation whose result is the value, or one comparison whose
/// result, negated or not, is the value.
#[derive(Debug, PartialEq)]
pub enum Step {
    Done(LiteralKind),
    Calculate(Calculation),
    Decide { comparison: Comparison, negated: bool },
}

/// A step with its values and requests as views.
pub enum StepView {
    Done(LiteralView),
    Calculate(CalculationView),
    Decide { comparison: ComparisonView, negated: bool },
}

impl View for Step {
    type V = StepView;

    open spec fn view(&self) -> StepView {
        match self {
            Step::Done(value) => StepView::Done(value@),
            Step::Calculate(calculation) => StepView::Calculate(calculation@),
            Step::Decide { comparison, negated } => StepView::Decide {
                comparison: comparison@,
                negated: *negated,
            },
        }
    }
}

/// The value that a step gives under the arithmetic `n`.
pub open spec fn performed(step: StepView, n: Arithmetic) -> LiteralView {
    match step {
        StepView::Done(value) => value,
        StepView::Calculate(calculation) => LiteralView::Number((n.calculate)(calculation)),
        StepView::Decide { comparison, negated } => LiteralView::Boolean(
            (n.compare)(comparison) != negated,
        ),
    }
}

/// The step that decides whether two values are equal, or unequal where
/// `negated`. Two values are equal when they are of the same variant and
/// carry equal payloads; whether two numbers are equal is for the arithmetic
/// to say. Values of different variants are never equal.
pub open spec fn equality_step(a: LiteralView, b: LiteralView, negated: bool) -> StepView {
    match (a, b) {
        (LiteralView::Number(x), LiteralView::Number(y)) => StepView::Decide {
            comparison: ComparisonView::Equal(x, y),
            negated,
        },
        (LiteralView::String(x), LiteralView::String(y)) => StepView::Done(
            LiteralView::Boolean((x == y) != negated),
        ),
        (LiteralView::Boolean(x), LiteralView::Boolean(y)) => StepView::Done(
            LiteralView::Boolean((x == y) != negated),
        ),
        (LiteralView::Nil, LiteralView::Nil) => StepView::Done(LiteralView::Boolean(!negated)),
        _ => StepView::Done(LiteralView::Boolean(negated)),
    }
}

/// Whether two values are equal under the arithmetic `n`.
pub open spec fn equal(a: LiteralView, b: LiteralView, n: Arithmetic) -> bool {
    performed(equality_step(a, b, false), n) == LiteralView::Boolean(true)
}

/// What a unary operator asks for on an evaluated operand: `-` negates a
/// number, `!` negates the truthiness of a boolean or of `nil`. Any other
/// operand, and any other operator, is an error.
pub open spec fn unary_step(operator: TokenView, right: LiteralView) -> Result<
    StepView,
    ErrorView,
> {
    match operator {
        TokenView::Minus => match right {
            LiteralView::Number(x) => Ok(StepView::Calculate(CalculationView::Negate(x))),
            _ => Err(illegal_unary_operand(operator, right)),
        },
        TokenView::Bang => match right {
            LiteralView::Nil | LiteralView::Boolean(_) => Ok(
                StepView::Done(LiteralView::Boolean(!truthy(right))),
            ),
            _ => Err(illegal_unary_operand(operator, right)),
        },
        _ => Err(illegal_unary_operator(operator)),
    }
}

/// The calculation that an arithmetic operator asks for.
pub open spec fn calculation(operator: TokenView, x: Seq<char>, y: Seq<char>) -> Option<
    CalculationView,
> {
    match operator {
        TokenView::Minus => Some(CalculationView::Subtract(x, y)),
        TokenView::Slash => Some(CalculationView::Divide(x, y)),
        TokenView::Star => Some(CalculationView::Multiply(x, y)),
        TokenView::Plus => Some(CalculationView::Add(x, y)),
        _ => None,
    }
}

/// The comparison that an ordering operator asks for.
pub open spec fn comparison(operator: TokenView, x: Seq<char>, y: Seq<char>) -> Option<
    ComparisonView,
> {
    match operator {
        TokenView::Greater => Some(ComparisonView::Greater(x, y)),
        TokenView::GreaterEqual => Some(ComparisonView::GreaterEqual(x, y)),
        TokenView::Less => Some(ComparisonView::Less(x, y)),
        TokenView::LessEqual => Some(ComparisonView::LessEqual(x, y)),
        _ => None,
    }
}

/// What a binary operator asks for on two evaluated operands: arithmetic
/// and ordering want two numbers and ask for one calculation or comparison;
/// equality takes any two values and never fails. Any other operator is an
/// error.
pub open spec fn binary_step(operator: TokenView, left: LiteralView, right: LiteralView) -> Result<
    StepView,
    ErrorView,
> {
    match operator {
        TokenView::Minus | TokenView::Slash | TokenView::Star | TokenView::Plus => match (
            left,
            right,
        ) {
            (LiteralView::Number(x), LiteralView::Number(y)) => Ok(
                StepView::Calculate(calculation(operator, x, y)->0),
            ),
            _ => Err(illegal_binary_operand(operator, left, right)),
        },
        TokenView::Greater | TokenView::GreaterEqual | TokenView::Less | TokenView::LessEqual => match (
            left,
            right,
        ) {
            (LiteralView::Number(x), LiteralView::Number(y)) => Ok(
                StepView::Decide { comparison: comparison(operator, x, y)->0, negated: false },
            ),
            _ => Err(illegal_binary_operand(operator, left, right)),
        },
        TokenView::BangEqual => Ok(equality_step(left, right, true)),
        TokenView::EqualEqual => Ok(equality_step(left, right, false)),
        _ => Err(illegal_binary_operator(operator)),
    }
}

/// What a unary operator asks for once its operand is evaluated: an operand
/// that failed passes its error on.
pub open spec fn unary_plan(operator: TokenView, right: Result<LiteralView, ErrorView>) -> Result<
    StepView,
    ErrorView,
> {
    match right {
        Err(error) => Err(error),
        Ok(value) => unary_step(operator, value),
    }
}

/// What a binary operator asks for once its operands are evaluated: an
/// operand that failed passes its error on, the left one first, and before
/// the operator is looked at.
pub open spec fn binary_plan(
    operator: TokenView,
    left: Result<LiteralView, ErrorView>,
    right: Result<LiteralView, ErrorView>,
) -> Result<StepView, ErrorView> {
    match left {
        Err(error) => Err(error),
        Ok(l) => match right {
            Err(error) => Err(error),
            Ok(r) => binary_step(operator, l, r),
        },
    }
}

/// The truth value of a ternary's condition, which must be a boolean.
pub open spec fn condition_value(condition: LiteralView) -> Result<bool, ErrorView> {
    match condition {
        LiteralView::Boolean(b) => Ok(b),
        _ => Err(illegal_condition(condition)),
    }
}

/// What a ternary yields once its parts are evaluated: the error of the
/// condition, the error of a condition that is no boolean, the error of the
/// left or else of the right result, or the result that the condition
/// selects.
pub open spec fn ternary_result(
    condition: Result<LiteralView, ErrorView>,
    left: Result<LiteralView, ErrorView>,
    right: Result<LiteralView, ErrorView>,
) -> Result<LiteralView, ErrorView> {
    match condition {
        Err(error) => Err(error),
        Ok(c) => match condition_value(c) {
            Err(error) => Err(error),
            Ok(b) => match left {
                Err(error) => Err(error),
                Ok(l) => match right {
                    Err(error) => Err(error),
                    Ok(r) => Ok(
                        if b {
                            l
                        } else {
                            r
                        },
                    ),
                },
            },
        },
    }
}

/// The value of a planned step under the arithmetic `n`, or the error of a
/// plan that failed.
pub open spec fn carried_out(plan: Result<StepView, ErrorView>, n: Arithmetic) -> Result<
    LiteralView,
    ErrorView,
> {
    match plan {
        Ok(step) => Ok(performed(step, n)),
        Err(error) => Err(error),
    }
}

/// The value of an expression under the arithmetic `n`, or the first runtime
/// error met. Evaluation is eager, depth first and left to right: both
/// operands of a binary operator are evaluated before the operator is looked
/// at, and both results of a ternary with a boolean condition are evaluated
/// before one is selected.
pub open spec fn evaluate(e: ExprView, n: Arithmetic) -> Result<LiteralView, ErrorView>
    decreases e,
{
    match e {
        ExprView::Literal(value) => Ok(value),
        ExprView::Grouping(inner) => evaluate(*inner, n),
        ExprView::Unary { operator, right } => carried_out(
            unary_plan(operator, evaluate(*right, n)),
            n,
        ),
        ExprView::Binary { left, operator, right } => carried_out(
            binary_plan(operator, evaluate(*left, n), evaluate(*right, n)),
            n,
        ),
        ExprView::Ternary { condition, left_result, right_result } => ternary_result(
            evaluate(*condition, n),
            evaluate(*left_result, n),
            evaluate(*right_result, n),
        ),
    }
}

/// What two functions may answer: for each request, the answers that the
/// function may give to it.
pub struct Answers {
    pub calculate: spec_fn(CalculationView, Seq<char>) -> bool,
    pub compare: spec_fn(ComparisonView, bool) -> bool,
}

/// Whether `calculate` may answer `request` with `answer`.
pub open spec fn may_calculate<A: Fn(Calculation) -> String>(
    calculate: &A,
    request: CalculationView,
    answer: Seq<char>,
) -> bool {
    exists|asked: Calculation, given: String| #[trigger]
        calculate.ensures((asked,), given) && asked@ == request && given@ == answer
}

/// Whether `compare` may answer `request` with `answer`.
pub open spec fn may_compare<C: Fn(Comparison) -> bool>(
    compare: &C,
    request: ComparisonView,
    answer: bool,
) -> bool {
    exists|asked: Comparison| #[trigger] compare.ensures((asked,), answer) && asked@ == request
}

/// What the two functions may answer.
pub open spec fn answers<A: Fn(Calculation) -> String, C: Fn(Comparison) -> bool>(
    calculate: &A,
    compare: &C,
) -> Answers {
    Answers {
        calculate: |request: CalculationView, answer: Seq<char>|
            may_calculate(calculate, request, answer),
        compare: |request: ComparisonView, answer: bool| may_compare(compare, request, answer),
    }
}

/// Whether every answer that `a` allows is the one that the arithmetic `n`
/// gives.
pub open spec fn agrees(a: Answers, n: Arithmetic) -> bool {
    &&& forall|request: CalculationView, answer: Seq<char>| #[trigger]
        (a.calculate)(request, answer) ==> answer == (n.calculate)(request)
    &&& forall|request: ComparisonView, answer: bool| #[trigger]
        (a.compare)(request, answer) ==> answer == (n.compare)(request)
}

/// The answers of two functions that compute an arithmetic agree with it.
pub proof fn lemma_answers_agree<A: Fn(Calculation) -> String, C: Fn(Comparison) -> bool>(
    calculate: &A,
    compare: &C,
    n: Arithmetic,
)
    requires
        follows(calculate, compare, n),
    ensures
        agrees(answers(calculate, compare), n),
{
}

/// Whether carrying `step` out may give `value`, with answers from `a`.
pub open spec fn may_give(step: StepView, a: Answers, value: LiteralView) -> bool {
    match step {
        StepView::Done(done) => value == done,
        StepView::Calculate(calculation) => value is Number && (a.calculate)(
            calculation,
            value->Number_0,
        ),
        StepView::Decide { comparison, negated } => value is Boolean && (a.compare)(
            comparison,
            value->Boolean_0 != negated,
        ),
    }
}

/// Whether carrying a plan out may end in `out`, with answers from `a`.
pub open spec fn may_carry_out(
    plan: Result<StepView, ErrorView>,
    a: Answers,
    out: Result<LiteralView, ErrorView>,
) -> bool {
    match plan {
        Err(error) => out == Err::<LiteralView, ErrorView>(error),
        Ok(step) => out is Ok && may_give(step, a, out->Ok_0),
    }
}

/// What an evaluation did: the outcome of an expression, and under it the
/// traces of its parts, in the order in which they were evaluated.
pub struct Trace {
    pub out: Result<LiteralView, ErrorView>,
    pub parts: Seq<Trace>,
}

/// Whether `t` is the trace of an evaluation of `e` with answers from `a`:
/// every part that the rules evaluate has its own trace, every request is
/// the one that the rules ask for, and every answer is one that `a` allows
/// for it. The right operand of a binary operator is evaluated only where
/// the left one has a value, and the two results of a ternary only where its
/// condition is a boolean.
pub open spec fn traces(e: ExprView, a: Answers, t: Trace) -> bool
    decreases e,
{
    match e {
        ExprView::Literal(value) => t.out == Ok::<LiteralView, ErrorView>(value),
        ExprView::Grouping(inner) => traces(*inner, a, t),
        ExprView::Unary { operator, right } => {
            &&& t.parts.len() == 1
            &&& traces(*right, a, t.parts[0])
            &&& may_carry_out(unary_plan(operator, t.parts[0].out), a, t.out)
        },
        ExprView::Binary { left, operator, right } => {
            &&& t.parts.len() == 2
            &&& traces(*left, a, t.parts[0])
            &&& t.parts[0].out is Ok ==> traces(*right, a, t.parts[1])
            &&& may_carry_out(binary_plan(operator, t.parts[0].out, t.parts[1].out), a, t.out)
        },
        ExprView::Ternary { condition, left_result, right_result } => {
            &&& t.parts.len() == 3
            &&& traces(*condition, a, t.parts[0])
            &&& t.parts[0].out is Ok && condition_value(t.parts[0].out->Ok_0) is Ok ==> traces(
                *left_result,
                a,
                t.parts[1],
            ) && traces(*right_result, a, t.parts[2])
            &&& t.out == ternary_result(t.parts[0].out, t.parts[1].out, t.parts[2].out)
        },
    }
}

/// Whether evaluating `e` may end in `out`, with answers from `a`.
pub open spec fn may_evaluate(e: ExprView, a: Answers, out: Result<LiteralView, ErrorView>) -> bool {
    exists|t: Trace| #[trigger] traces(e, a, t) && t.out == out
}

/// With answers that agree with an arithmetic, a plan can only end in what
/// the arithmetic makes of it.
pub proof fn lemma_carried_out(
    plan: Result<StepView, ErrorView>,
    a: Answers,
    n: Arithmetic,
    out: Result<LiteralView, ErrorView>,
)
    requires
        agrees(a, n),
        may_carry_out(plan, a, out),
    ensures
        out == carried_out(plan, n),
{
}

/// With answers that agree with an arithmetic, a trace can only end in the
/// value of its expression under that arithmetic.
pub proof fn lemma_trace_is_evaluate(e: ExprView, a: Answers, n: Arithmetic, t: Trace)
    requires
        agrees(a, n),
        traces(e, a, t),
    ensures
        t.out == evaluate(e, n),
    decreases e,
{
    match e {
        ExprView::Literal(_) => {},
        ExprView::Grouping(inner) => {
            lemma_trace_is_evaluate(*inner, a, n, t);
        },
        ExprView::Unary { operator, right } => {
            lemma_trace_is_evaluate(*right, a, n, t.parts[0]);
            lemma_carried_out(unary_plan(operator, t.parts[0].out), a, n, t.out);
        },
        ExprView::Binary { left, operator, right } => {
            lemma_trace_is_evaluate(*left, a, n, t.parts[0]);
            if t.parts[0].out is Ok {
                lemma_trace_is_evaluate(*right, a, n, t.parts[1]);
            }
            lemma_carried_out(
                binary_plan(operator, t.parts[0].out, t.parts[1].out),
                a,
                n,
                t.out,
            );
        },
        ExprView::Ternary { condition, left_result, right_result } => {
            lemma_trace_is_evaluate(*condition, a, n, t.parts[0]);
            if t.parts[0].out is Ok && condition_value(t.parts[0].out->Ok_0) is Ok {
                lemma_trace_is_evaluate(*left_result, a, n, t.parts[1]);
                lemma_trace_is_evaluate(*right_result, a, n, t.parts[2]);
            }
        },
    }
}

/// With answers that agree with an arithmetic, evaluation can only end in
/// the value of the expression under that arithmetic.
pub proof fn lemma_may_evaluate_is_evaluate(
    e: ExprView,
    a: Answers,
    n: Arithmetic,
    out: Result<LiteralView, ErrorView>,
)
    requires
        agrees(a, n),
        may_evaluate(e, a, out),
    ensures
        out == evaluate(e, n),
{
    let t = choose|t: Trace| #[trigger] traces(e, a, t) && t.out == out;
    lemma_trace_is_evaluate(e, a, n, t);
}

/// Equality never fails: `==` and `!=` have a step for any two values.
pub proof fn lemma_equality_never_fails(left: LiteralView, right: LiteralView)
    ensures
        binary_step(TokenView::EqualEqual, left, right) is Ok,
        binary_step(TokenView::BangEqual, left, right) is Ok,
{
}

/// Values of different variants are never equal: `==` on them is false and
/// `!=` is true, with nothing asked of the arithmetic.
pub proof fn lemma_different_variants_differ(a: LiteralView, b: LiteralView, negated: bool)
    requires
        !(a is Number && b is Number),
        !(a is String && b is String),
        !(a is Boolean && b is Boolean),
        !(a is Nil && b is Nil),
    ensures
        equality_step(a, b, negated) == StepView::Done(LiteralView::Boolean(negated)),
{
}

/// Arithmetic and ordering want numbers: with an operand that is none, the
/// operator fails with the error that names it and both operands.
pub proof fn lemma_arithmetic_wants_numbers(
    operator: TokenView,
    left: LiteralView,
    right: LiteralView,
)
    requires
        operator is Minus || operator is Slash || operator is Star || operator is Plus
            || operator is Greater || operator is GreaterEqual || operator is Less
            || operator is LessEqual,
        !(left is Number) || !(right is Number),
    ensures
        binary_step(operator, left, right) == Err::<StepView, ErrorView>(
            illegal_binary_operand(operator, left, right),
        ),
{
}

/// Every error of an evaluation is a runtime error and has no location.
pub proof fn lemma_evaluation_fails_at_runtime(e: ExprView, n: Arithmetic)
    requires
        evaluate(e, n) is Err,
    ensures
        evaluate(e, n)->Err_0.kind == ErrorKind::Runtime,
        evaluate(e, n)->Err_0.description.location is None,
    decreases e,
{
    match e {
        ExprView::Literal(_) => {},
        ExprView::Grouping(inner) => lemma_evaluation_fails_at_runtime(*inner, n),
        ExprView::Unary { operator, right } => {
            if evaluate(*right, n) is Err {
                lemma_evaluation_fails_at_runtime(*right, n);
            }
        },
        ExprView::Binary { left, operator, right } => {
            if evaluate(*left, n) is Err {
                lemma_evaluation_fails_at_runtime(*left, n);
            } else if evaluate(*right, n) is Err {
                lemma_evaluation_fails_at_runtime(*right, n);
            }
        },
        ExprView::Ternary { condition, left_result, right_result } => {
            if evaluate(*condition, n) is Err {
                lemma_evaluation_fails_at_runtime(*condition, n);
            } else if evaluate(*left_result, n) is Err {
                lemma_evaluation_fails_at_runtime(*left_result, n);
            } else if evaluate(*right_result, n) is Err {
                lemma_evaluation_fails_at_runtime(*right_result, n);
            }
        },
    }
}

/// The view of an evaluation's result.
pub open spec fn outcome(r: Result<LiteralKind, Error>) -> Result<LiteralView, ErrorView> {
    match r {
        Ok(value) => Ok(value@),
        Err(error) => Err(error@),
    }
}

fn unary_operand_error(operator: &Token, right: &LiteralKind) -> (e: Error)
    ensures
        e@ == illegal_unary_operand(operator@, right@),
{
    let mut message = String::from_str("Illegal operand for unary '");
    message.append(operator.to_string().as_str());
    message.append("' expression: ");
    message.append(right.to_debug_string().as_str());
    Error::plain(ErrorKind::Runtime, message)
}

fn unary_operator_error(operator: &Token) -> (e: Error)
    ensures
        e@ == illegal_unary_operator(operator@),
{
    let mut message = String::from_str("Illegal operator for unary expression: ");
    message.append(operator.to_string().as_str());
    Error::plain(ErrorKind::Runtime, message)
}

fn binary_operand_error(operator: &Token, left: &LiteralKind, right: &LiteralKind) -> (e: Error)
    ensures
        e@ == illegal_binary_operand(operator@, left@, right@),
{
    let spelled = operator.to_string();
    let mut message = String::from_str("Illegal operand for binary '");
    message.append(spelled.as_str());
    message.append("' expression: ");
    message.append(left.to_debug_string().as_str());
    message.append(" ");
    message.append(spelled.as_str());
    message.append(" ");
    message.append(right.to_debug_string().as_str());
    Error::plain(ErrorKind::Runtime, message)
}

fn binary_operator_error(operator: &Token) -> (e: Error)
    ensures
        e@ == illegal_binary_operator(operator@),
{
    let mut message = String::from_str("Illegal operator for binary expression: ");
    message.append(operator.to_string().as_str());
    Error::plain(ErrorKind::Runtime, message)
}

fn condition_error(condition: &LiteralKind) -> (e: Error)
    ensures
        e@ == illegal_condition(condition@),
{
    let mut message = String::from_str("Non boolean type used as condition in ternary: ");
    message.append(condition.to_debug_string().as_str());
    Error::plain(ErrorKind::Runtime, message)
}

/// The view of a plan.
pub open spec fn plan(r: Result<Step, Error>) -> Result<StepView, ErrorView> {
    match r {
        Ok(step) => Ok(step@),
        Err(error) => Err(error@),
    }
}

/// Truthiness of a value.
pub fn is_truthy(investigatee: LiteralKind) -> (b: bool)
    ensures
        b == truthy(investigatee@),
{
    if let Some(value) = investigatee.to_bool_option() {
        value
    } else {
        false
    }
}

/// The step that decides whether `a` and `b` are equal, or unequal where
/// `negated`.
pub fn plan_equality(a: LiteralKind, b: LiteralKind, negated: bool) -> (step: Step)
    ensures
        step@ == equality_step(a@, b@, negated),
{
    match (a, b) {
        (LiteralKind::Number(x), LiteralKind::Number(y)) => Step::Decide {
            comparison: Comparison::Equal(x, y),
            negated,
        },
        (LiteralKind::String(x), LiteralKind::String(y)) => Step::Done(
            LiteralKind::Boolean((x == y) != negated),
        ),
        (LiteralKind::Boolean(x), LiteralKind::Boolean(y)) => Step::Done(
            LiteralKind::Boolean((x == y) != negated),
        ),
        (LiteralKind::Nil, LiteralKind::Nil) => Step::Done(LiteralKind::Boolean(!negated)),
        _ => Step::Done(LiteralKind::Boolean(negated)),
    }
}

/// What a unary operator asks for on its evaluated operand.
pub fn plan_unary(operator: &Token, right_literal: LiteralKind) -> (r: Result<Step, Error>)
    ensures
        plan(r) == unary_step(operator@, right_literal@),
{
    match operator {
        Token::Minus => match right_literal {
            LiteralKind::Number(value) => Ok(Step::Calculate(Calculation::Negate(value))),
            _ => Err(unary_operand_error(operator, &right_literal)),
        },
        Token::Bang => match right_literal {
            LiteralKind::Nil | LiteralKind::Boolean(_) => Ok(
                Step::Done(LiteralKind::Boolean(!is_truthy(right_literal))),
            ),
            _ => Err(unary_operand_error(operator, &right_literal)),
        },
        _ => Err(unary_operator_error(operator)),
    }
}

/// What a binary operator asks for on its two evaluated operands.
pub fn plan_binary(operator: &Token, left_literal: LiteralKind, right_literal: LiteralKind) -> (r:
    Result<Step, Error>)
    ensures
        plan(r) == binary_step(operator@, left_literal@, right_literal@),
{
    match operator {
        Token::Minus => match (left_literal, right_literal) {
            (LiteralKind::Number(left_value), LiteralKind::Number(right_value)) => Ok(
                Step::Calculate(Calculation::Subtract(left_value, right_value)),
            ),
            (left_literal, right_literal) => Err(
                binary_operand_error(operator, &left_literal, &right_literal),
            ),
        },
        Token::Slash => match (left_literal, right_literal) {
            (LiteralKind::Number(left_value), LiteralKind::Number(right_value)) => Ok(
                Step::Calculate(Calculation::Divide(left_value, right_value)),
            ),
            (left_literal, right_literal) => Err(
                binary_operand_error(operator, &left_literal, &right_literal),
            ),
        },
        Token::Star => match (left_literal, right_literal) {
            (LiteralKind::Number(left_value), LiteralKind::Number(right_value)) => Ok(
                Step::Calculate(Calculation::Multiply(left_value, right_value)),
            ),
            (left_literal, right_literal) => Err(
                binary_operand_error(operator, &left_literal, &right_literal),
            ),
        },
        Token::Plus => match (left_literal, right_literal) {
            (LiteralKind::Number(left_value), LiteralKind::Number(right_value)) => Ok(
                Step::Calculate(Calculation::Add(left_value, right_value)),
            ),
            (left_literal, right_literal) => Err(
                binary_operand_error(operator, &left_literal, &right_literal),
            ),
        },
        Token::Greater => match (left_literal, right_literal) {
            (LiteralKind::Number(left_value), LiteralKind::Number(right_value)) => Ok(
                Step::Decide {
                    comparison: Comparison::Greater(left_value, right_value),
                    negated: false,
                },
            ),
            (left_literal, right_literal) => Err(
                binary_operand_error(operator, &left_literal, &right_literal),
            ),
        },
        Token::GreaterEqual => match (left_literal, right_literal) {
            (LiteralKind::Number(left_value), LiteralKind::Number(right_value)) => Ok(
                Step::Decide {
                    comparison: Comparison::GreaterEqual(left_value, right_value),
                    negated: false,
                },
            ),
            (left_literal, right_literal) => Err(
                binary_operand_error(operator, &left_literal, &right_literal),
            ),
        },
        Token::Less => match (left_literal, right_literal) {
            (LiteralKind::Number(left_value), LiteralKind::Number(right_value)) => Ok(
                Step::Decide {
                    comparison: Comparison::Less(left_value, right_value),
                    negated: false,
                },
            ),
            (left_literal, right_literal) => Err(
                binary_operand_error(operator, &left_literal, &right_literal),
            ),
        },
        Token::LessEqual => match (left_literal, right_literal) {
            (LiteralKind::Number(left_value), LiteralKind::Number(right_value)) => Ok(
                Step::Decide {
                    comparison: Comparison::LessEqual(left_value, right_value),
                    negated: false,
                },
            ),
            (left_literal, right_literal) => Err(
                binary_operand_error(operator, &left_literal, &right_literal),
            ),
        },
        Token::BangEqual => Ok(plan_equality(left_literal, right_literal, true)),
        Token::EqualEqual => Ok(plan_equality(left_literal, right_literal, false)),
        _ => Err(binary_operator_error(operator)),
    }
}

/// The truth value of a ternary's condition, which must be a boolean.
pub fn check_condition(condition_literal: &LiteralKind) -> (r: Result<bool, Error>)
    ensures
        match r {
            Ok(b) => condition_value(condition_literal@) == Ok::<bool, ErrorView>(b),
            Err(error) => condition_value(condition_literal@) == Err::<bool, ErrorView>(error@),
        },
{
    if let LiteralKind::Boolean(condition_value) = condition_literal {
        Ok(*condition_value)
    } else {
        Err(condition_error(condition_literal))
    }
}

/// Carries a step out: asks `calculate` or `compare` where the step asks for
/// arithmetic.
pub fn perform<A: Fn(Calculation) -> String, C: Fn(Comparison) -> bool>(
    step: Step,
    calculate: &A,
    compare: &C,
) -> (value: LiteralKind)
    requires
        total(calculate, compare),
    ensures
        may_give(step@, answers(calculate, compare), value@),
{
    match step {
        Step::Done(value) => value,
        Step::Calculate(calculation) => {
            let ghost request = calculation;
            let answer = calculate(calculation);
            assert(may_calculate(calculate, request@, answer@));
            LiteralKind::Number(answer)
        },
        Step::Decide { comparison, negated } => {
            let ghost request = comparison;
            let answer = compare(comparison);
            assert(may_compare(compare, request@, answer));
            LiteralKind::Boolean(answer != negated)
        },
    }
}

/// Equality of two values; two numbers are compared by `compare`.
pub fn is_equal<C: Fn(Comparison) -> bool>(a: LiteralKind, b: LiteralKind, compare: &C) -> (r:
    bool)
    requires
        forall|request: Comparison| #[trigger] compare.requires((request,)),
    ensures
        match equality_step(a@, b@, false) {
            StepView::Done(value) => r == (value == LiteralView::Boolean(true)),
            StepView::Decide { comparison, negated } => may_compare(compare, comparison, r),
            StepView::Calculate(_) => false,
        },
        forall|n: Arithmetic|
            (forall|request: Comparison, r: bool| #[trigger]
                compare.ensures((request,), r) ==> r == (n.compare)(request@)) ==> r
                == #[trigger] equal(a@, b@, n),
{
    match plan_equality(a, b, false) {
        Step::Done(value) => matches!(value, LiteralKind::Boolean(true)),
        Step::Decide { comparison, negated } => {
            let ghost request = comparison;
            let answer = compare(comparison);
            assert(may_compare(compare, request@, answer));
            answer
        },
        Step::Calculate(_) => vstd::pervasive::unreached(),
    }
}

/// What holds of an evaluation under every arithmetic that the two
/// functions compute follows from what holds of it for any two functions.
proof fn lemma_evaluated<A: Fn(Calculation) -> String, C: Fn(Comparison) -> bool>(
    e: ExprView,
    calculate: &A,
    compare: &C,
    out: Result<LiteralView, ErrorView>,
)
    requires
        may_evaluate(e, answers(calculate, compare), out),
    ensures
        forall|n: Arithmetic| follows(calculate, compare, n) ==> out == #[trigger] evaluate(e, n),
{
    assert forall|n: Arithmetic| follows(calculate, compare, n) implies out == #[trigger] evaluate(
        e,
        n,
    ) by {
        lemma_answers_agree(calculate, compare, n);
        lemma_may_evaluate_is_evaluate(e, answers(calculate, compare), n, out);
    }
}

/// Evaluates an expression.
///
/// Whatever the two functions are, the result is one that evaluation may
/// end in with their answers: the rules decide what is asked of them and
/// what becomes of each answer. For every arithmetic that the two functions
/// compute, the result is therefore the value of the expression under that
/// arithmetic, or the runtime error that evaluation meets first.
pub fn interpret_expression<A: Fn(Calculation) -> String, C: Fn(Comparison) -> bool>(
    expr: &Expr,
    calculate: &A,
    compare: &C,
) -> (r: Result<LiteralKind, Error>)
    requires
        total(calculate, compare),
    ensures
        may_evaluate(expr@, answers(calculate, compare), outcome(r)),
        forall|n: Arithmetic|
            follows(calculate, compare, n) ==> outcome(r) == #[trigger] evaluate(expr@, n),
    decreases expr,
{
    let r = match expr {
        Expr::Literal(literal) => {
            let r = Ok(literal.clone());
            assert(traces(expr@, answers(calculate, compare), Trace { out: outcome(r), parts: seq![] }));
            r
        },
        Expr::Grouping(group) => {
            let r = interpret_expression(group, calculate, compare);
            proof {
                let t = choose|t: Trace| #[trigger]
                    traces((**group)@, answers(calculate, compare), t) && t.out == outcome(r);
                assert(traces(expr@, answers(calculate, compare), t));
            }
            r
        },
        Expr::Unary(unary) => interpret_unary(unary, calculate, compare),
        Expr::Binary(binary) => interpret_binary(binary, calculate, compare),
        Expr::Ternary(ternary) => interpret_ternary(ternary, calculate, compare),
    };
    proof {
        lemma_evaluated(expr@, calculate, compare, outcome(r));
    }
    r
}

/// Evaluates a unary expression: the operand first, then the operator.
pub fn interpret_unary<A: Fn(Calculation) -> String, C: Fn(Comparison) -> bool>(
    unary: &UnaryExpr,
    calculate: &A,
    compare: &C,
) -> (r: Result<LiteralKind, Error>)
    requires
        total(calculate, compare),
    ensures
        may_evaluate(Expr::Unary(*unary)@, answers(calculate, compare), outcome(r)),
        forall|n: Arithmetic|
            follows(calculate, compare, n) ==> outcome(r) == #[trigger] evaluate(
                Expr::Unary(*unary)@,
                n,
            ),
    decreases unary,
{
    let ghost a = answers(calculate, compare);
    let evaluated = interpret_expression(&unary.right, calculate, compare);
    let r = match evaluated {
        Err(error) => Err(error),
        Ok(right_literal) => match plan_unary(&unary.operator, right_literal) {
            Err(error) => Err(error),
            Ok(step) => Ok(perform(step, calculate, compare)),
        },
    };
    proof {
        let right = choose|t: Trace| #[trigger]
            traces((*unary.right)@, a, t) && t.out == outcome(evaluated);
        let t = Trace { out: outcome(r), parts: seq![right] };
        assert(traces(Expr::Unary(*unary)@, a, t));
        lemma_evaluated(Expr::Unary(*unary)@, calculate, compare, outcome(r));
    }
    r
}

/// Evaluates a binary expression: both operands first, left before right,
/// then the operator.
pub fn interpret_binary<A: Fn(Calculation) -> String, C: Fn(Comparison) -> bool>(
    binary: &BinaryExpr,
    calculate: &A,
    compare: &C,
) -> (r: Result<LiteralKind, Error>)
    requires
        total(calculate, compare),
    ensures
        may_evaluate(Expr::Binary(*binary)@, answers(calculate, compare), outcome(r)),
        forall|n: Arithmetic|
            follows(calculate, compare, n) ==> outcome(r) == #[trigger] evaluate(
                Expr::Binary(*binary)@,
                n,
            ),
    decreases binary,
{
    let ghost a = answers(calculate, compare);
    let left_evaluated = interpret_expression(&binary.left, calculate, compare);
    let ghost left = choose|t: Trace| #[trigger]
        traces((*binary.left)@, a, t) && t.out == outcome(left_evaluated);
    let left_literal = match left_evaluated {
        Err(error) => {
            let r = Err(error);
            proof {
                let t = Trace { out: outcome(r), parts: seq![left, left] };
                assert(traces(Expr::Binary(*binary)@, a, t));
                lemma_evaluated(Expr::Binary(*binary)@, calculate, compare, outcome(r));
            }
            return r;
        },
        Ok(value) => value,
    };
    let right_evaluated = interpret_expression(&binary.right, calculate, compare);
    let r = match right_evaluated {
        Err(error) => Err(error),
        Ok(right_literal) => match plan_binary(&binary.operator, left_literal, right_literal) {
            Err(error) => Err(error),
            Ok(step) => Ok(perform(step, calculate, compare)),
        },
    };
    proof {
        let right = choose|t: Trace| #[trigger]
            traces((*binary.right)@, a, t) && t.out == outcome(right_evaluated);
        let t = Trace { out: outcome(r), parts: seq![left, right] };
        assert(traces(Expr::Binary(*binary)@, a, t));
        lemma_evaluated(Expr::Binary(*binary)@, calculate, compare, outcome(r));
    }
    r
}

/// Evaluates a ternary expression: the condition must be a boolean; both
/// results are then evaluated, left before right, and the condition selects
/// one.
pub fn interpret_ternary<A: Fn(Calculation) -> String, C: Fn(Comparison) -> bool>(
    ternary: &TernaryExpr,
    calculate: &A,
    compare: &C,
) -> (r: Result<LiteralKind, Error>)
    requires
        total(calculate, compare),
    ensures
        may_evaluate(Expr::Ternary(*ternary)@, answers(calculate, compare), outcome(r)),
        forall|n: Arithmetic|
            follows(calculate, compare, n) ==> outcome(r) == #[trigger] evaluate(
                Expr::Ternary(*ternary)@,
                n,
            ),
    decreases ternary,
{
    let ghost a = answers(calculate, compare);
    let condition_evaluated = interpret_expression(&ternary.condition, calculate, compare);
    let ghost condition = choose|t: Trace| #[trigger]
        traces((*ternary.condition)@, a, t) && t.out == outcome(condition_evaluated);
    let checked = match condition_evaluated {
        Err(error) => Err(error),
        Ok(condition_literal) => check_condition(&condition_literal),
    };
    let condition_value = match checked {
        Err(error) => {
            let r = Err(error);
            proof {
                let t = Trace { out: outcome(r), parts: seq![condition, condition, condition] };
                assert(traces(Expr::Ternary(*ternary)@, a, t));
                lemma_evaluated(Expr::Ternary(*ternary)@, calculate, compare, outcome(r));
            }
            return r;
        },
        Ok(value) => value,
    };
    let left_evaluated = interpret_expression(&ternary.left_result, calculate, compare);
    let right_evaluated = interpret_expression(&ternary.right_result, calculate, compare);
    let ghost left = choose|t: Trace| #[trigger]
        traces((*ternary.left_result)@, a, t) && t.out == outcome(left_evaluated);
    let ghost right = choose|t: Trace| #[trigger]
        traces((*ternary.right_result)@, a, t) && t.out == outcome(right_evaluated);
    let r = match left_evaluated {
        Err(error) => Err(error),
        Ok(left_result_literal) => match right_evaluated {
            Err(error) => Err(error),
            Ok(right_result_literal) => if condition_value {
                Ok(left_result_literal)
            } else {
                Ok(right_result_literal)
            },
        },
    };
    proof {
        let t = Trace { out: outcome(r), parts: seq![condition, left, right] };
        assert(traces(Expr::Ternary(*ternary)@, a, t));
        lemma_evaluated(Expr::Ternary(*ternary)@, calculate, compare, outcome(r));
    }
    r
}

/// What running a program gives: the lines it prints, and the runtime
/// error that stopped it, if one did.
pub struct Run {
    pub output: Seq<Seq<char>>,
    pub errors: Seq<ErrorView>,
}

/// The expression that a statement evaluates, if it evaluates one: a
/// variable declaration evaluates none.
pub open spec fn evaluated_expression(statement: StmtView) -> Option<ExprView> {
    match statement {
        StmtView::Expression(e) => Some(e),
        StmtView::Print(e) => Some(e),
        StmtView::Var { .. } => None,
    }
}

/// What the first `k` statements give, where the expression of statement `i`
/// evaluates to `outcomes[i]`. An expression statement is evaluated and its
/// value dropped; a print statement prints its value; a variable declaration
/// does nothing. The first runtime error ends the run and is its only error.
pub open spec fn run_upto(
    statements: Seq<StmtView>,
    outcomes: Seq<Result<LiteralView, ErrorView>>,
    k: int,
) -> Run
    decreases k,
{
    if k <= 0 {
        Run { output: Seq::empty(), errors: Seq::empty() }
    } else {
        let before = run_upto(statements, outcomes, k - 1);
        if before.errors.len() > 0 || evaluated_expression(statements[k - 1]) is None {
            before
        } else {
            match outcomes[k - 1] {
                Err(error) => Run { output: before.output, errors: seq![error] },
                Ok(value) => if statements[k - 1] is Print {
                    Run { output: before.output.push(value.debug()), errors: before.errors }
                } else {
                    before
                },
            }
        }
    }
}

/// What the expression of each statement evaluates to under the arithmetic
/// `n`.
pub open spec fn outcomes_under(statements: Seq<StmtView>, n: Arithmetic) -> Seq<
    Result<LiteralView, ErrorView>,
> {
    Seq::new(
        statements.len(),
        |i: int|
            match evaluated_expression(statements[i]) {
                Some(e) => evaluate(e, n),
                None => Ok(LiteralView::Nil),
            },
    )
}

/// The run of a program under the arithmetic `n`.
pub open spec fn run(statements: Seq<StmtView>, n: Arithmetic) -> Run {
    run_upto(statements, outcomes_under(statements, n), statements.len() as int)
}

/// Whether `outcomes` are what the expressions of the statements that were
/// run evaluated to, with answers from `a`: one outcome for each statement
/// from the first on, each one that evaluation may end in, an error only as
/// the last; and where statements are left, an error stopped the run.
pub open spec fn run_traces(
    statements: Seq<StmtView>,
    a: Answers,
    outcomes: Seq<Result<LiteralView, ErrorView>>,
) -> bool {
    &&& outcomes.len() <= statements.len()
    &&& forall|i: int|
        0 <= i < outcomes.len() && evaluated_expression(statements[i]) is Some ==> may_evaluate(
            evaluated_expression(statements[i])->0,
            a,
            #[trigger] outcomes[i],
        ) && (outcomes[i] is Err ==> i == outcomes.len() - 1)
    &&& outcomes.len() < statements.len() ==> run_upto(
        statements,
        outcomes,
        outcomes.len() as int,
    ).errors.len() > 0
}

/// Whether running the statements may give `out`, with answers from `a`.
pub open spec fn may_run(statements: Seq<StmtView>, a: Answers, out: Run) -> bool {
    exists|outcomes: Seq<Result<LiteralView, ErrorView>>| #[trigger]
        run_traces(statements, a, outcomes) && out == run_upto(
            statements,
            outcomes,
            outcomes.len() as int,
        )
}

/// What the first `k` statements give depends on the outcomes of these
/// statements only, and of them only on those of statements that evaluate an
/// expression.
pub proof fn lemma_run_upto_same(
    statements: Seq<StmtView>,
    first: Seq<Result<LiteralView, ErrorView>>,
    second: Seq<Result<LiteralView, ErrorView>>,
    k: int,
)
    requires
        forall|i: int|
            0 <= i < k && evaluated_expression(statements[i]) is Some ==> first[i] == second[i],
    ensures
        run_upto(statements, first, k) == run_upto(statements, second, k),
    decreases k,
{
    if k > 0 {
        lemma_run_upto_same(statements, first, second, k - 1);
    }
}

/// A run that an error has stopped stays as it is.
pub proof fn lemma_run_upto_stays(
    statements: Seq<StmtView>,
    outcomes: Seq<Result<LiteralView, ErrorView>>,
    k: int,
    m: int,
)
    requires
        k <= m,
        run_upto(statements, outcomes, k).errors.len() > 0,
    ensures
        run_upto(statements, outcomes, m) == run_upto(statements, outcomes, k),
    decreases m - k,
{
    if k < m {
        lemma_run_upto_stays(statements, outcomes, k, m - 1);
    }
}

/// With answers that agree with an arithmetic, a run can only give what the
/// program gives under that arithmetic.
pub proof fn lemma_may_run_is_run(statements: Seq<StmtView>, a: Answers, n: Arithmetic, out: Run)
    requires
        agrees(a, n),
        may_run(statements, a, out),
    ensures
        out == run(statements, n),
{
    let outcomes = choose|outcomes: Seq<Result<LiteralView, ErrorView>>| #[trigger]
        run_traces(statements, a, outcomes) && out == run_upto(
            statements,
            outcomes,
            outcomes.len() as int,
        );
    let under = outcomes_under(statements, n);
    let k = outcomes.len() as int;
    assert forall|i: int|
        0 <= i < k && evaluated_expression(statements[i]) is Some implies outcomes[i]
        == under[i] by {
        lemma_may_evaluate_is_evaluate(
            evaluated_expression(statements[i])->0,
            a,
            n,
            outcomes[i],
        );
    }
    lemma_run_upto_same(statements, outcomes, under, k);
    if k < statements.len() {
        lemma_run_upto_stays(statements, under, k, statements.len() as int);
    }
}

/// What holds of a run under every arithmetic that the two functions
/// compute follows from what holds of it for any two functions.
proof fn lemma_ran<A: Fn(Calculation) -> String, C: Fn(Comparison) -> bool>(
    statements: Seq<StmtView>,
    calculate: &A,
    compare: &C,
    out: Run,
)
    requires
        may_run(statements, answers(calculate, compare), out),
    ensures
        forall|n: Arithmetic| follows(calculate, compare, n) ==> out == #[trigger] run(statements, n),
{
    assert forall|n: Arithmetic| follows(calculate, compare, n) implies out == #[trigger] run(
        statements,
        n,
    ) by {
        lemma_answers_agree(calculate, compare, n);
        lemma_may_run_is_run(statements, answers(calculate, compare), n, out);
    }
}

/// Runs the statements in order and returns the lines to print, together
/// with a log that holds the runtime error that stopped the run, if any.
///
/// Whatever the two functions are, the lines and the log are those of a run
/// with their answers. For every arithmetic that the two functions compute,
/// they are therefore those of the program under that arithmetic.
pub fn interpret<A: Fn(Calculation) -> String, C: Fn(Comparison) -> bool>(
    statements: &Vec<Stmt>,
    calculate: &A,
    compare: &C,
) -> (r: (Vec<String>, ErrorLog))
    requires
        total(calculate, compare),
    ensures
        may_run(
            stmt_views(statements@),
            answers(calculate, compare),
            Run { output: texts(r.0@), errors: r.1@ },
        ),
        forall|n: Arithmetic|
            follows(calculate, compare, n) ==> (Run { output: texts(r.0@), errors: r.1@ })
                == #[trigger] run(stmt_views(statements@), n),
{
    let mut output: Vec<String> = Vec::new();
    let mut log = ErrorLog::new();
    let ghost all = stmt_views(statements@);
    let ghost a = answers(calculate, compare);
    let ghost mut outcomes: Seq<Result<LiteralView, ErrorView>> = Seq::empty();
    let mut i: usize = 0;
    assert(texts(output@) =~= Seq::<Seq<char>>::empty());
    while i < statements.len()
        invariant
            i <= statements.len(),
            total(calculate, compare),
            all == stmt_views(statements@),
            a == answers(calculate, compare),
            outcomes.len() == i,
            forall|j: int|
                0 <= j < i && evaluated_expression(all[j]) is Some ==> may_evaluate(
                    evaluated_expression(all[j])->0,
                    a,
                    #[trigger] outcomes[j],
                ) && outcomes[j] is Ok,
            run_upto(all, outcomes, i as int) == (Run {
                output: texts(output@),
                errors: Seq::empty(),
            }),
            log@ =~= Seq::<ErrorView>::empty(),
        decreases statements.len() - i,
    {
        let ghost printed_before = texts(output@);
        let ghost before = outcomes;
        assert(all[i as int] == statements@[i as int]@);
        let evaluated = match &statements[i] {
            Stmt::Var(_) => None,
            Stmt::Expression(stmt) => Some(
                (interpret_expression(&stmt.expression, calculate, compare), false),
            ),
            Stmt::Print(stmt) => Some(
                (interpret_expression(&stmt.expression, calculate, compare), true),
            ),
        };
        match evaluated {
            None => {
                proof {
                    outcomes = outcomes.push(Ok(LiteralView::Nil));
                    lemma_run_upto_same(all, before, outcomes, i as int);
                }
            },
            Some((Err(error), _)) => {
                log.push(error);
                proof {
                    outcomes = outcomes.push(Err(error@));
                    lemma_run_upto_same(all, before, outcomes, i as int);
                    assert(log@ =~= seq![error@]);
                    assert(run_traces(all, a, outcomes));
                    lemma_ran(all, calculate, compare, Run { output: texts(output@), errors: log@ });
                }
                return (output, log);
            },
            Some((Ok(value), print)) => {
                if print {
                    output.push(value.to_debug_string());
                    assert(texts(output@) =~= printed_before.push(value@.debug()));
                }
                proof {
                    outcomes = outcomes.push(Ok(value@));
                    lemma_run_upto_same(all, before, outcomes, i as int);
                }
            },
        }
        i = i + 1;
    }
    proof {
        assert(run_traces(all, a, outcomes));
        lemma_ran(all, calculate, compare, Run { output: texts(output@), errors: log@ });
    }
    (output, log)
}

} // verus!
