use rlox::errors::{Error, ErrorKind, ErrorLoggable};
use rlox::interpreter::{
    check_condition, interpret, interpret_binary, interpret_expression, interpret_ternary,
    interpret_unary, is_equal, is_truthy, perform, plan_binary, plan_equality, plan_unary,
    Calculation, Comparison, Step,
};
use rlox::parser::{
    BinaryExpr, Expr, ExprStmt, LiteralKind, Parser, PrintStmt, Stmt, TernaryExpr, UnaryExpr,
    VarStmt,
};
use rlox::scanner::{Scanner, Token};

fn value_of(numeral: &str) -> f64 {
    numeral.parse().unwrap()
}

fn calculate(request: Calculation) -> String {
    let result = match request {
        Calculation::Negate(a) => -value_of(&a),
        Calculation::Subtract(a, b) => value_of(&a) - value_of(&b),
        Calculation::Divide(a, b) => value_of(&a) / value_of(&b),
        Calculation::Multiply(a, b) => value_of(&a) * value_of(&b),
        Calculation::Add(a, b) => value_of(&a) + value_of(&b),
    };
    format!("{:?}", result)
}

fn compare(request: Comparison) -> bool {
    match request {
        Comparison::Greater(a, b) => value_of(&a) > value_of(&b),
        Comparison::GreaterEqual(a, b) => value_of(&a) >= value_of(&b),
        Comparison::Less(a, b) => value_of(&a) < value_of(&b),
        Comparison::LessEqual(a, b) => value_of(&a) <= value_of(&b),
        Comparison::Equal(a, b) => value_of(&a) == value_of(&b),
    }
}

fn statements_of(source: &str) -> Vec<Stmt> {
    let scanner = Scanner::from_source(String::from(source));
    assert_eq!(scanner.error_log().len(), 0);
    let mut parser = Parser::new(scanner.tokens());
    let statements = parser.parse();
    assert_eq!(parser.error_log().len(), 0);
    statements
}

fn evaluate(source: &str) -> Result<LiteralKind, Error> {
    let statements = statements_of(source);
    assert_eq!(statements.len(), 1);
    match &statements[0] {
        Stmt::Expression(statement) => {
            interpret_expression(&statement.expression, &calculate, &compare)
        }
        other => panic!("no expression statement: {:?}", other),
    }
}

fn number(numeral: &str) -> LiteralKind {
    LiteralKind::Number(String::from(numeral))
}

fn text(value: &str) -> LiteralKind {
    LiteralKind::String(String::from(value))
}

fn literal(value: LiteralKind) -> Box<Expr> {
    Box::new(Expr::Literal(value))
}

fn message(result: Result<LiteralKind, Error>) -> String {
    let error = result.unwrap_err();
    assert_eq!(error.kind, ErrorKind::Runtime);
    assert_eq!(error.description.location, None);
    assert_eq!(error.description.subject, None);
    error.description.description
}

#[test]
fn ternary_selects_by_its_condition() {
    assert_eq!(evaluate("true ? 1 : 2;"), Ok(number("1")));
    assert_eq!(evaluate("false ? 1 : 2;"), Ok(number("2")));
    assert_eq!(evaluate("1 < 2 ? \"yes\" : \"no\";"), Ok(text("yes")));
}

#[test]
fn ternary_wants_a_boolean_condition() {
    assert_eq!(
        message(evaluate("1 ? 2 : 3;")),
        "Non boolean type used as condition in ternary: Number(1)"
    );
    assert_eq!(
        message(evaluate("nil ? 2 : 3;")),
        "Non boolean type used as condition in ternary: Nil"
    );
    assert_eq!(
        message(evaluate("\"a\" ? 2 : 3;")),
        "Non boolean type used as condition in ternary: String(\"a\")"
    );
}

#[test]
fn ternary_evaluates_both_results() {
    assert_eq!(
        message(evaluate("true ? 1 : -nil;")),
        "Illegal operand for unary '-' expression: Nil"
    );
    assert_eq!(
        message(evaluate("false ? !1 : 2;")),
        "Illegal operand for unary '!' expression: Number(1)"
    );
    assert_eq!(
        message(evaluate("1 ? -nil : 2;")),
        "Non boolean type used as condition in ternary: Number(1)"
    );
}

#[test]
fn equality_across_variants_is_false() {
    assert_eq!(evaluate("1 == \"1\";"), Ok(LiteralKind::Boolean(false)));
    assert_eq!(evaluate("1 != \"1\";"), Ok(LiteralKind::Boolean(true)));
    assert_eq!(evaluate("nil == false;"), Ok(LiteralKind::Boolean(false)));
    assert_eq!(evaluate("true == 1;"), Ok(LiteralKind::Boolean(false)));
    assert_eq!(evaluate("\"nil\" == nil;"), Ok(LiteralKind::Boolean(false)));
}

#[test]
fn equality_within_a_variant_compares_payloads() {
    assert_eq!(evaluate("1 == 1;"), Ok(LiteralKind::Boolean(true)));
    assert_eq!(evaluate("1 == 1.0;"), Ok(LiteralKind::Boolean(true)));
    assert_eq!(evaluate("1 == 2;"), Ok(LiteralKind::Boolean(false)));
    assert_eq!(evaluate("\"a\" == \"a\";"), Ok(LiteralKind::Boolean(true)));
    assert_eq!(evaluate("\"a\" == \"b\";"), Ok(LiteralKind::Boolean(false)));
    assert_eq!(evaluate("\"1\" == \"1.0\";"), Ok(LiteralKind::Boolean(false)));
    assert_eq!(evaluate("true == true;"), Ok(LiteralKind::Boolean(true)));
    assert_eq!(evaluate("true != false;"), Ok(LiteralKind::Boolean(true)));
    assert_eq!(evaluate("nil == nil;"), Ok(LiteralKind::Boolean(true)));
    assert_eq!(evaluate("nil != nil;"), Ok(LiteralKind::Boolean(false)));
    assert_eq!(evaluate("0 / 0 == 0 / 0;"), Ok(LiteralKind::Boolean(false)));
}

#[test]
fn is_equal_on_values() {
    assert!(is_equal(number("2"), number("2.0"), &compare));
    assert!(!is_equal(number("2"), text("2"), &compare));
    assert!(is_equal(text("2"), text("2"), &compare));
    assert!(is_equal(LiteralKind::Nil, LiteralKind::Nil, &compare));
    assert!(!is_equal(LiteralKind::Nil, LiteralKind::Boolean(false), &compare));
    assert!(is_equal(LiteralKind::Boolean(false), LiteralKind::Boolean(false), &compare));
    assert!(!is_equal(LiteralKind::Boolean(true), LiteralKind::Boolean(false), &compare));
}

#[test]
fn truthiness() {
    assert!(is_truthy(LiteralKind::Boolean(true)));
    assert!(!is_truthy(LiteralKind::Boolean(false)));
    assert!(!is_truthy(LiteralKind::Nil));
    assert!(!is_truthy(number("1")));
    assert!(!is_truthy(text("true")));
    assert_eq!(LiteralKind::Boolean(true).to_bool_option(), Some(true));
    assert_eq!(LiteralKind::Nil.to_bool_option(), Some(false));
    assert_eq!(number("0").to_bool_option(), None);
    assert_eq!(text("").to_bool_option(), None);
}

#[test]
fn sum_of_a_number_and_a_boolean_is_an_error() {
    let result = evaluate("1 + true;");
    let description = message(result);
    assert_eq!(description, "Illegal operand for binary '+' expression: Number(1) + Boolean(true)");
    assert!(description.contains("'+'"));
    assert!(description.contains("Number(1)"));
    assert!(description.contains("Boolean(true)"));
}

#[test]
fn every_arithmetic_and_ordering_operator_wants_numbers() {
    for operator in ["-", "/", "*", "+", ">", ">=", "<", "<="] {
        let source = format!("\"a\" {} nil;", operator);
        assert_eq!(
            message(evaluate(&source)),
            format!(
                "Illegal operand for binary '{}' expression: String(\"a\") {} Nil",
                operator, operator
            )
        );
        let source = format!("1 {} \"b\";", operator);
        assert_eq!(
            message(evaluate(&source)),
            format!(
                "Illegal operand for binary '{}' expression: Number(1) {} String(\"b\")",
                operator, operator
            )
        );
    }
}

#[test]
fn arithmetic_goes_to_the_given_functions() {
    assert_eq!(evaluate("1 + 2;"), Ok(number("3.0")));
    assert_eq!(evaluate("1 - 2;"), Ok(number("-1.0")));
    assert_eq!(evaluate("1.5 * 4;"), Ok(number("6.0")));
    assert_eq!(evaluate("1 / 4;"), Ok(number("0.25")));
    assert_eq!(evaluate("1 + 2 * 3;"), Ok(number("7.0")));
    assert_eq!(evaluate("(1 + 2) * 3;"), Ok(number("9.0")));
    assert_eq!(evaluate("-(1 + 2);"), Ok(number("-3.0")));
    assert_eq!(evaluate("--1;"), Ok(number("1.0")));
}

#[test]
fn division_by_zero_is_no_error() {
    assert_eq!(evaluate("1 / 0;"), Ok(number("inf")));
    assert_eq!(evaluate("-1 / 0;"), Ok(number("-inf")));
    assert_eq!(evaluate("0 / 0;"), Ok(number("NaN")));
    assert_eq!(evaluate("1 / 0 > 1000;"), Ok(LiteralKind::Boolean(true)));
}

#[test]
fn ordering_gives_booleans() {
    assert_eq!(evaluate("1 < 2;"), Ok(LiteralKind::Boolean(true)));
    assert_eq!(evaluate("2 < 2;"), Ok(LiteralKind::Boolean(false)));
    assert_eq!(evaluate("2 <= 2;"), Ok(LiteralKind::Boolean(true)));
    assert_eq!(evaluate("3 > 2;"), Ok(LiteralKind::Boolean(true)));
    assert_eq!(evaluate("2 >= 3;"), Ok(LiteralKind::Boolean(false)));
    assert_eq!(evaluate("10 > 9;"), Ok(LiteralKind::Boolean(true)));
}

#[test]
fn literal_is_its_own_value() {
    assert_eq!(evaluate("1.50;"), Ok(number("1.50")));
    assert_eq!(evaluate("\"a\";"), Ok(text("a")));
    assert_eq!(evaluate("nil;"), Ok(LiteralKind::Nil));
    assert_eq!(evaluate("(((true)));"), Ok(LiteralKind::Boolean(true)));
}

#[test]
fn bang_negates_booleans_and_nil_only() {
    assert_eq!(evaluate("!true;"), Ok(LiteralKind::Boolean(false)));
    assert_eq!(evaluate("!false;"), Ok(LiteralKind::Boolean(true)));
    assert_eq!(evaluate("!nil;"), Ok(LiteralKind::Boolean(true)));
    assert_eq!(evaluate("!!nil;"), Ok(LiteralKind::Boolean(false)));
    assert_eq!(message(evaluate("!0;")), "Illegal operand for unary '!' expression: Number(0)");
    assert_eq!(
        message(evaluate("!\"\";")),
        "Illegal operand for unary '!' expression: String(\"\")"
    );
}

#[test]
fn minus_negates_numbers_only() {
    assert_eq!(evaluate("-2;"), Ok(number("-2.0")));
    assert_eq!(
        message(evaluate("-true;")),
        "Illegal operand for unary '-' expression: Boolean(true)"
    );
    assert_eq!(
        message(evaluate("-\"2\";")),
        "Illegal operand for unary '-' expression: String(\"2\")"
    );
}

#[test]
fn left_operand_fails_first() {
    assert_eq!(
        message(evaluate("-nil + !1;")),
        "Illegal operand for unary '-' expression: Nil"
    );
    assert_eq!(
        message(evaluate("1 + !1;")),
        "Illegal operand for unary '!' expression: Number(1)"
    );
    assert_eq!(
        message(evaluate("(1 + nil) == !1;")),
        "Illegal operand for binary '+' expression: Number(1) + Nil"
    );
}

#[test]
fn operators_that_are_none() {
    let unary = UnaryExpr { operator: Token::Plus, right: literal(number("1")) };
    assert_eq!(
        message(interpret_unary(&unary, &calculate, &compare)),
        "Illegal operator for unary expression: +"
    );
    let binary =
        BinaryExpr { left: literal(number("1")), operator: Token::Comma, right: literal(number("2")) };
    assert_eq!(
        message(interpret_binary(&binary, &calculate, &compare)),
        "Illegal operator for binary expression: ,"
    );
    let binary = BinaryExpr {
        left: literal(number("1")),
        operator: Token::Identifier(String::from("plus")),
        right: literal(number("2")),
    };
    assert_eq!(
        message(interpret_expression(&Expr::Binary(binary), &calculate, &compare)),
        "Illegal operator for binary expression: identifier \"plus\""
    );
}

#[test]
fn operands_fail_before_an_operator_that_is_none() {
    let binary = BinaryExpr {
        left: Box::new(Expr::Unary(UnaryExpr { operator: Token::Minus, right: literal(text("a")) })),
        operator: Token::Comma,
        right: literal(number("2")),
    };
    assert_eq!(
        message(interpret_binary(&binary, &calculate, &compare)),
        "Illegal operand for unary '-' expression: String(\"a\")"
    );
}

#[test]
fn parts_of_the_evaluator() {
    let ternary = TernaryExpr {
        condition: literal(LiteralKind::Boolean(false)),
        left_result: literal(text("l")),
        right_result: literal(text("r")),
    };
    assert_eq!(interpret_ternary(&ternary, &calculate, &compare), Ok(text("r")));
    let binary = BinaryExpr {
        left: literal(number("6")),
        operator: Token::Slash,
        right: literal(number("4")),
    };
    assert_eq!(interpret_binary(&binary, &calculate, &compare), Ok(number("1.5")));
    let unary = UnaryExpr { operator: Token::Bang, right: literal(LiteralKind::Nil) };
    assert_eq!(interpret_unary(&unary, &calculate, &compare), Ok(LiteralKind::Boolean(true)));
}

#[test]
fn operators_ask_for_one_step() {
    assert_eq!(
        plan_binary(&Token::Plus, number("1"), number("2")),
        Ok(Step::Calculate(Calculation::Add(String::from("1"), String::from("2"))))
    );
    assert_eq!(
        plan_binary(&Token::Minus, number("1"), number("2")),
        Ok(Step::Calculate(Calculation::Subtract(String::from("1"), String::from("2"))))
    );
    assert_eq!(
        plan_binary(&Token::Star, number("1"), number("2")),
        Ok(Step::Calculate(Calculation::Multiply(String::from("1"), String::from("2"))))
    );
    assert_eq!(
        plan_binary(&Token::Slash, number("1"), number("0")),
        Ok(Step::Calculate(Calculation::Divide(String::from("1"), String::from("0"))))
    );
    assert_eq!(
        plan_binary(&Token::Less, number("1"), number("2")),
        Ok(Step::Decide {
            comparison: Comparison::Less(String::from("1"), String::from("2")),
            negated: false
        })
    );
    assert_eq!(
        plan_binary(&Token::GreaterEqual, number("1"), number("2")),
        Ok(Step::Decide {
            comparison: Comparison::GreaterEqual(String::from("1"), String::from("2")),
            negated: false
        })
    );
    assert_eq!(
        plan_binary(&Token::BangEqual, number("1"), number("2")),
        Ok(Step::Decide {
            comparison: Comparison::Equal(String::from("1"), String::from("2")),
            negated: true
        })
    );
    assert_eq!(
        plan_binary(&Token::EqualEqual, number("1"), text("1")),
        Ok(Step::Done(LiteralKind::Boolean(false)))
    );
    assert_eq!(
        plan_binary(&Token::BangEqual, LiteralKind::Nil, LiteralKind::Nil),
        Ok(Step::Done(LiteralKind::Boolean(false)))
    );
    assert_eq!(
        plan_unary(&Token::Minus, number("4")),
        Ok(Step::Calculate(Calculation::Negate(String::from("4"))))
    );
    assert_eq!(plan_unary(&Token::Bang, LiteralKind::Nil), Ok(Step::Done(LiteralKind::Boolean(true))));
    assert_eq!(
        plan_equality(text("a"), text("a"), true),
        Step::Done(LiteralKind::Boolean(false))
    );
    assert_eq!(
        plan_equality(LiteralKind::Boolean(true), LiteralKind::Nil, true),
        Step::Done(LiteralKind::Boolean(true))
    );
}

#[test]
fn steps_that_fail() {
    assert_eq!(
        plan_binary(&Token::Plus, number("1"), LiteralKind::Boolean(true))
            .unwrap_err()
            .description
            .description,
        "Illegal operand for binary '+' expression: Number(1) + Boolean(true)"
    );
    assert_eq!(
        plan_binary(&Token::Semicolon, number("1"), number("2")).unwrap_err().description.description,
        "Illegal operator for binary expression: ;"
    );
    assert_eq!(
        plan_unary(&Token::Bang, text("a")).unwrap_err().description.description,
        "Illegal operand for unary '!' expression: String(\"a\")"
    );
    assert_eq!(
        plan_unary(&Token::Slash, number("1")).unwrap_err().description.description,
        "Illegal operator for unary expression: /"
    );
    assert_eq!(check_condition(&LiteralKind::Boolean(true)), Ok(true));
    assert_eq!(check_condition(&LiteralKind::Boolean(false)), Ok(false));
    assert_eq!(
        check_condition(&number("1")).unwrap_err().description.description,
        "Non boolean type used as condition in ternary: Number(1)"
    );
}

#[test]
fn steps_carried_out() {
    assert_eq!(perform(Step::Done(text("v")), &calculate, &compare), text("v"));
    assert_eq!(
        perform(
            Step::Calculate(Calculation::Multiply(String::from("2.5"), String::from("4"))),
            &calculate,
            &compare
        ),
        number("10.0")
    );
    let smaller = Comparison::Less(String::from("1"), String::from("2"));
    assert_eq!(
        perform(Step::Decide { comparison: smaller.clone(), negated: false }, &calculate, &compare),
        LiteralKind::Boolean(true)
    );
    assert_eq!(
        perform(Step::Decide { comparison: smaller, negated: true }, &calculate, &compare),
        LiteralKind::Boolean(false)
    );
}

#[test]
fn values_in_debug_form() {
    assert_eq!(number("1.5").to_debug_string(), "Number(1.5)");
    assert_eq!(text("a").to_debug_string(), "String(\"a\")");
    assert_eq!(text("a\"b\n").to_debug_string(), "String(\"a\\\"b\\n\")");
    assert_eq!(LiteralKind::Boolean(true).to_debug_string(), "Boolean(true)");
    assert_eq!(LiteralKind::Boolean(false).to_debug_string(), "Boolean(false)");
    assert_eq!(LiteralKind::Nil.to_debug_string(), "Nil");
    assert_eq!(text("a\"b").to_plain_string(), "a\"b");
    assert_eq!(LiteralKind::Nil.to_plain_string(), "nil");
}

#[test]
fn program_prints_in_order() {
    let statements = statements_of("print 1 + 2; 3; var x = 4; print \"a\"; print nil == nil;");
    let (output, log) = interpret(&statements, &calculate, &compare);
    assert_eq!(output, vec!["Number(3.0)", "String(\"a\")", "Boolean(true)"]);
    assert_eq!(log.len(), 0);
}

#[test]
fn first_runtime_error_ends_the_run() {
    let statements = statements_of("print 1; print -nil; print 2; print !3;");
    let (output, log) = interpret(&statements, &calculate, &compare);
    assert_eq!(output, vec!["Number(1)"]);
    assert_eq!(log.len(), 1);
    assert_eq!(log.errors[0].kind, ErrorKind::Runtime);
    assert_eq!(
        log.errors[0].description.description,
        "Illegal operand for unary '-' expression: Nil"
    );
    assert_eq!(
        log.errors[0].to_string(),
        "Runtime Error (Illegal operand for unary '-' expression: Nil)"
    );
}

#[test]
fn expression_statement_can_end_the_run_too() {
    let statements = vec![
        Stmt::Print(PrintStmt { expression: Expr::Literal(number("1")) }),
        Stmt::Expression(ExprStmt {
            expression: Expr::Unary(UnaryExpr { operator: Token::Star, right: literal(number("1")) }),
        }),
        Stmt::Print(PrintStmt { expression: Expr::Literal(number("2")) }),
    ];
    let (output, log) = interpret(&statements, &calculate, &compare);
    assert_eq!(output, vec!["Number(1)"]);
    assert_eq!(log.len(), 1);
}

#[test]
fn variable_declaration_is_not_run() {
    let statements = vec![Stmt::Var(VarStmt {
        name: String::from("x"),
        initializer: Some(Expr::Unary(UnaryExpr {
            operator: Token::Minus,
            right: literal(LiteralKind::Nil),
        })),
    })];
    let (output, log) = interpret(&statements, &calculate, &compare);
    assert_eq!(output, Vec::<String>::new());
    assert_eq!(log.len(), 0);
}

#[test]
fn empty_program_prints_nothing() {
    let (output, log) = interpret(&Vec::new(), &calculate, &compare);
    assert_eq!(output, Vec::<String>::new());
    assert_eq!(log.len(), 0);
}
