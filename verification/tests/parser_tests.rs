use rlox::ast_printer::{expr_to_ast_string, stmt_to_ast_string};
use rlox::errors::{Error, ErrorKind, ErrorLoggable};
use rlox::parser::{
    BinaryExpr, Expr, ExprStmt, LiteralKind, Parser, PrintStmt, Stmt, TernaryExpr, UnaryExpr,
    VarStmt,
};
use rlox::scanner::{Scanner, SourceToken, Token};
use rlox::source_file::{SourceLocation, SourceSpan};

fn parse_source(source: &str) -> (Vec<Stmt>, Vec<Error>) {
    let scanner = Scanner::from_source(String::from(source));
    assert_eq!(scanner.error_log().len(), 0);
    let mut parser = Parser::new(scanner.tokens());
    let statements = parser.parse();
    (statements, parser.error_log().errors.clone())
}

fn parse_clean(source: &str) -> Vec<Stmt> {
    let (statements, errors) = parse_source(source);
    assert_eq!(errors, vec![]);
    statements
}

fn tree_of(source: &str) -> Expr {
    let mut statements = parse_clean(source);
    assert_eq!(statements.len(), 1);
    match statements.remove(0) {
        Stmt::Expression(statement) => statement.expression,
        other => panic!("no expression statement: {:?}", other),
    }
}

fn number(text: &str) -> Expr {
    Expr::Literal(LiteralKind::Number(String::from(text)))
}

fn binary(left: Expr, operator: Token, right: Expr) -> Expr {
    Expr::Binary(BinaryExpr { left: Box::new(left), operator, right: Box::new(right) })
}

fn unary(operator: Token, right: Expr) -> Expr {
    Expr::Unary(UnaryExpr { operator, right: Box::new(right) })
}

fn span(from: usize, to: usize) -> SourceSpan {
    SourceSpan {
        start: SourceLocation { line: 1, column: from + 1, index: from },
        end: SourceLocation { line: 1, column: to + 1, index: to },
    }
}

#[test]
fn product_binds_tighter_than_sum() {
    assert_eq!(
        tree_of("1 + 2 * 3;"),
        binary(number("1"), Token::Plus, binary(number("2"), Token::Star, number("3")))
    );
    assert_ne!(
        tree_of("1 + 2 * 3;"),
        binary(binary(number("1"), Token::Plus, number("2")), Token::Star, number("3"))
    );
    assert_eq!(expr_to_ast_string(&tree_of("1 + 2 * 3;")), "(+ 1 (* 2 3))");
}

#[test]
fn binary_operators_group_to_the_left() {
    assert_eq!(
        tree_of("1 - 2 - 3;"),
        binary(binary(number("1"), Token::Minus, number("2")), Token::Minus, number("3"))
    );
    assert_eq!(expr_to_ast_string(&tree_of("8 / 4 / 2;")), "(/ (/ 8 4) 2)");
    assert_eq!(expr_to_ast_string(&tree_of("1 == 2 != 3;")), "(!= (== 1 2) 3)");
    assert_eq!(expr_to_ast_string(&tree_of("1 < 2 >= 3;")), "(>= (< 1 2) 3)");
}

#[test]
fn every_level_of_precedence() {
    assert_eq!(
        expr_to_ast_string(&tree_of("1 == 2 < 3 + 4 * -5;")),
        "(== 1 (< 2 (+ 3 (* 4 (- 5)))))"
    );
    assert_eq!(
        expr_to_ast_string(&tree_of("-1 * 2 + 3 > 4 != true;")),
        "(!= (> (+ (* (- 1) 2) 3) 4) true)"
    );
}

#[test]
fn unary_operators_nest() {
    assert_eq!(
        tree_of("!!-1;"),
        unary(Token::Bang, unary(Token::Bang, unary(Token::Minus, number("1"))))
    );
}

#[test]
fn grouping_overrides_precedence() {
    assert_eq!(
        tree_of("(1 + 2) * 3;"),
        binary(
            Expr::Grouping(Box::new(binary(number("1"), Token::Plus, number("2")))),
            Token::Star,
            number("3")
        )
    );
    assert_eq!(expr_to_ast_string(&tree_of("((1));")), "(group (group 1))");
}

#[test]
fn literals() {
    assert_eq!(tree_of("true;"), Expr::Literal(LiteralKind::Boolean(true)));
    assert_eq!(tree_of("false;"), Expr::Literal(LiteralKind::Boolean(false)));
    assert_eq!(tree_of("nil;"), Expr::Literal(LiteralKind::Nil));
    assert_eq!(tree_of("12.50;"), number("12.50"));
    assert_eq!(tree_of("\"a b\";"), Expr::Literal(LiteralKind::String(String::from("a b"))));
}

#[test]
fn ternary_takes_three_equalities() {
    assert_eq!(
        tree_of("true ? 1 : 2;"),
        Expr::Ternary(TernaryExpr {
            condition: Box::new(Expr::Literal(LiteralKind::Boolean(true))),
            left_result: Box::new(number("1")),
            right_result: Box::new(number("2")),
        })
    );
    assert_eq!(expr_to_ast_string(&tree_of("1 == 2 ? 3 + 4 : 5;")), "((== 1 2) ? (+ 3 4) : 5)");
}

#[test]
fn later_ternary_takes_the_earlier_as_its_condition() {
    assert_eq!(
        expr_to_ast_string(&tree_of("true ? 1 : 2 ? 3 : 4;")),
        "((true ? 1 : 2) ? 3 : 4)"
    );
}

#[test]
fn ternary_without_colon_is_an_error() {
    let (statements, errors) = parse_source("true ? 1;");
    assert_eq!(statements, vec![]);
    assert_eq!(errors.len(), 1);
    assert_eq!(errors[0].kind, ErrorKind::Parsing);
    assert_eq!(
        errors[0].description.description,
        "Expected ':' after expression, instead found ';'"
    );
    assert_eq!(errors[0].description.location, Some(span(8, 9)));
}

#[test]
fn statements_of_each_kind() {
    let statements = parse_clean("1; print 2; var a; var b = 3;");
    assert_eq!(
        statements,
        vec![
            Stmt::Expression(ExprStmt { expression: number("1") }),
            Stmt::Print(PrintStmt { expression: number("2") }),
            Stmt::Var(VarStmt { name: String::from("a"), initializer: None }),
            Stmt::Var(VarStmt { name: String::from("b"), initializer: Some(number("3")) }),
        ]
    );
    assert_eq!(stmt_to_ast_string(&statements[0]), "Expression Statement: 1");
    assert_eq!(stmt_to_ast_string(&statements[1]), "Print Statement: 2");
    assert_eq!(stmt_to_ast_string(&statements[2]), "Variable Statement: a");
    assert_eq!(stmt_to_ast_string(&statements[3]), "Variable Statement: b = 3");
}

#[test]
fn empty_program() {
    assert_eq!(parse_source(""), (vec![], vec![]));
    assert_eq!(parse_source("  \n\t "), (vec![], vec![]));
}

#[test]
fn whitespace_is_left_out() {
    assert_eq!(parse_clean(" 1\n+\t2 ;\n"), parse_clean("1+2;"));
    let scanner = Scanner::from_source(String::from(" 1 ; "));
    let mut parser = Parser::new(scanner.tokens());
    parser.parse();
    assert_eq!(parser.error_log().len(), 0);
}

#[test]
fn comment_is_no_expression() {
    let (statements, errors) = parse_source("1; // one\n2;");
    assert_eq!(statements, vec![Stmt::Expression(ExprStmt { expression: number("1") })]);
    assert_eq!(errors.len(), 1);
    assert_eq!(
        errors[0].description.description,
        "Expected value or expression, found 'comment \"// one\"'"
    );
}

#[test]
fn two_malformed_statements_give_two_errors() {
    let (statements, errors) = parse_source("1 + ; 2 * ;");
    assert_eq!(statements, vec![]);
    assert_eq!(errors.len(), 2);
    assert!(errors.iter().all(|e| e.kind == ErrorKind::Parsing));
    assert_eq!(errors[0].description.description, "Expected value or expression, found ';'");
    assert_eq!(errors[0].description.location, Some(span(4, 5)));
    assert_eq!(errors[1].description.description, "Expected value or expression, found ';'");
    assert_eq!(errors[1].description.location, Some(span(10, 11)));
}

#[test]
fn malformed_statements_do_not_hide_the_good_ones() {
    let (statements, errors) = parse_source("1 + + 2; 3; 4 * * 5; print 6;");
    assert_eq!(
        statements,
        vec![
            Stmt::Expression(ExprStmt { expression: number("3") }),
            Stmt::Print(PrintStmt { expression: number("6") }),
        ]
    );
    assert_eq!(errors.len(), 2);
    assert_eq!(errors[0].description.description, "Expected value or expression, found '+'");
    assert_eq!(errors[1].description.description, "Expected value or expression, found '*'");
}

#[test]
fn parsing_takes_up_again_before_a_keyword() {
    let (statements, errors) = parse_source("1 2 3 print 4;");
    assert_eq!(statements, vec![Stmt::Print(PrintStmt { expression: number("4") })]);
    assert_eq!(errors.len(), 1);
    assert_eq!(
        errors[0].description.description,
        "Expected ';' after expression, instead found 'number \"2\"'"
    );
    assert_eq!(errors[0].description.location, Some(span(2, 3)));
}

#[test]
fn missing_semicolon_at_the_end() {
    let (statements, errors) = parse_source("1 + 2");
    assert_eq!(statements, vec![]);
    assert_eq!(errors.len(), 1);
    assert_eq!(errors[0].kind, ErrorKind::Parsing);
    assert_eq!(errors[0].description.description, "Reached end of file while expecting ';'");
    assert_eq!(errors[0].description.location, None);
    assert_eq!(errors[0].description.subject, None);
}

#[test]
fn expression_cut_short_by_the_end() {
    let (statements, errors) = parse_source("1 +");
    assert_eq!(statements, vec![]);
    assert_eq!(errors.len(), 1);
    assert_eq!(
        errors[0].description.description,
        "Ran out of tokens while satisfying expression rule"
    );
    assert_eq!(errors[0].description.location, Some(span(2, 3)));
    let (_, errors) = parse_source("print");
    assert_eq!(errors.len(), 1);
    assert_eq!(errors[0].description.location, Some(span(0, 5)));
}

#[test]
fn unclosed_parenthesis() {
    let (statements, errors) = parse_source("(1 + 2;");
    assert_eq!(statements, vec![]);
    assert_eq!(errors.len(), 1);
    assert_eq!(
        errors[0].description.description,
        "Expected ')' after expression, instead found ';'"
    );
    let (_, errors) = parse_source("(1");
    assert_eq!(errors[0].description.description, "Reached end of file while expecting ')'");
}

#[test]
fn identifier_is_no_expression() {
    let (statements, errors) = parse_source("x;");
    assert_eq!(statements, vec![]);
    assert_eq!(errors.len(), 1);
    assert_eq!(
        errors[0].description.description,
        "Expected value or expression, found 'identifier \"x\"'"
    );
}

#[test]
fn variable_declaration_wants_a_name() {
    let (statements, errors) = parse_source("var 1 = 2; 3;");
    assert_eq!(statements, vec![Stmt::Expression(ExprStmt { expression: number("3") })]);
    assert_eq!(errors.len(), 1);
    assert_eq!(
        errors[0].description.description,
        "Expected 'identifier \"example\"' after expression, instead found 'number \"1\"'"
    );
    let (_, errors) = parse_source("var");
    assert_eq!(
        errors[0].description.description,
        "Reached end of file while expecting 'identifier \"example\"'"
    );
    let (_, errors) = parse_source("var x 1;");
    assert_eq!(
        errors[0].description.description,
        "Expected ';' after expression, instead found 'number \"1\"'"
    );
}

#[test]
fn no_more_statements_than_semicolons() {
    for source in [
        "",
        "1;",
        "1; 2; 3;",
        "1 + ; 2;",
        ";;;",
        "print 1; var x = 2; x; (3",
        "1 2 3",
        "var a = ; ; print ; 4;",
    ] {
        let scanner = Scanner::from_source(String::from(source));
        let tokens = scanner.tokens();
        let semicolons = tokens.iter().filter(|t| t.token == Token::Semicolon).count();
        let mut parser = Parser::new(tokens);
        let statements = parser.parse();
        assert!(statements.len() <= semicolons, "{:?}", source);
    }
}

#[test]
fn parsing_stops_at_the_first_end_of_input() {
    let at = span(0, 0);
    let tokens = vec![
        SourceToken { token: Token::True, location_span: at },
        SourceToken { token: Token::Semicolon, location_span: at },
        SourceToken { token: Token::Eof, location_span: at },
        SourceToken { token: Token::False, location_span: at },
        SourceToken { token: Token::Semicolon, location_span: at },
        SourceToken { token: Token::Eof, location_span: at },
    ];
    let mut parser = Parser::new(tokens);
    let statements = parser.parse();
    assert_eq!(
        statements,
        vec![Stmt::Expression(ExprStmt { expression: Expr::Literal(LiteralKind::Boolean(true)) })]
    );
    assert_eq!(parser.error_log().len(), 0);
}

#[test]
fn new_parser_has_no_errors() {
    let parser = Parser::new(vec![SourceToken { token: Token::Eof, location_span: span(0, 0) }]);
    assert_eq!(parser.error_log().len(), 0);
}

#[test]
fn trees_in_prefix_form() {
    assert_eq!(expr_to_ast_string(&tree_of("-1;")), "(- 1)");
    assert_eq!(expr_to_ast_string(&tree_of("!true;")), "(! true)");
    assert_eq!(expr_to_ast_string(&tree_of("nil;")), "nil");
    assert_eq!(expr_to_ast_string(&tree_of("\"a\" == \"b\";")), "(== a b)");
    assert_eq!(expr_to_ast_string(&tree_of("(1 <= 2);")), "(group (<= 1 2))");
    assert_eq!(expr_to_ast_string(&tree_of("1.50;")), "1.50");
}
