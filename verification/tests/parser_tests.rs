use cbl::ast::Expr;
use cbl::ast::Stmt;
use cbl::parser::Parser;
use cbl::scanner::Scanner;
use cbl::token::Object;
use cbl::token::TokenType;

fn parse_source(source: &str) -> (Vec<Stmt>, Vec<String>) {
    let mut scanner = Scanner::new(source);
    let tokens = scanner.scan_tokens();
    let mut parser = Parser::new(tokens);
    let statements = parser.parse().expect("parsing is best-effort and never fails");
    (statements, parser.diagnostics().clone())
}

#[test]
fn test_parser() {
    let mut scanner = Scanner::new("-123 * 45.67");
    let tokens = scanner.scan_tokens();

    let mut parser = Parser::new(tokens);
    let _expression = parser.parse().expect("Could not parse sample code.");
}

#[test]
fn error_recovery_keeps_the_later_statement() {
    let (statements, diagnostics) = parse_source("var ;\nprint 1;");
    assert_eq!(statements.len(), 1);
    assert!(matches!(statements[0], Stmt::Print { .. }));
    assert_eq!(diagnostics.len(), 1);
    assert_eq!(diagnostics[0], "[line 1] Error at ';': Expect variable name.");
}

#[test]
fn missing_semicolon_is_a_reported_parse_error() {
    let (statements, diagnostics) = parse_source("print 1");
    assert_eq!(statements.len(), 0);
    assert_eq!(diagnostics.len(), 1);
    assert_eq!(diagnostics[0], "[line 1] Error at end: Expect ';' after value.");
}

#[test]
fn missing_expression_is_anchored_at_the_current_token() {
    let (statements, diagnostics) = parse_source(";");
    assert_eq!(statements.len(), 0);
    assert_eq!(diagnostics.len(), 1);
    assert_eq!(diagnostics[0], "[line 1] Error at ';': Expect expression.");
}

#[test]
fn unary_operators_chain_right_associatively() {
    let (statements, diagnostics) = parse_source("--5;");
    assert_eq!(diagnostics.len(), 0);
    assert_eq!(statements.len(), 1);
    let expr = match &statements[0] {
        Stmt::Expression { expression } => expression,
        other => panic!("expected an expression statement, got {:?}", other),
    };
    match expr {
        Expr::Unary { operator, right } => {
            assert_eq!(operator.type_, TokenType::Minus);
            match right.as_ref() {
                Expr::Unary { operator, right } => {
                    assert_eq!(operator.type_, TokenType::Minus);
                    match right.as_ref() {
                        Expr::Literal { value } => match value {
                            Object::Number(d) => {
                                assert_eq!(d.mantissa(), 5);
                                assert_eq!(d.scale(), 0);
                            }
                            other => panic!("expected a number literal, got {:?}", other),
                        },
                        other => panic!("expected a literal, got {:?}", other),
                    }
                }
                other => panic!("expected a nested unary node, got {:?}", other),
            }
        }
        other => panic!("expected a unary node, got {:?}", other),
    }
}

#[test]
fn var_declaration_with_initializer_parses() {
    let (statements, diagnostics) = parse_source("var answer = 42;");
    assert_eq!(diagnostics.len(), 0);
    assert_eq!(statements.len(), 1);
    match &statements[0] {
        Stmt::Var { name, initializer } => {
            assert_eq!(name.type_, TokenType::Identifier);
            assert_eq!(name.lexeme, "answer");
            assert!(initializer.is_some());
        }
        other => panic!("expected a var statement, got {:?}", other),
    }
}

#[test]
fn missing_closing_parenthesis_is_reported() {
    let (statements, diagnostics) = parse_source("print (1 + 2;");
    assert_eq!(statements.len(), 0);
    assert_eq!(diagnostics.len(), 1);
    assert_eq!(diagnostics[0], "[line 1] Error at ';': Expect ')' after expression.");
}

#[test]
fn one_mistake_spoils_only_one_statement() {
    let (statements, diagnostics) = parse_source("print 1;\nprint ;\nprint 3;");
    assert_eq!(statements.len(), 2);
    assert_eq!(diagnostics.len(), 1);
    assert_eq!(diagnostics[0], "[line 2] Error at ';': Expect expression.");
}
