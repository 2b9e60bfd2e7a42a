use cbl::ast::AstPrinter;
use cbl::ast::Expr;
use cbl::ast::Stmt;
use cbl::decimal::Decimal;
use cbl::parser::Parser;
use cbl::scanner::Scanner;
use cbl::token::Object;
use cbl::token::Token;
use cbl::token::TokenType;

#[test]
fn test_ast_printer() {
    let expression = Expr::Binary {
        left: Box::new(Expr::Unary {
            operator: Token::new(TokenType::Minus, "-".to_string(), Object::Nil, 1),
            right: Box::new(Expr::Literal {
                value: Object::Number(Decimal::new(123, 0)),
            }),
        }),
        operator: Token::new(TokenType::Star, "*".to_string(), Object::Nil, 1),
        right: Box::new(Expr::Grouping {
            expression: Box::new(Expr::Literal {
                value: Object::Number(Decimal::new(4567, 2)),
            }),
        }),
    };
    let printer = AstPrinter;
    let result = printer.print(expression).unwrap();

    assert_eq!(result, "(* (- 123) (group 45.67))");
}

#[test]
fn printing_a_parsed_expression_gives_prefix_notation() {
    let mut scanner = Scanner::new("-123 * 45.67;");
    let tokens = scanner.scan_tokens();
    let mut parser = Parser::new(tokens);
    let statements = parser.parse().unwrap();
    assert_eq!(statements.len(), 1);
    let expr = match statements.into_iter().next().unwrap() {
        Stmt::Expression { expression } => expression,
        other => panic!("expected an expression statement, got {:?}", other),
    };
    let printer = AstPrinter;
    assert_eq!(printer.print(expr).unwrap(), "(* (- 123) 45.67)");
}

#[test]
fn literals_print_as_their_values() {
    let printer = AstPrinter;
    assert_eq!(printer.print(Expr::Literal { value: Object::Nil }).unwrap(), "nil");
    assert_eq!(
        printer.print(Expr::Literal { value: Object::Bool(true) }).unwrap(),
        "true"
    );
    assert_eq!(
        printer.print(Expr::Literal { value: Object::Str("hi".to_string()) }).unwrap(),
        "hi"
    );
    assert_eq!(
        printer.print(Expr::Literal { value: Object::Number(Decimal::new(5, 1)) }).unwrap(),
        "0.5"
    );
}
