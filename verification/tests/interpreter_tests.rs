use cbl::interpreter::Interpreter;
use cbl::parser::Parser;
use cbl::run::run_source;
use cbl::scanner::Scanner;

fn output_of(source: &str) -> Vec<String> {
    let r = run_source(source);
    assert!(r.error.is_none(), "unexpected runtime error: {:?}", r.error);
    assert_eq!(r.diagnostics.len(), 0, "unexpected diagnostics: {:?}", r.diagnostics);
    r.output
}

fn runtime_error_of(source: &str) -> String {
    let r = run_source(source);
    r.error.expect("a runtime error was expected").message().clone()
}

#[test]
fn test_interpreter_1() {
    let source = "-17.89 * 391.2";
    let mut scanner = Scanner::new(source);
    let tokens = scanner.scan_tokens();

    let mut parser = Parser::new(tokens.clone());
    let expression = parser.parse().unwrap();

    let mut interpreter = Interpreter::new();
    let _result = interpreter.interpret(expression).unwrap();
}

#[test]
fn test_interpreter_2() {
    let source = "\"chess\" + \"rules\"";
    let mut scanner = Scanner::new(source);
    let tokens = scanner.scan_tokens();

    let mut parser = Parser::new(tokens.clone());
    let expression = parser.parse().unwrap();

    let mut interpreter = Interpreter::new();
    let _result = interpreter.interpret(expression).unwrap();
}

#[test]
fn test_interpreter_3() {
    let source = "
        print \"one\";
        print true;
        print 2 + 1;";

    let mut scanner = Scanner::new(source);
    let tokens = scanner.scan_tokens();

    let mut parser = Parser::new(tokens.clone());
    let statements = parser.parse().unwrap();

    let mut interpreter = Interpreter::new();
    let _result = interpreter.interpret(statements).unwrap();
}

#[test]
fn print_collects_lines_in_program_order() {
    assert_eq!(
        output_of("print \"one\"; print true; print 2 + 1;"),
        vec!["one".to_string(), "true".to_string(), "3".to_string()]
    );
}

#[test]
fn subtraction_is_left_associative() {
    assert_eq!(output_of("print 1 - 2 - 3;"), vec!["-4".to_string()]);
}

#[test]
fn multiplication_binds_tighter_than_addition() {
    assert_eq!(output_of("print 2 + 3 * 4;"), vec!["14".to_string()]);
}

#[test]
fn grouping_overrides_precedence() {
    assert_eq!(output_of("print (2 + 3) * 4;"), vec!["20".to_string()]);
}

#[test]
fn plus_adds_numbers_and_concatenates_strings() {
    assert_eq!(output_of("print 1 + 1;"), vec!["2".to_string()]);
    assert_eq!(output_of("print \"a\" + \"b\";"), vec!["ab".to_string()]);
}

#[test]
fn plus_on_mixed_types_names_the_operation() {
    assert_eq!(
        runtime_error_of("print 1 + \"a\";"),
        "Expected numbers or strings for Plus operation."
    );
}

#[test]
fn minus_on_strings_names_the_operation() {
    assert_eq!(
        runtime_error_of("print \"a\" - 1;"),
        "Expected numbers for Minus operation."
    );
}

#[test]
fn equality_is_total_without_coercion() {
    assert_eq!(output_of("print nil == nil;"), vec!["true".to_string()]);
    assert_eq!(output_of("print 1 == \"1\";"), vec!["false".to_string()]);
    assert_eq!(output_of("print 1 != \"1\";"), vec!["true".to_string()]);
    assert_eq!(output_of("print 2 == 2;"), vec!["true".to_string()]);
    assert_eq!(output_of("print 2 != 2;"), vec!["false".to_string()]);
    assert_eq!(output_of("print true == true;"), vec!["true".to_string()]);
    assert_eq!(output_of("print \"a\" == \"a\";"), vec!["true".to_string()]);
    assert_eq!(output_of("print nil == false;"), vec!["false".to_string()]);
}

#[test]
fn equal_values_in_different_written_forms_are_equal() {
    assert_eq!(output_of("print 1 == 1.0;"), vec!["true".to_string()]);
    assert_eq!(output_of("print 0.50 == 0.5;"), vec!["true".to_string()]);
}

#[test]
fn chained_unary_minus_evaluates_to_the_operand() {
    assert_eq!(output_of("print --5;"), vec!["5".to_string()]);
}

#[test]
fn bang_requires_a_boolean() {
    assert_eq!(output_of("print !true;"), vec!["false".to_string()]);
    assert_eq!(output_of("print !!false;"), vec!["false".to_string()]);
    assert_eq!(runtime_error_of("print !5;"), "Operand must be a bool: Bang.");
}

#[test]
fn unary_minus_requires_a_number() {
    assert_eq!(runtime_error_of("print -\"a\";"), "Operand must be a number: Minus.");
}

#[test]
fn comparisons_order_numbers() {
    assert_eq!(output_of("print 2 < 3;"), vec!["true".to_string()]);
    assert_eq!(output_of("print 3 <= 2;"), vec!["false".to_string()]);
    assert_eq!(output_of("print 3 > 2.5;"), vec!["true".to_string()]);
    assert_eq!(output_of("print 2 >= 2;"), vec!["true".to_string()]);
    assert_eq!(
        runtime_error_of("print \"a\" < \"b\";"),
        "Expected numbers for Less operation."
    );
}

#[test]
fn division_yields_exact_decimals() {
    assert_eq!(output_of("print 1 / 2;"), vec!["0.5".to_string()]);
    assert_eq!(output_of("print 7 / 4;"), vec!["1.75".to_string()]);
}

#[test]
fn division_by_zero_is_a_runtime_error() {
    assert_eq!(runtime_error_of("print 1 / 0;"), "Division by zero.");
}

#[test]
fn non_terminating_quotient_is_a_runtime_error() {
    assert_eq!(runtime_error_of("print 1 / 3;"), "Numeric result is not representable.");
}

#[test]
fn oversized_product_is_a_runtime_error() {
    assert_eq!(
        runtime_error_of("print 99999999999999999999 * 99999999999999999999;"),
        "Numeric result is not representable."
    );
}

#[test]
fn fractional_arithmetic_is_exact() {
    assert_eq!(output_of("print 0.1 + 0.2;"), vec!["0.3".to_string()]);
    assert_eq!(output_of("print -17.89 * 391.2;"), vec!["-6998.568".to_string()]);
}

#[test]
fn var_statements_fail_loudly_when_executed() {
    assert_eq!(
        runtime_error_of("var x = 1;"),
        "Evaluation of var statements is not supported."
    );
}

#[test]
fn a_runtime_error_stops_the_remaining_statements() {
    let r = run_source("print 1; print 1 + \"a\"; print 2;");
    assert_eq!(r.output, vec!["1".to_string()]);
    let e = r.error.expect("a runtime error was expected");
    assert!(e.is_runtime());
    assert_eq!(e.message(), "Expected numbers or strings for Plus operation.");
}

#[test]
fn recovered_statements_still_run_after_a_parse_error() {
    let r = run_source("var ;\nprint 1;");
    assert_eq!(r.diagnostics.len(), 1);
    assert_eq!(r.output, vec!["1".to_string()]);
    assert!(r.error.is_none());
}

#[test]
fn var_without_initializer_also_fails_loudly() {
    assert_eq!(
        runtime_error_of("var x;"),
        "Evaluation of var statements is not supported."
    );
}

#[test]
fn negative_fractions_print_with_their_sign() {
    assert_eq!(output_of("print -45.67;"), vec!["-45.67".to_string()]);
    assert_eq!(output_of("print -0.5;"), vec!["-0.5".to_string()]);
}

#[test]
fn nested_groupings_evaluate_inside_out() {
    assert_eq!(output_of("print ((1 + 2) * (3 + 4));"), vec!["21".to_string()]);
}

#[test]
fn expression_statements_evaluate_and_discard() {
    let r = run_source("1 + 1; print 2;");
    assert!(r.error.is_none());
    assert_eq!(r.output, vec!["2".to_string()]);
}

#[test]
fn diagnostics_list_scan_faults_then_parse_faults_in_order() {
    let r = run_source("@\nvar ;\nprint 1;");
    assert_eq!(
        r.diagnostics,
        vec![
            "[line 1] Error: Unexpected character: @.".to_string(),
            "[line 2] Error at ';': Expect variable name.".to_string(),
        ]
    );
    assert_eq!(r.output, vec!["1".to_string()]);
    assert!(r.error.is_none());
}
