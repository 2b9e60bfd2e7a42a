//! The whole pipeline on one source string: scan, parse, evaluate.
//!
//! This is the computing half of the host boundary: a host shell hands in
//! the source text and receives the printed lines, the diagnostics and the
//! first runtime failure as plain values, and does whatever output it likes
//! with them.

use vstd::prelude::*;
use crate::ast::Stmt;
use crate::error::ErrModel;
use crate::error::Error;
use crate::interpreter::Interpreter;
use crate::interpreter::run_err_text;
use crate::interpreter::run_program;
use crate::parser::Parser;
use crate::parser::p_program;
use crate::scanner::Scanner;
use crate::scanner::lexical_scan;
use crate::token::Token;
use crate::token::TokenModel;
use crate::token::TokenType;
use crate::token::Val;

verus! {

/// Everything one run of a source string yields.
pub struct RunResult {
    /// The lines the program printed, in program order.
    pub output: Vec<String>,
    /// Scan diagnostics followed by parse diagnostics, in the order found.
    pub diagnostics: Vec<String>,
    /// The first runtime failure, where one stopped the program.
    pub error: Option<Error>,
}

fn clone_strings(v: &Vec<String>) -> (r: Vec<String>)
    ensures
        r@.len() == v@.len(),
        forall|i: int| 0 <= i < r@.len() ==> r@[i]@ == v@[i]@,
{
    let mut r: Vec<String> = Vec::new();
    let n = v.len();
    let mut i: usize = 0;
    while i < n
        invariant
            i <= n,
            n == v@.len(),
            r@.len() == i,
            forall|j: int| 0 <= j < i ==> r@[j]@ == v@[j]@,
        decreases n - i,
    {
        r.push(v[i].clone());
        i = i + 1;
    }
    r
}

/// The token models one scan hands to the parser: the lexical tokens of the
/// source followed by the closing end-of-input token.
pub open spec fn scanned_tokens(source: Seq<char>) -> Seq<TokenModel> {
    lexical_scan(source, 0, 1).0.push(
        TokenModel {
            type_: TokenType::Eof,
            lexeme: Seq::empty(),
            literal: Val::Nil,
            line: lexical_scan(source, 0, 1).2,
        },
    )
}

/// Scans, parses and evaluates one source string. The diagnostics are
/// exactly the scanner's fault lines followed by the parser's diagnostic
/// lines, in order; the output and the failure are exactly what running the
/// parsed statements yields. Scanning and parsing never fail; only
/// evaluation can stop the program, and its failure is a runtime one.
pub fn run_source(source: &str) -> (r: RunResult)
    ensures
        r.error matches Some(e) ==> e@ is Runtime,
        r.diagnostics@.len() == lexical_scan(source@, 0, 1).1.len() + p_program(
            scanned_tokens(source@),
            0,
        ).1.len(),
        forall|i: int|
            0 <= i < lexical_scan(source@, 0, 1).1.len() ==> r.diagnostics@[i]@ == lexical_scan(
                source@,
                0,
                1,
            ).1[i],
        forall|i: int|
            0 <= i < p_program(scanned_tokens(source@), 0).1.len() ==> r.diagnostics@[lexical_scan(
                source@,
                0,
                1,
            ).1.len() + i]@ == p_program(scanned_tokens(source@), 0).1[i],
        exists|stmts: Seq<Stmt>|
            {
                &&& stmts.map_values(|st: Stmt| st@) == p_program(scanned_tokens(source@), 0).0
                &&& r.output@.len() == run_program(stmts).0.len()
                &&& (forall|i: int|
                    0 <= i < r.output@.len() ==> r.output@[i]@ == run_program(stmts).0[i])
                &&& (match r.error {
                    Some(e) => run_program(stmts).1 matches Some(k) && e@ == ErrModel::Runtime(
                        run_err_text(k),
                    ),
                    None => run_program(stmts).1 is None,
                })
            },
{
    let mut scanner = Scanner::new(source);
    let tokens = scanner.scan_tokens();
    proof {
        assert(tokens@.map_values(|t: Token| t@) =~= tokens@.drop_last().map_values(
            |t: Token| t@,
        ).push(tokens@.last()@));
        assert(tokens@.map_values(|t: Token| t@) =~= scanned_tokens(source@));
    }
    let mut diagnostics = clone_strings(scanner.diagnostics());
    let mut parser = Parser::new(tokens);
    let parsed = parser.parse();
    let statements = match parsed {
        Ok(s) => s,
        Err(_) => Vec::new(),
    };
    let ghost stmts_view = statements@;
    proof {
        assert(Seq::<Seq<char>>::empty() + p_program(scanned_tokens(source@), 0).1 =~= p_program(
            scanned_tokens(source@),
            0,
        ).1);
    }
    let parse_diags = clone_strings(parser.diagnostics());
    let n = parse_diags.len();
    let mut i: usize = 0;
    while i < n
        invariant
            i <= n,
            n == parse_diags@.len(),
            n == p_program(scanned_tokens(source@), 0).1.len(),
            forall|j: int|
                0 <= j < n ==> parse_diags@[j]@ == p_program(scanned_tokens(source@), 0).1[j],
            diagnostics@.len() == lexical_scan(source@, 0, 1).1.len() + i,
            forall|j: int|
                0 <= j < lexical_scan(source@, 0, 1).1.len() ==> diagnostics@[j]@ == lexical_scan(
                    source@,
                    0,
                    1,
                ).1[j],
            forall|j: int|
                0 <= j < i ==> diagnostics@[lexical_scan(source@, 0, 1).1.len() + j]@ == p_program(
                    scanned_tokens(source@),
                    0,
                ).1[j],
        decreases n - i,
    {
        diagnostics.push(parse_diags[i].clone());
        i = i + 1;
    }
    let mut interpreter = Interpreter::new();
    let res = interpreter.interpret(statements);
    let error = match res {
        Ok(u) => None,
        Err(e) => Some(e),
    };
    let output = clone_strings(interpreter.output());
    proof {
        assert(interpreter@ =~= run_program(stmts_view).0);
    }
    RunResult { output, diagnostics, error }
}

} // verus!
