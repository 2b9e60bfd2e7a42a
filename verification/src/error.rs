//! Failure values and the textual shape of diagnostics.
//!
//! Diagnostics are returned to the caller as strings of the exact shape
//! `[line <n>] Error<location>: <message>`; nothing in the core writes to an
//! output channel itself.

use vstd::prelude::*;
use crate::text::digits_text;
use crate::text::push_u32;
use crate::token::Token;
use crate::token::TokenModel;
use crate::token::TokenType;

verus! {

/// Mathematical model of a failure: which stage failed, and its message.
pub enum ErrModel {
    Parser(Seq<char>),
    Runtime(Seq<char>),
}

/// A failure: a grammar violation found while parsing, or an operand type
/// mismatch found while evaluating.
#[derive(Debug)]
pub enum Error {
    ParserError(String),
    RuntimeError(String),
}

impl View for Error {
    type V = ErrModel;

    open spec fn view(&self) -> ErrModel {
        match self {
            Error::ParserError(m) => ErrModel::Parser(m@),
            Error::RuntimeError(m) => ErrModel::Runtime(m@),
        }
    }
}

impl Error {
    pub fn new(message: &str) -> (e: Error)
        ensures
            e@ == ErrModel::Parser(message@),
    {
        Error::ParserError(message.to_owned())
    }

    pub fn parser_error(message: &str) -> (e: Error)
        ensures
            e@ == ErrModel::Parser(message@),
    {
        Error::ParserError(message.to_owned())
    }

    pub fn runtime_error(message: &str) -> (e: Error)
        ensures
            e@ == ErrModel::Runtime(message@),
    {
        Error::RuntimeError(message.to_owned())
    }

    /// The human-readable message the failure carries.
    pub fn message(&self) -> (r: &String)
        ensures
            match self@ {
                ErrModel::Parser(m) => r@ == m,
                ErrModel::Runtime(m) => r@ == m,
            },
    {
        match self {
            Error::ParserError(m) => m,
            Error::RuntimeError(m) => m,
        }
    }

    pub fn is_runtime(&self) -> (r: bool)
        ensures
            r == (self@ is Runtime),
    {
        match self {
            Error::ParserError(m) => false,
            Error::RuntimeError(m) => true,
        }
    }
}

/// The one diagnostic shape: `[line <n>] Error<location>: <message>`.
pub open spec fn report_text(line: int, location: Seq<char>, message: Seq<char>) -> Seq<char> {
    "[line "@ + digits_text(line) + "] Error"@ + location + ": "@ + message
}

/// Where a parse diagnostic points: at the end of input, or at a lexeme.
pub open spec fn parser_error_text(t: TokenModel, message: Seq<char>) -> Seq<char> {
    if t.type_ == TokenType::Eof {
        report_text(t.line, " at end"@, message)
    } else {
        report_text(t.line, " at '"@ + t.lexeme + "'"@, message)
    }
}

/// Builds the diagnostic line for a location given as text.
pub fn report(line: u32, where_: &str, message: &str) -> (r: String)
    ensures
        r@ == report_text(line as int, where_@, message@),
{
    let mut out = String::from_str("[line ");
    push_u32(&mut out, line);
    out.append("] Error");
    out.append(where_);
    out.append(": ");
    out.append(message);
    proof {
        assert(out@ =~= report_text(line as int, where_@, message@));
    }
    out
}

/// Builds the diagnostic line for a scanning fault, which has no location.
pub fn error(line: u32, message: &str) -> (r: String)
    ensures
        r@ == report_text(line as int, ""@, message@),
{
    report(line, "", message)
}

/// Builds the diagnostic line for a parse fault at the given token.
pub fn parser_error(token: &Token, message: &str) -> (r: String)
    ensures
        r@ == parser_error_text(token@, message@),
{
    if token.type_ == TokenType::Eof {
        report(token.line, " at end", message)
    } else {
        let mut loc = String::from_str(" at '");
        loc.append(token.lexeme.as_str());
        loc.append("'");
        let r = report(token.line, loc.as_str(), message);
        proof {
            assert(loc@ =~= " at '"@ + token@.lexeme + "'"@);
        }
        r
    }
}

} // verus!
