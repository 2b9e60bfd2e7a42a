//! Lexical units: token kinds, runtime values and the token record.

use vstd::prelude::*;
use crate::decimal::DecModel;
use crate::decimal::Decimal;
use crate::decimal::dec_parse;
use crate::decimal::dec_text;

verus! {

#[derive(Clone, Copy, PartialEq, Eq, Structural, Debug)]
pub enum TokenType {
    // Single-character tokens.
    LeftParen,
    RightParen,
    LeftBrace,
    RightBrace,
    Comma,
    Dot,
    Minus,
    Plus,
    Semicolon,
    Slash,
    Star,
    // One or two character tokens.
    Bang,
    BangEqual,
    Equal,
    EqualEqual,
    Greater,
    GreaterEqual,
    Less,
    LessEqual,
    // Literals.
    Identifier,
    Str,
    Number,
    // Keywords.
    And,
    Class,
    Else,
    False,
    Fun,
    For,
    If,
    Nil,
    Or,
    Print,
    Return,
    Super,
    This,
    True,
    Var,
    While,
    Eof,
}

/// Mathematical model of a runtime value.
pub enum Val {
    Nil,
    Bool(bool),
    Num(DecModel),
    Str(Seq<char>),
}

/// A runtime value: the literal payload of a token and the result of
/// evaluating an expression.
#[derive(Clone, Debug, PartialEq)]
pub enum Object {
    Nil,
    Bool(bool),
    Number(Decimal),
    Str(String),
}

impl View for Object {
    type V = Val;

    open spec fn view(&self) -> Val {
        match self {
            Object::Nil => Val::Nil,
            Object::Bool(b) => Val::Bool(*b),
            Object::Number(d) => Val::Num(d@),
            Object::Str(s) => Val::Str(s@),
        }
    }
}

/// Numbers carried inside values are canonical decimals.
pub open spec fn obj_wf(o: Object) -> bool {
    match o {
        Object::Number(d) => d.wf(),
        _ => true,
    }
}

/// The textual form of a value, as `print` emits it.
pub open spec fn val_text(v: Val) -> Seq<char> {
    match v {
        Val::Nil => "nil"@,
        Val::Bool(b) => if b {
            "true"@
        } else {
            "false"@
        },
        Val::Num(d) => dec_text(d),
        Val::Str(s) => s,
    }
}

impl Object {
    /// Renders the value: numbers as their decimal text, booleans as
    /// `true`/`false`, nil as `nil`, strings as their raw contents.
    pub fn to_text(&self) -> (r: String)
        requires
            obj_wf(*self),
        ensures
            r@ == val_text(self@),
    {
        match self {
            Object::Nil => String::from_str("nil"),
            Object::Bool(b) => if *b {
                String::from_str("true")
            } else {
                String::from_str("false")
            },
            Object::Number(d) => d.to_text(),
            Object::Str(s) => s.clone(),
        }
    }

    /// A copy with the same modelled value.
    pub fn duplicate(&self) -> (r: Object)
        ensures
            r@ == self@,
            obj_wf(r) == obj_wf(*self),
    {
        match self {
            Object::Nil => Object::Nil,
            Object::Bool(b) => Object::Bool(*b),
            Object::Number(d) => Object::Number(*d),
            Object::Str(s) => Object::Str(s.clone()),
        }
    }
}

/// Mathematical model of a token.
pub struct TokenModel {
    pub type_: TokenType,
    pub lexeme: Seq<char>,
    pub literal: Val,
    pub line: int,
}

/// A classified, positioned lexical unit produced by scanning.
#[derive(Clone, Debug, PartialEq)]
pub struct Token {
    pub type_: TokenType,
    pub lexeme: String,
    pub literal: Object,
    pub line: u32,
}

impl View for Token {
    type V = TokenModel;

    open spec fn view(&self) -> TokenModel {
        TokenModel {
            type_: self.type_,
            lexeme: self.lexeme@,
            literal: self.literal@,
            line: self.line as int,
        }
    }
}

pub open spec fn token_wf(t: Token) -> bool {
    obj_wf(t.literal)
}

/// The literal payload a token kind permits: a number token carries a
/// number, a string token its contents, and every other kind no value.
pub open spec fn token_consistent(t: Token) -> bool {
    match t.type_ {
        TokenType::Number => t.literal is Number,
        TokenType::Str => t.literal is Str,
        _ => t.literal is Nil,
    }
}

/// What a literal-bearing token's payload says about its lexeme: a number
/// token carries exactly the decimal its lexeme spells, and a string token
/// carries exactly the characters between its two quotes.
pub open spec fn token_literal_exact(t: Token) -> bool {
    match t.type_ {
        TokenType::Number => match t.literal {
            Object::Number(d) => dec_parse(t.lexeme@) == Some(d@),
            _ => false,
        },
        TokenType::Str => t.lexeme@.len() >= 2 && t.literal@ == Val::Str(
            t.lexeme@.subrange(1, t.lexeme@.len() - 1),
        ),
        _ => true,
    }
}

impl Token {
    pub fn new(type_: TokenType, lexeme: String, literal: Object, line: u32) -> (t: Token)
        ensures
            t.type_ == type_,
            t.lexeme == lexeme,
            t.literal == literal,
            t.line == line,
    {
        Token { type_, lexeme, literal, line }
    }

    /// A copy with the same modelled fields.
    pub fn duplicate(&self) -> (r: Token)
        ensures
            r@ == self@,
            token_wf(r) == token_wf(*self),
    {
        Token {
            type_: self.type_,
            lexeme: self.lexeme.clone(),
            literal: self.literal.duplicate(),
            line: self.line,
        }
    }
}

} // verus!
