//! The recursive-descent parser.
//!
//! One method per precedence level, each parsing the next-higher level and
//! left-folding operators of its own level into binary nodes. On a grammar
//! violation the offending statement is abandoned, a diagnostic is recorded,
//! and parsing resumes at the next statement boundary, so one mistake spoils
//! at most one statement. Every statement handed back is well formed:
//! operators only where the grammar permits them, literals canonical.

use vstd::prelude::*;
use crate::ast::Expr;
use crate::ast::ExprModel;
use crate::ast::Stmt;
use crate::ast::StmtModel;
use crate::ast::binary_prec;
use crate::ast::expr_prec_wf;
use crate::ast::expr_wf;
use crate::ast::stmt_prec_wf;
use crate::ast::stmt_wf;
use crate::ast::top_prec;
use crate::error::ErrModel;
use crate::error::Error;
use crate::error::parser_error;
use crate::error::parser_error_text;
use crate::token::Object;
use crate::token::Token;
use crate::token::TokenModel;
use crate::token::TokenType;
use crate::token::Val;
use crate::token::token_wf;

verus! {

/// What the scanner guarantees of its output: at least the closing
/// end-of-input token, which is the last element and appears only there,
/// and every token well formed.
pub open spec fn tokens_wf(ts: Seq<Token>) -> bool {
    &&& ts.len() >= 1
    &&& ts[ts.len() - 1].type_ == TokenType::Eof
    &&& forall|i: int| 0 <= i < ts.len() - 1 ==> (#[trigger] ts[i].type_) != TokenType::Eof
    &&& forall|i: int| 0 <= i < ts.len() ==> token_wf(#[trigger] ts[i])
}


// ---------------------------------------------------------------------------
// The grammar as specification functions, one per precedence level, mirroring
// the executable parser over token models. Each yields the cursor after the
// attempt and either the node it produced or the parse error it raised: the
// message the returned `Error` carries, and the diagnostic line recorded for
// it, anchored at the failing token. The cursor checks such as
// `i < i2 <= ts.len()` on recursive calls only serve termination of these
// definitions; the executable parser is proved to advance, so it never
// reaches them.
// ---------------------------------------------------------------------------

/// A parse error: the message its `Error` value carries, and the diagnostic
/// line recorded for it.
pub struct PErr {
    pub msg: Seq<char>,
    pub diag: Seq<char>,
}

/// The error a failed `consume` (or the expect-expression fallback) raises:
/// the message, and the diagnostic anchored at the token under the cursor.
pub open spec fn consume_err(ts: Seq<TokenModel>, i: int, msg: Seq<char>) -> PErr {
    PErr { msg, diag: parser_error_text(ts[i], msg) }
}

/// Only the termination guards of these definitions yield this error; the
/// executable parser always advances, so it never does.
pub open spec fn guard_err() -> PErr {
    PErr { msg: Seq::empty(), diag: Seq::empty() }
}

pub open spec fn p_primary(ts: Seq<TokenModel>, i: int) -> (int, Result<ExprModel, PErr>)
    decreases ts.len() - i, 1int,
{
    if i < 0 || i >= ts.len() {
        (i, Err(guard_err()))
    } else {
        let t = ts[i].type_;
        if t == TokenType::False {
            (i + 1, Ok(ExprModel::Literal { value: Val::Bool(false) }))
        } else if t == TokenType::True {
            (i + 1, Ok(ExprModel::Literal { value: Val::Bool(true) }))
        } else if t == TokenType::Nil {
            (i + 1, Ok(ExprModel::Literal { value: Val::Nil }))
        } else if t == TokenType::Number || t == TokenType::Str {
            (i + 1, Ok(ExprModel::Literal { value: ts[i].literal }))
        } else if t == TokenType::LeftParen {
            let (i2, r) = p_expression(ts, i + 1);
            match r {
                Ok(e) => if 0 <= i2 < ts.len() && ts[i2].type_ == TokenType::RightParen {
                    (i2 + 1, Ok(ExprModel::Grouping { expression: Box::new(e) }))
                } else {
                    (i2, Err(consume_err(ts, i2, "Expect ')' after expression."@)))
                },
                Err(pe) => (i2, Err(pe)),
            }
        } else {
            (i, Err(consume_err(ts, i, "Expect expression."@)))
        }
    }
}

pub open spec fn p_unary(ts: Seq<TokenModel>, i: int) -> (int, Result<ExprModel, PErr>)
    decreases ts.len() - i, 2int,
{
    if i < 0 || i >= ts.len() {
        (i, Err(guard_err()))
    } else if ts[i].type_ == TokenType::Bang || ts[i].type_ == TokenType::Minus {
        let (i2, r) = p_unary(ts, i + 1);
        match r {
            Ok(e) => (i2, Ok(ExprModel::Unary { operator: ts[i], right: Box::new(e) })),
            Err(pe) => (i2, Err(pe)),
        }
    } else {
        p_primary(ts, i)
    }
}

pub open spec fn p_factor_loop(ts: Seq<TokenModel>, i: int, acc: ExprModel) -> (
    int,
    Result<ExprModel, PErr>,
)
    decreases ts.len() - i, 0int,
{
    if 0 <= i < ts.len() && (ts[i].type_ == TokenType::Slash || ts[i].type_ == TokenType::Star) {
        let op = ts[i];
        let (i2, r) = p_unary(ts, i + 1);
        match r {
            Ok(right) => if i < i2 <= ts.len() {
                p_factor_loop(
                    ts,
                    i2,
                    ExprModel::Binary { left: Box::new(acc), operator: op, right: Box::new(right) },
                )
            } else {
                (i2, Err(guard_err()))
            },
            Err(pe) => (i2, Err(pe)),
        }
    } else {
        (i, Ok(acc))
    }
}

pub open spec fn p_factor(ts: Seq<TokenModel>, i: int) -> (int, Result<ExprModel, PErr>)
    decreases ts.len() - i, 3int,
{
    if i < 0 || i >= ts.len() {
        (i, Err(guard_err()))
    } else {
        let (i1, r) = p_unary(ts, i);
        match r {
            Ok(e) => if i <= i1 <= ts.len() {
                p_factor_loop(ts, i1, e)
            } else {
                (i1, Err(guard_err()))
            },
            Err(pe) => (i1, Err(pe)),
        }
    }
}

pub open spec fn p_term_loop(ts: Seq<TokenModel>, i: int, acc: ExprModel) -> (
    int,
    Result<ExprModel, PErr>,
)
    decreases ts.len() - i, 4int,
{
    if 0 <= i < ts.len() && (ts[i].type_ == TokenType::Minus || ts[i].type_ == TokenType::Plus) {
        let op = ts[i];
        let (i2, r) = p_factor(ts, i + 1);
        match r {
            Ok(right) => if i < i2 <= ts.len() {
                p_term_loop(
                    ts,
                    i2,
                    ExprModel::Binary { left: Box::new(acc), operator: op, right: Box::new(right) },
                )
            } else {
                (i2, Err(guard_err()))
            },
            Err(pe) => (i2, Err(pe)),
        }
    } else {
        (i, Ok(acc))
    }
}

pub open spec fn p_term(ts: Seq<TokenModel>, i: int) -> (int, Result<ExprModel, PErr>)
    decreases ts.len() - i, 5int,
{
    if i < 0 || i >= ts.len() {
        (i, Err(guard_err()))
    } else {
        let (i1, r) = p_factor(ts, i);
        match r {
            Ok(e) => if i <= i1 <= ts.len() {
                p_term_loop(ts, i1, e)
            } else {
                (i1, Err(guard_err()))
            },
            Err(pe) => (i1, Err(pe)),
        }
    }
}

pub open spec fn p_comparison_loop(ts: Seq<TokenModel>, i: int, acc: ExprModel) -> (
    int,
    Result<ExprModel, PErr>,
)
    decreases ts.len() - i, 6int,
{
    if 0 <= i < ts.len() && (ts[i].type_ == TokenType::Greater || ts[i].type_
        == TokenType::GreaterEqual || ts[i].type_ == TokenType::Less || ts[i].type_
        == TokenType::LessEqual) {
        let op = ts[i];
        let (i2, r) = p_term(ts, i + 1);
        match r {
            Ok(right) => if i < i2 <= ts.len() {
                p_comparison_loop(
                    ts,
                    i2,
                    ExprModel::Binary { left: Box::new(acc), operator: op, right: Box::new(right) },
                )
            } else {
                (i2, Err(guard_err()))
            },
            Err(pe) => (i2, Err(pe)),
        }
    } else {
        (i, Ok(acc))
    }
}

pub open spec fn p_comparison(ts: Seq<TokenModel>, i: int) -> (int, Result<ExprModel, PErr>)
    decreases ts.len() - i, 7int,
{
    if i < 0 || i >= ts.len() {
        (i, Err(guard_err()))
    } else {
        let (i1, r) = p_term(ts, i);
        match r {
            Ok(e) => if i <= i1 <= ts.len() {
                p_comparison_loop(ts, i1, e)
            } else {
                (i1, Err(guard_err()))
            },
            Err(pe) => (i1, Err(pe)),
        }
    }
}

pub open spec fn p_equality_loop(ts: Seq<TokenModel>, i: int, acc: ExprModel) -> (
    int,
    Result<ExprModel, PErr>,
)
    decreases ts.len() - i, 8int,
{
    if 0 <= i < ts.len() && (ts[i].type_ == TokenType::BangEqual || ts[i].type_
        == TokenType::EqualEqual) {
        let op = ts[i];
        let (i2, r) = p_comparison(ts, i + 1);
        match r {
            Ok(right) => if i < i2 <= ts.len() {
                p_equality_loop(
                    ts,
                    i2,
                    ExprModel::Binary { left: Box::new(acc), operator: op, right: Box::new(right) },
                )
            } else {
                (i2, Err(guard_err()))
            },
            Err(pe) => (i2, Err(pe)),
        }
    } else {
        (i, Ok(acc))
    }
}

pub open spec fn p_equality(ts: Seq<TokenModel>, i: int) -> (int, Result<ExprModel, PErr>)
    decreases ts.len() - i, 9int,
{
    if i < 0 || i >= ts.len() {
        (i, Err(guard_err()))
    } else {
        let (i1, r) = p_comparison(ts, i);
        match r {
            Ok(e) => if i <= i1 <= ts.len() {
                p_equality_loop(ts, i1, e)
            } else {
                (i1, Err(guard_err()))
            },
            Err(pe) => (i1, Err(pe)),
        }
    }
}

pub open spec fn p_expression(ts: Seq<TokenModel>, i: int) -> (int, Result<ExprModel, PErr>)
    decreases ts.len() - i, 10int,
{
    p_equality(ts, i)
}

pub open spec fn p_print_statement(ts: Seq<TokenModel>, i: int) -> (int, Result<StmtModel, PErr>)
    decreases ts.len() - i, 11int,
{
    let (i1, r) = p_expression(ts, i);
    match r {
        Ok(e) => if 0 <= i1 < ts.len() && ts[i1].type_ == TokenType::Semicolon {
            (i1 + 1, Ok(StmtModel::Print { expression: e }))
        } else {
            (i1, Err(consume_err(ts, i1, "Expect ';' after value."@)))
        },
        Err(pe) => (i1, Err(pe)),
    }
}

pub open spec fn p_expression_statement(ts: Seq<TokenModel>, i: int) -> (
    int,
    Result<StmtModel, PErr>,
)
    decreases ts.len() - i, 11int,
{
    let (i1, r) = p_expression(ts, i);
    match r {
        Ok(e) => if 0 <= i1 < ts.len() && ts[i1].type_ == TokenType::Semicolon {
            (i1 + 1, Ok(StmtModel::Expression { expression: e }))
        } else {
            (i1, Err(consume_err(ts, i1, "Expect ';' after expression."@)))
        },
        Err(pe) => (i1, Err(pe)),
    }
}

pub open spec fn p_var_declaration(ts: Seq<TokenModel>, i: int) -> (int, Result<StmtModel, PErr>)
    decreases ts.len() - i, 11int,
{
    if 0 <= i < ts.len() && ts[i].type_ == TokenType::Identifier {
        let name = ts[i];
        if i + 1 < ts.len() && ts[i + 1].type_ == TokenType::Equal {
            let (i2, r) = p_expression(ts, i + 2);
            match r {
                Ok(e) => if 0 <= i2 < ts.len() && ts[i2].type_ == TokenType::Semicolon {
                    (i2 + 1, Ok(StmtModel::Var { name, initializer: Some(e) }))
                } else {
                    (i2, Err(consume_err(ts, i2, "Expect ';' after variable declaration."@)))
                },
                Err(pe) => (i2, Err(pe)),
            }
        } else {
            if i + 1 < ts.len() && ts[i + 1].type_ == TokenType::Semicolon {
                (i + 2, Ok(StmtModel::Var { name, initializer: None }))
            } else {
                (i + 1, Err(consume_err(ts, i + 1, "Expect ';' after variable declaration."@)))
            }
        }
    } else {
        (i, Err(consume_err(ts, i, "Expect variable name."@)))
    }
}

pub open spec fn p_statement(ts: Seq<TokenModel>, i: int) -> (int, Result<StmtModel, PErr>)
    decreases ts.len() - i, 12int,
{
    if i < 0 || i >= ts.len() {
        (i, Err(guard_err()))
    } else if ts[i].type_ == TokenType::Print {
        p_print_statement(ts, i + 1)
    } else {
        p_expression_statement(ts, i)
    }
}

pub open spec fn p_declaration(ts: Seq<TokenModel>, i: int) -> (int, Result<StmtModel, PErr>)
    decreases ts.len() - i, 13int,
{
    if i < 0 || i >= ts.len() {
        (i, Err(guard_err()))
    } else if ts[i].type_ == TokenType::Var {
        p_var_declaration(ts, i + 1)
    } else {
        p_statement(ts, i)
    }
}

/// A token kind that can begin a statement, where synchronization stops.
pub open spec fn is_stmt_start(t: TokenType) -> bool {
    ||| t == TokenType::Class
    ||| t == TokenType::Fun
    ||| t == TokenType::Var
    ||| t == TokenType::For
    ||| t == TokenType::If
    ||| t == TokenType::While
    ||| t == TokenType::Print
    ||| t == TokenType::Return
}

pub open spec fn p_sync_loop(ts: Seq<TokenModel>, i: int) -> int
    decreases ts.len() - i, 0int,
{
    if i < 1 || i >= ts.len() || ts[i].type_ == TokenType::Eof {
        i
    } else if ts[i - 1].type_ == TokenType::Semicolon {
        i
    } else if is_stmt_start(ts[i].type_) {
        i
    } else {
        p_sync_loop(ts, i + 1)
    }
}

/// Where panic-mode recovery resumes: the errant token is discarded, then
/// tokens are dropped up to just past a semicolon or just before a token
/// that can begin a statement, or to the end of input.
pub open spec fn p_synchronize(ts: Seq<TokenModel>, i: int) -> int
    decreases ts.len() - i, 1int,
{
    if i < 0 || i >= ts.len() || ts[i].type_ == TokenType::Eof {
        i
    } else {
        p_sync_loop(ts, i + 1)
    }
}

/// The whole program: the statements that parse, in input order, and the
/// diagnostic lines recorded, one per dropped statement, each anchored at
/// the token where its statement failed.
pub open spec fn p_program(ts: Seq<TokenModel>, i: int) -> (Seq<StmtModel>, Seq<Seq<char>>)
    decreases ts.len() - i, 14int,
{
    if i < 0 || i >= ts.len() || ts[i].type_ == TokenType::Eof {
        (Seq::empty(), Seq::empty())
    } else {
        let (i2, r) = p_declaration(ts, i);
        match r {
            Ok(s) => if i < i2 <= ts.len() {
                let rest = p_program(ts, i2);
                (seq![s] + rest.0, rest.1)
            } else {
                (Seq::empty(), Seq::empty())
            },
            Err(pe) => {
                let i3 = p_synchronize(ts, i2);
                if i < i3 <= ts.len() {
                    let rest = p_program(ts, i3);
                    (rest.0, seq![pe.diag] + rest.1)
                } else {
                    (Seq::empty(), seq![pe.diag])
                }
            },
        }
    }
}

/// Consumes a token sequence and produces statements.
pub struct Parser {
    tokens: Vec<Token>,
    current: usize,
    diagnostics: Vec<String>,
}

impl View for Parser {
    type V = Seq<TokenModel>;

    /// A parser is modelled by the token sequence it consumes.
    closed spec fn view(&self) -> Seq<TokenModel> {
        self.tokens@.map_values(|t: Token| t@)
    }
}

impl Parser {
    /// The cursor: how many tokens have been consumed.
    pub closed spec fn cursor(&self) -> int {
        self.current as int
    }
    /// The token sequence is well formed and the cursor never passes the
    /// closing end-of-input token.
    pub closed spec fn wf(&self) -> bool {
        tokens_wf(self.tokens@) && self.current < self.tokens@.len()
    }

    /// The token under the cursor.
    closed spec fn cur_token(&self) -> Token {
        self.tokens@[self.current as int]
    }

    closed spec fn cur_type(&self) -> TokenType {
        self.cur_token().type_
    }

    closed spec fn toks(&self) -> Seq<Token> {
        self.tokens@
    }

    /// The diagnostic lines recorded so far, in order.
    pub closed spec fn diags(&self) -> Seq<Seq<char>> {
        self.diagnostics@.map_values(|d: String| d@)
    }

    pub fn new(tokens: Vec<Token>) -> (r: Parser)
        requires
            tokens_wf(tokens@),
        ensures
            r.wf(),
            r@ == tokens@.map_values(|t: Token| t@),
            r.cursor() == 0,
            r.diags() == Seq::<Seq<char>>::empty(),
    {
        let r = Parser { tokens, current: 0, diagnostics: Vec::new() };
        proof {
            assert(r.diags() =~= Seq::<Seq<char>>::empty());
        }
        r
    }

    /// The diagnostics recorded so far, one line per parse error.
    pub fn diagnostics(&self) -> (r: &Vec<String>)
        ensures
            r@.len() == self.diags().len(),
            forall|i: int| 0 <= i < r@.len() ==> r@[i]@ == self.diags()[i],
    {
        &self.diagnostics
    }

    /// Parses the whole program, best-effort: the result is exactly the
    /// statements `p_program` prescribes for the token sequence — every
    /// statement that parses, in input order, each errored statement dropped
    /// after synchronization with exactly its diagnostic line recorded,
    /// anchored at the failing token — and each returned statement is well
    /// formed.
    #[verifier::rlimit(60)]
    pub fn parse(&mut self) -> (r: Result<Vec<Stmt>, Error>)
        requires
            old(self).wf(),
        ensures
            final(self).wf(),
            r matches Ok(stmts) && (forall|i: int|
                0 <= i < stmts@.len() ==> stmt_wf(#[trigger] stmts@[i]) && stmt_prec_wf(
                    stmts@[i],
                )),
            r matches Ok(stmts) && stmts@.map_values(|st: Stmt| st@) == p_program(
                old(self)@,
                old(self).cursor(),
            ).0,
            final(self).diags() == old(self).diags() + p_program(
                old(self)@,
                old(self).cursor(),
            ).1,
    {
        let ghost ts = old(self)@;
        let ghost i0 = old(self).cursor();
        let mut statements: Vec<Stmt> = Vec::new();
        proof {
            assert(statements@.map_values(|st: Stmt| st@) + p_program(ts, i0).0 =~= p_program(
                ts,
                i0,
            ).0);
        }
        while !self.is_at_end()
            invariant
                self.wf(),
                self.toks() == old(self).toks(),
                self@ == ts,
                ts == old(self)@,
                i0 == old(self).cursor(),
                forall|i: int|
                    0 <= i < statements@.len() ==> stmt_wf(#[trigger] statements@[i])
                        && stmt_prec_wf(statements@[i]),
                statements@.map_values(|st: Stmt| st@) + p_program(ts, self.cursor()).0
                    == p_program(ts, i0).0,
                self.diags() + p_program(ts, self.cursor()).1 == old(self).diags() + p_program(
                    ts,
                    i0,
                ).1,
            decreases self.toks().len() - self.current,
        {
            let ghost pre = self.cursor();
            let ghost d0 = self.diags();
            proof {
                assert(0 <= pre < ts.len());
                assert(ts[pre].type_ != TokenType::Eof);
            }
            match self.declaration() {
                Ok(d) => {
                    proof {
                        assert(p_program(ts, pre) == (
                            seq![d@] + p_program(ts, self.cursor()).0,
                            p_program(ts, self.cursor()).1,
                        ));
                        assert(statements@.push(d).map_values(|st: Stmt| st@)
                            =~= statements@.map_values(|st: Stmt| st@).push(d@));
                        assert(statements@.map_values(|st: Stmt| st@).push(d@) + p_program(
                            ts,
                            self.cursor(),
                        ).0 =~= statements@.map_values(|st: Stmt| st@) + (seq![d@] + p_program(
                            ts,
                            self.cursor(),
                        ).0));
                    }
                    statements.push(d);
                },
                Err(_e) => {
                    // skip to the next statement boundary
                    let ghost mid = self.cursor();
                    let ghost d1 = self.diags();
                    self.synchronize();
                    proof {
                        assert(mid > pre || self.cursor() > mid);
                        match p_declaration(ts, pre).1 {
                            Err(pe) => {
                                assert(p_program(ts, pre) == (
                                    p_program(ts, self.cursor()).0,
                                    seq![pe.diag] + p_program(ts, self.cursor()).1,
                                ));
                                assert(d0.push(pe.diag) =~= d0 + seq![pe.diag]);
                                assert(self.diags() + p_program(ts, self.cursor()).1
                                    =~= old(self).diags() + p_program(ts, i0).1);
                            },
                            Ok(st) => {
                                assert(false);
                            },
                        }
                    }
                },
            }
            proof {
                assert(self.current > pre);
            }
        }
        proof {
            assert(p_program(ts, self.cursor()).0 =~= Seq::<StmtModel>::empty());
            assert(statements@.map_values(|st: Stmt| st@) + p_program(ts, self.cursor()).0
                =~= statements@.map_values(|st: Stmt| st@));
            assert(p_program(ts, self.cursor()).1 =~= Seq::<Seq<char>>::empty());
            assert(self.diags() + p_program(ts, self.cursor()).1 =~= self.diags());
            assert(self.diags() =~= old(self).diags() + p_program(ts, i0).1);
        }
        Ok(statements)
    }

    fn expression(&mut self) -> (r: Result<Expr, Error>)
        requires
            old(self).wf(),
        ensures
            final(self).wf(),
            final(self).toks() == old(self).toks(),
            final(self).current >= old(self).current,
            r matches Ok(e) ==> expr_wf(e) && expr_prec_wf(e) && top_prec(e) >= 1 && final(self).current > old(self).current,
            ({
                let (ni, out) = p_expression(old(self)@, old(self).cursor());
                final(self).cursor() == ni && (match r {
                    Ok(e) => out == Ok::<ExprModel, PErr>(e@) && final(self).diags() == old(self).diags(),
                    Err(e2) => out matches Err(pe) && e2@ == ErrModel::Parser(pe.msg) && final(self).diags() == old(self).diags().push(pe.diag),
                })
            }),
        decreases old(self).toks().len() - old(self).current, 7int,
    {
        self.equality()
    }

    /// A declaration: a var statement, or any other statement.
    fn declaration(&mut self) -> (r: Result<Stmt, Error>)
        requires
            old(self).wf(),
        ensures
            final(self).wf(),
            final(self).toks() == old(self).toks(),
            final(self).current >= old(self).current,
            r matches Ok(s) ==> stmt_wf(s) && stmt_prec_wf(s) && final(self).current > old(self).current,
            ({
                let (ni, out) = p_declaration(old(self)@, old(self).cursor());
                final(self).cursor() == ni && (match r {
                    Ok(s) => out == Ok::<StmtModel, PErr>(s@) && final(self).diags() == old(self).diags(),
                    Err(e2) => out matches Err(pe) && e2@ == ErrModel::Parser(pe.msg) && final(self).diags() == old(self).diags().push(pe.diag),
                })
            }),
        decreases old(self).toks().len() - old(self).current, 10int,
    {
        let ghost ts = old(self)@;
        let ghost i0 = old(self).cursor();
        proof {
            assert(0 <= i0 < ts.len());
        }
        if self.match_token(vec![TokenType::Var]) {
            proof {
                assert(ts[i0].type_ == TokenType::Var);
            }
            return self.var_declaration();
        }
        self.statement()
    }

    fn statement(&mut self) -> (r: Result<Stmt, Error>)
        requires
            old(self).wf(),
        ensures
            final(self).wf(),
            final(self).toks() == old(self).toks(),
            final(self).current >= old(self).current,
            r matches Ok(s) ==> stmt_wf(s) && stmt_prec_wf(s) && final(self).current > old(self).current,
            ({
                let (ni, out) = p_statement(old(self)@, old(self).cursor());
                final(self).cursor() == ni && (match r {
                    Ok(s) => out == Ok::<StmtModel, PErr>(s@) && final(self).diags() == old(self).diags(),
                    Err(e2) => out matches Err(pe) && e2@ == ErrModel::Parser(pe.msg) && final(self).diags() == old(self).diags().push(pe.diag),
                })
            }),
        decreases old(self).toks().len() - old(self).current, 9int,
    {
        let ghost ts = old(self)@;
        let ghost i0 = old(self).cursor();
        proof {
            assert(0 <= i0 < ts.len());
        }
        if self.match_token(vec![TokenType::Print]) {
            proof {
                assert(ts[i0].type_ == TokenType::Print);
            }
            return self.print_statement();
        }
        self.expression_statement()
    }

    fn print_statement(&mut self) -> (r: Result<Stmt, Error>)
        requires
            old(self).wf(),
        ensures
            final(self).wf(),
            final(self).toks() == old(self).toks(),
            final(self).current >= old(self).current,
            r matches Ok(s) ==> stmt_wf(s) && stmt_prec_wf(s) && final(self).current > old(self).current,
            ({
                let (ni, out) = p_print_statement(old(self)@, old(self).cursor());
                final(self).cursor() == ni && (match r {
                    Ok(s) => out == Ok::<StmtModel, PErr>(s@) && final(self).diags() == old(self).diags(),
                    Err(e2) => out matches Err(pe) && e2@ == ErrModel::Parser(pe.msg) && final(self).diags() == old(self).diags().push(pe.diag),
                })
            }),
        decreases old(self).toks().len() - old(self).current, 8int,
    {
        let ghost ts = old(self)@;
        let ghost i0 = old(self).cursor();
        let value = match self.expression() {
            Ok(v) => v,
            Err(e) => {
                return Err(e);
            },
        };
        match self.consume(TokenType::Semicolon, "Expect ';' after value.") {
            Ok(_) => {},
            Err(e) => {
                proof {
                    assert(p_print_statement(ts, i0) == (
                        self.cursor(),
                        Err::<StmtModel, PErr>(
                            consume_err(ts, self.cursor(), "Expect ';' after value."@),
                        ),
                    ));
                }
                return Err(e);
            },
        }
        let st = Stmt::Print { expression: value };
        proof {
            assert(p_print_statement(ts, i0) == (self.cursor(), Ok::<StmtModel, PErr>(st@)));
        }
        Ok(st)
    }

    fn var_declaration(&mut self) -> (r: Result<Stmt, Error>)
        requires
            old(self).wf(),
        ensures
            final(self).wf(),
            final(self).toks() == old(self).toks(),
            final(self).current >= old(self).current,
            r matches Ok(s) ==> stmt_wf(s) && stmt_prec_wf(s) && final(self).current > old(self).current,
            ({
                let (ni, out) = p_var_declaration(old(self)@, old(self).cursor());
                final(self).cursor() == ni && (match r {
                    Ok(s) => out == Ok::<StmtModel, PErr>(s@) && final(self).diags() == old(self).diags(),
                    Err(e2) => out matches Err(pe) && e2@ == ErrModel::Parser(pe.msg) && final(self).diags() == old(self).diags().push(pe.diag),
                })
            }),
        decreases old(self).toks().len() - old(self).current, 8int,
    {
        let ghost ts = old(self)@;
        let ghost i0 = old(self).cursor();
        proof {
            assert(0 <= i0 < ts.len());
        }
        let name = match self.consume(TokenType::Identifier, "Expect variable name.") {
            Ok(n) => n,
            Err(e) => {
                proof {
                    assert(p_var_declaration(ts, i0) == (
                        i0,
                        Err::<StmtModel, PErr>(consume_err(ts, i0, "Expect variable name."@)),
                    ));
                }
                return Err(e);
            },
        };
        let initializer = if self.match_token(vec![TokenType::Equal]) {
            proof {
                assert(ts[i0 + 1].type_ == TokenType::Equal);
            }
            match self.expression() {
                Ok(expr) => Some(expr),
                Err(e) => {
                    proof {
                        match p_expression(ts, i0 + 2).1 {
                            Err(pe) => {
                                assert(p_var_declaration(ts, i0) == (
                                    self.cursor(),
                                    Err::<StmtModel, PErr>(pe),
                                ));
                            },
                            Ok(e0) => {
                                assert(false);
                            },
                        }
                    }
                    return Err(e);
                },
            }
        } else {
            proof {
                assert(ts[i0 + 1].type_ != TokenType::Equal);
            }
            None
        };
        match self.consume(TokenType::Semicolon, "Expect ';' after variable declaration.") {
            Ok(_) => {},
            Err(e) => {
                proof {
                    assert(p_var_declaration(ts, i0) == (
                        self.cursor(),
                        Err::<StmtModel, PErr>(
                            consume_err(
                                ts,
                                self.cursor(),
                                "Expect ';' after variable declaration."@,
                            ),
                        ),
                    ));
                }
                return Err(e);
            },
        }
        let st = Stmt::Var { name, initializer };
        proof {
            assert(p_var_declaration(ts, i0) == (self.cursor(), Ok::<StmtModel, PErr>(st@)));
        }
        Ok(st)
    }

    fn expression_statement(&mut self) -> (r: Result<Stmt, Error>)
        requires
            old(self).wf(),
        ensures
            final(self).wf(),
            final(self).toks() == old(self).toks(),
            final(self).current >= old(self).current,
            r matches Ok(s) ==> stmt_wf(s) && stmt_prec_wf(s) && final(self).current > old(self).current,
            ({
                let (ni, out) = p_expression_statement(old(self)@, old(self).cursor());
                final(self).cursor() == ni && (match r {
                    Ok(s) => out == Ok::<StmtModel, PErr>(s@) && final(self).diags() == old(self).diags(),
                    Err(e2) => out matches Err(pe) && e2@ == ErrModel::Parser(pe.msg) && final(self).diags() == old(self).diags().push(pe.diag),
                })
            }),
        decreases old(self).toks().len() - old(self).current, 8int,
    {
        let ghost ts = old(self)@;
        let ghost i0 = old(self).cursor();
        let expr = match self.expression() {
            Ok(expr) => expr,
            Err(e) => {
                return Err(e);
            },
        };
        match self.consume(TokenType::Semicolon, "Expect ';' after expression.") {
            Ok(_) => {},
            Err(e) => {
                proof {
                    assert(p_expression_statement(ts, i0) == (
                        self.cursor(),
                        Err::<StmtModel, PErr>(
                            consume_err(ts, self.cursor(), "Expect ';' after expression."@),
                        ),
                    ));
                }
                return Err(e);
            },
        }
        let st = Stmt::Expression { expression: expr };
        proof {
            assert(p_expression_statement(ts, i0) == (self.cursor(), Ok::<StmtModel, PErr>(st@)));
        }
        Ok(st)
    }

    fn equality(&mut self) -> (r: Result<Expr, Error>)
        requires
            old(self).wf(),
        ensures
            final(self).wf(),
            final(self).toks() == old(self).toks(),
            final(self).current >= old(self).current,
            r matches Ok(e) ==> expr_wf(e) && expr_prec_wf(e) && top_prec(e) >= 1 && final(self).current > old(self).current,
            ({
                let (ni, out) = p_equality(old(self)@, old(self).cursor());
                final(self).cursor() == ni && (match r {
                    Ok(e) => out == Ok::<ExprModel, PErr>(e@) && final(self).diags() == old(self).diags(),
                    Err(e2) => out matches Err(pe) && e2@ == ErrModel::Parser(pe.msg) && final(self).diags() == old(self).diags().push(pe.diag),
                })
            }),
        decreases old(self).toks().len() - old(self).current, 6int,
    {
        let ghost ts = old(self)@;
        let ghost i0 = old(self).cursor();
        proof {
            assert(0 <= i0 < ts.len());
        }
        let mut expr = match self.comparison() {
            Ok(expr) => expr,
            Err(e) => {
                proof {
                    assert(p_equality(ts, i0) == (self.cursor(), p_comparison(ts, i0).1));
                }
                return Err(e);
            },
        };
        proof {
            assert(p_equality(ts, i0) == p_equality_loop(ts, self.cursor(), expr@));
        }
        while self.match_token(vec![TokenType::BangEqual, TokenType::EqualEqual])
            invariant
                self.wf(),
                self.toks() == old(self).toks(),
                self@ == ts,
                ts == old(self)@,
                i0 == old(self).cursor(),
                self.current > old(self).current,
                expr_wf(expr),
                expr_prec_wf(expr),
                top_prec(expr) >= 1,
                self.diags() == old(self).diags(),
                p_equality(ts, i0) == p_equality_loop(ts, self.cursor(), expr@),
            decreases self.toks().len() - self.current,
        {
            let ghost at = self.cursor() - 1;
            proof {
                assert(ts[at].type_ == TokenType::BangEqual || ts[at].type_ == TokenType::EqualEqual);
            }
            let operator = self.previous();
            let right = match self.comparison() {
                Ok(expr) => expr,
                Err(e) => {
                    proof {
                        assert(p_equality(ts, i0) == (self.cursor(), p_comparison(ts, at + 1).1));
                    }
                    return Err(e);
                },
            };
            expr = Expr::Binary { left: Box::new(expr), operator, right: Box::new(right) };
        }
        proof {
            assert(p_equality(ts, i0) == (self.cursor(), Ok::<ExprModel, PErr>(expr@)));
        }
        Ok(expr)
    }

    fn comparison(&mut self) -> (r: Result<Expr, Error>)
        requires
            old(self).wf(),
        ensures
            final(self).wf(),
            final(self).toks() == old(self).toks(),
            final(self).current >= old(self).current,
            r matches Ok(e) ==> expr_wf(e) && expr_prec_wf(e) && top_prec(e) >= 2 && final(self).current > old(self).current,
            ({
                let (ni, out) = p_comparison(old(self)@, old(self).cursor());
                final(self).cursor() == ni && (match r {
                    Ok(e) => out == Ok::<ExprModel, PErr>(e@) && final(self).diags() == old(self).diags(),
                    Err(e2) => out matches Err(pe) && e2@ == ErrModel::Parser(pe.msg) && final(self).diags() == old(self).diags().push(pe.diag),
                })
            }),
        decreases old(self).toks().len() - old(self).current, 5int,
    {
        let ghost ts = old(self)@;
        let ghost i0 = old(self).cursor();
        proof {
            assert(0 <= i0 < ts.len());
        }
        let mut expr = match self.term() {
            Ok(expr) => expr,
            Err(e) => {
                proof {
                    assert(p_comparison(ts, i0) == (self.cursor(), p_term(ts, i0).1));
                }
                return Err(e);
            },
        };
        proof {
            assert(p_comparison(ts, i0) == p_comparison_loop(ts, self.cursor(), expr@));
        }
        while self.match_token(
            vec![
                TokenType::Greater,
                TokenType::GreaterEqual,
                TokenType::Less,
                TokenType::LessEqual,
            ],
        )
            invariant
                self.wf(),
                self.toks() == old(self).toks(),
                self@ == ts,
                ts == old(self)@,
                i0 == old(self).cursor(),
                self.current > old(self).current,
                expr_wf(expr),
                expr_prec_wf(expr),
                top_prec(expr) >= 2,
                self.diags() == old(self).diags(),
                p_comparison(ts, i0) == p_comparison_loop(ts, self.cursor(), expr@),
            decreases self.toks().len() - self.current,
        {
            let ghost at = self.cursor() - 1;
            proof {
                assert(ts[at].type_ == TokenType::Greater || ts[at].type_
                    == TokenType::GreaterEqual || ts[at].type_ == TokenType::Less || ts[at].type_
                    == TokenType::LessEqual);
            }
            let operator = self.previous();
            let right = match self.term() {
                Ok(expr) => expr,
                Err(e) => {
                    proof {
                        assert(p_comparison(ts, i0) == (self.cursor(), p_term(ts, at + 1).1));
                    }
                    return Err(e);
                },
            };
            expr = Expr::Binary { left: Box::new(expr), operator, right: Box::new(right) };
        }
        proof {
            assert(p_comparison(ts, i0) == (self.cursor(), Ok::<ExprModel, PErr>(expr@)));
        }
        Ok(expr)
    }

    fn term(&mut self) -> (r: Result<Expr, Error>)
        requires
            old(self).wf(),
        ensures
            final(self).wf(),
            final(self).toks() == old(self).toks(),
            final(self).current >= old(self).current,
            r matches Ok(e) ==> expr_wf(e) && expr_prec_wf(e) && top_prec(e) >= 3 && final(self).current > old(self).current,
            ({
                let (ni, out) = p_term(old(self)@, old(self).cursor());
                final(self).cursor() == ni && (match r {
                    Ok(e) => out == Ok::<ExprModel, PErr>(e@) && final(self).diags() == old(self).diags(),
                    Err(e2) => out matches Err(pe) && e2@ == ErrModel::Parser(pe.msg) && final(self).diags() == old(self).diags().push(pe.diag),
                })
            }),
        decreases old(self).toks().len() - old(self).current, 4int,
    {
        let ghost ts = old(self)@;
        let ghost i0 = old(self).cursor();
        proof {
            assert(0 <= i0 < ts.len());
        }
        let mut expr = match self.factor() {
            Ok(expr) => expr,
            Err(e) => {
                proof {
                    assert(p_term(ts, i0) == (self.cursor(), p_factor(ts, i0).1));
                }
                return Err(e);
            },
        };
        proof {
            assert(p_term(ts, i0) == p_term_loop(ts, self.cursor(), expr@));
        }
        while self.match_token(vec![TokenType::Minus, TokenType::Plus])
            invariant
                self.wf(),
                self.toks() == old(self).toks(),
                self@ == ts,
                ts == old(self)@,
                i0 == old(self).cursor(),
                self.current > old(self).current,
                expr_wf(expr),
                expr_prec_wf(expr),
                top_prec(expr) >= 3,
                self.diags() == old(self).diags(),
                p_term(ts, i0) == p_term_loop(ts, self.cursor(), expr@),
            decreases self.toks().len() - self.current,
        {
            let ghost at = self.cursor() - 1;
            proof {
                assert(ts[at].type_ == TokenType::Minus || ts[at].type_ == TokenType::Plus);
            }
            let operator = self.previous();
            let right = match self.factor() {
                Ok(expr) => expr,
                Err(e) => {
                    proof {
                        assert(p_term(ts, i0) == (self.cursor(), p_factor(ts, at + 1).1));
                    }
                    return Err(e);
                },
            };
            expr = Expr::Binary { left: Box::new(expr), operator, right: Box::new(right) };
        }
        proof {
            assert(p_term(ts, i0) == (self.cursor(), Ok::<ExprModel, PErr>(expr@)));
        }
        Ok(expr)
    }

    fn factor(&mut self) -> (r: Result<Expr, Error>)
        requires
            old(self).wf(),
        ensures
            final(self).wf(),
            final(self).toks() == old(self).toks(),
            final(self).current >= old(self).current,
            r matches Ok(e) ==> expr_wf(e) && expr_prec_wf(e) && top_prec(e) >= 4 && final(self).current > old(self).current,
            ({
                let (ni, out) = p_factor(old(self)@, old(self).cursor());
                final(self).cursor() == ni && (match r {
                    Ok(e) => out == Ok::<ExprModel, PErr>(e@) && final(self).diags() == old(self).diags(),
                    Err(e2) => out matches Err(pe) && e2@ == ErrModel::Parser(pe.msg) && final(self).diags() == old(self).diags().push(pe.diag),
                })
            }),
        decreases old(self).toks().len() - old(self).current, 3int,
    {
        let ghost ts = old(self)@;
        let ghost i0 = old(self).cursor();
        proof {
            assert(0 <= i0 < ts.len());
        }
        let mut expr = match self.unary() {
            Ok(expr) => expr,
            Err(e) => {
                proof {
                    assert(p_factor(ts, i0) == (self.cursor(), p_unary(ts, i0).1));
                }
                return Err(e);
            },
        };
        proof {
            assert(p_factor(ts, i0) == p_factor_loop(ts, self.cursor(), expr@));
        }
        while self.match_token(vec![TokenType::Slash, TokenType::Star])
            invariant
                self.wf(),
                self.toks() == old(self).toks(),
                self@ == ts,
                ts == old(self)@,
                i0 == old(self).cursor(),
                self.current > old(self).current,
                expr_wf(expr),
                expr_prec_wf(expr),
                top_prec(expr) >= 4,
                self.diags() == old(self).diags(),
                p_factor(ts, i0) == p_factor_loop(ts, self.cursor(), expr@),
            decreases self.toks().len() - self.current,
        {
            let ghost at = self.cursor() - 1;
            proof {
                assert(ts[at].type_ == TokenType::Slash || ts[at].type_ == TokenType::Star);
            }
            let operator = self.previous();
            let right = match self.unary() {
                Ok(expr) => expr,
                Err(e) => {
                    proof {
                        assert(p_factor(ts, i0) == (self.cursor(), p_unary(ts, at + 1).1));
                    }
                    return Err(e);
                },
            };
            expr = Expr::Binary { left: Box::new(expr), operator, right: Box::new(right) };
        }
        proof {
            assert(p_factor(ts, i0) == (self.cursor(), Ok::<ExprModel, PErr>(expr@)));
        }
        Ok(expr)
    }

    /// A unary operator recurses on itself, so prefix operators chain.
    fn unary(&mut self) -> (r: Result<Expr, Error>)
        requires
            old(self).wf(),
        ensures
            final(self).wf(),
            final(self).toks() == old(self).toks(),
            final(self).current >= old(self).current,
            r matches Ok(e) ==> expr_wf(e) && expr_prec_wf(e) && top_prec(e) >= 5 && final(self).current > old(self).current,
            ({
                let (ni, out) = p_unary(old(self)@, old(self).cursor());
                final(self).cursor() == ni && (match r {
                    Ok(e) => out == Ok::<ExprModel, PErr>(e@) && final(self).diags() == old(self).diags(),
                    Err(e2) => out matches Err(pe) && e2@ == ErrModel::Parser(pe.msg) && final(self).diags() == old(self).diags().push(pe.diag),
                })
            }),
        decreases old(self).toks().len() - old(self).current, 2int,
    {
        let ghost ts = old(self)@;
        let ghost i0 = old(self).cursor();
        proof {
            assert(0 <= i0 < ts.len());
        }
        if self.match_token(vec![TokenType::Bang, TokenType::Minus]) {
            proof {
                assert(ts[i0].type_ == TokenType::Bang || ts[i0].type_ == TokenType::Minus);
            }
            let operator = self.previous();
            let right = match self.unary() {
                Ok(expr) => expr,
                Err(e) => {
                    proof {
                        assert(p_unary(ts, i0) == (self.cursor(), p_unary(ts, i0 + 1).1));
                    }
                    return Err(e);
                },
            };
            let e = Expr::Unary { operator, right: Box::new(right) };
            proof {
                assert(p_unary(ts, i0) == (self.cursor(), Ok::<ExprModel, PErr>(e@)));
            }
            return Ok(e);
        }
        self.primary()
    }

    fn primary(&mut self) -> (r: Result<Expr, Error>)
        requires
            old(self).wf(),
        ensures
            final(self).wf(),
            final(self).toks() == old(self).toks(),
            final(self).current >= old(self).current,
            r matches Ok(e) ==> expr_wf(e) && expr_prec_wf(e) && top_prec(e) >= 6 && final(self).current > old(self).current,
            ({
                let (ni, out) = p_primary(old(self)@, old(self).cursor());
                final(self).cursor() == ni && (match r {
                    Ok(e) => out == Ok::<ExprModel, PErr>(e@) && final(self).diags() == old(self).diags(),
                    Err(e2) => out matches Err(pe) && e2@ == ErrModel::Parser(pe.msg) && final(self).diags() == old(self).diags().push(pe.diag),
                })
            }),
        decreases old(self).toks().len() - old(self).current, 1int,
    {
        let ghost ts = old(self)@;
        let ghost i0 = old(self).cursor();
        proof {
            assert(0 <= i0 < ts.len());
        }
        if self.match_token(vec![TokenType::False]) {
            return Ok(Expr::Literal { value: Object::Bool(false) });
        }
        if self.match_token(vec![TokenType::True]) {
            return Ok(Expr::Literal { value: Object::Bool(true) });
        }
        if self.match_token(vec![TokenType::Nil]) {
            return Ok(Expr::Literal { value: Object::Nil });
        }
        if self.match_token(vec![TokenType::Number, TokenType::Str]) {
            let t = self.previous();
            let e = Expr::Literal { value: t.literal };
            proof {
                assert(p_primary(ts, i0) == (self.cursor(), Ok::<ExprModel, PErr>(e@)));
            }
            return Ok(e);
        }
        if self.match_token(vec![TokenType::LeftParen]) {
            proof {
                assert(ts[i0].type_ == TokenType::LeftParen);
            }
            let expr = match self.expression() {
                Ok(expr) => expr,
                Err(e) => {
                    proof {
                        assert(p_primary(ts, i0) == (self.cursor(), p_expression(ts, i0 + 1).1));
                    }
                    return Err(e);
                },
            };
            match self.consume(TokenType::RightParen, "Expect ')' after expression.") {
                Ok(_) => {},
                Err(e) => {
                    proof {
                        assert(p_primary(ts, i0) == (
                            self.cursor(),
                            Err::<ExprModel, PErr>(
                                consume_err(
                                    ts,
                                    self.cursor(),
                                    "Expect ')' after expression."@,
                                ),
                            ),
                        ));
                    }
                    return Err(e);
                },
            }
            let e = Expr::Grouping { expression: Box::new(expr) };
            proof {
                assert(p_primary(ts, i0) == (self.cursor(), Ok::<ExprModel, PErr>(e@)));
            }
            return Ok(e);
        }
        let d = parser_error(self.peek(), "Expect expression.");
        let ghost pre = self.diags();
        self.diagnostics.push(d);
        proof {
            assert(self.diags() =~= pre.push(parser_error_text(ts[i0], "Expect expression."@)));
            assert(p_primary(ts, i0) == (
                i0,
                Err::<ExprModel, PErr>(consume_err(ts, i0, "Expect expression."@)),
            ));
        }
        Err(Error::parser_error("Expect expression."))
    }

    /// Consumes the cursor token where its kind matches any of the given
    /// kinds.
    fn match_token(&mut self, types: Vec<TokenType>) -> (r: bool)
        requires
            old(self).wf(),
        ensures
            final(self).wf(),
            final(self).toks() == old(self).toks(),
            final(self).diagnostics == old(self).diagnostics,
            r == (old(self).cur_type() != TokenType::Eof && types@.contains(old(self).cur_type())),
            r ==> final(self).current == old(self).current + 1,
            !r ==> final(self).current == old(self).current,
    {
        let n = types.len();
        let mut i: usize = 0;
        while i < n
            invariant
                i <= n,
                n == types@.len(),
                self == old(self),
                self.wf(),
                forall|j: int|
                    0 <= j < i ==> (self.cur_type() == TokenType::Eof || types@[j]
                        != self.cur_type()),
            decreases n - i,
        {
            if self.check(types[i]) {
                self.advance();
                return true;
            }
            i = i + 1;
        }
        false
    }

    /// Whether the cursor token has the given kind; the closing token
    /// matches nothing.
    fn check(&self, type_: TokenType) -> (r: bool)
        requires
            self.wf(),
        ensures
            r == (self.cur_type() == type_ && self.cur_type() != TokenType::Eof),
    {
        if self.is_at_end() {
            return false;
        }
        self.peek().type_ == type_
    }

    /// Moves the cursor one token forward, never past the closing token.
    fn advance(&mut self)
        requires
            old(self).wf(),
        ensures
            final(self).wf(),
            final(self).toks() == old(self).toks(),
            final(self).diagnostics == old(self).diagnostics,
            old(self).cur_type() != TokenType::Eof ==> final(self).current == old(self).current
                + 1,
            old(self).cur_type() == TokenType::Eof ==> *final(self) == *old(self),
    {
        let n = self.tokens.len();
        if !self.is_at_end() {
            proof {
                assert(self.toks()[self.toks().len() - 1].type_ == TokenType::Eof);
            }
            self.current = self.current + 1;
        }
    }

    /// Whether the cursor stands on the closing end-of-input token.
    fn is_at_end(&self) -> (r: bool)
        requires
            self.wf(),
        ensures
            r == (self.cur_type() == TokenType::Eof),
    {
        self.peek().type_ == TokenType::Eof
    }

    /// The token under the cursor.
    fn peek(&self) -> (r: &Token)
        requires
            self.wf(),
        ensures
            *r == self.cur_token(),
    {
        &self.tokens[self.current]
    }

    /// A copy of the token just consumed.
    fn previous(&self) -> (r: Token)
        requires
            self.wf(),
            self.current >= 1,
        ensures
            r@ == self.toks()[self.current - 1]@,
            token_wf(r) == token_wf(self.toks()[self.current - 1]),
            r.type_ == self.toks()[self.current - 1].type_,
    {
        self.tokens[self.current - 1].duplicate()
    }

    /// Consumes the cursor token where it has the expected kind; otherwise
    /// records exactly one diagnostic at that token and fails, so no
    /// failed consume ever passes silently.
    fn consume(&mut self, type_: TokenType, message: &str) -> (r: Result<Token, Error>)
        requires
            old(self).wf(),
        ensures
            final(self).wf(),
            final(self).toks() == old(self).toks(),
            match r {
                Ok(t) => old(self).cur_type() == type_ && type_ != TokenType::Eof
                    && final(self).current == old(self).current + 1 && t.type_ == type_
                    && token_wf(t) && t@ == old(self)@[old(self).cursor()] && final(self).diags()
                    == old(self).diags(),
                Err(e) => final(self).current == old(self).current && (old(self).cur_type()
                    != type_ || type_ == TokenType::Eof) && e@ == ErrModel::Parser(message@)
                    && final(self).diags() == old(self).diags().push(
                    parser_error_text(old(self)@[old(self).cursor()], message@),
                ),
            },
    {
        if self.check(type_) {
            self.advance();
            return Ok(self.previous());
        }
        let d = parser_error(self.peek(), message);
        let ghost pre = self.diags();
        self.diagnostics.push(d);
        proof {
            assert(self.diags() =~= pre.push(
                parser_error_text(old(self)@[old(self).cursor()], message@),
            ));
        }
        Err(Error::parser_error(message))
    }

    /// Discards tokens until a statement boundary: just past a semicolon,
    /// or just before a keyword that can begin a statement.
    fn synchronize(&mut self)
        requires
            old(self).wf(),
        ensures
            final(self).wf(),
            final(self).toks() == old(self).toks(),
            final(self).current >= old(self).current,
            old(self).cur_type() != TokenType::Eof ==> final(self).current > old(self).current,
            final(self).diags() == old(self).diags(),
            final(self).cursor() == p_synchronize(old(self)@, old(self).cursor()),
    {
        if self.is_at_end() {
            return ;
        }
        self.advance();
        while !self.is_at_end()
            invariant
                self.wf(),
                self.toks() == old(self).toks(),
                self.current > old(self).current,
                self.current >= 1,
                self.diagnostics == old(self).diagnostics,
                p_sync_loop(old(self)@, self.cursor()) == p_sync_loop(
                    old(self)@,
                    old(self).cursor() + 1,
                ),
            decreases self.toks().len() - self.current,
        {
            if self.tokens[self.current - 1].type_ == TokenType::Semicolon {
                return ;
            }
            let t = self.peek().type_;
            if t == TokenType::Class || t == TokenType::Fun || t == TokenType::Var || t
                == TokenType::For || t == TokenType::If || t == TokenType::While || t
                == TokenType::Print || t == TokenType::Return {
                return ;
            }
            proof {
                assert(p_sync_loop(old(self)@, self.cursor()) == p_sync_loop(
                    old(self)@,
                    self.cursor() + 1,
                ));
            }
            self.advance();
        }
    }
}

} // verus!
