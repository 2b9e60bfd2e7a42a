//! The tree-walking evaluator.
//!
//! `eval_expr` is the mathematical semantics of expressions: exact decimal
//! arithmetic, two overloads for `+`, total equality without cross-type
//! coercion, and an operand-type error everywhere else. `run_program` extends
//! it to statement sequences, collecting the lines `print` emits and stopping
//! at the first failure. The executable evaluator is proved to return exactly
//! what these functions say.

use vstd::prelude::*;
use crate::ast::Expr;
use crate::ast::Stmt;
use crate::ast::expr_wf;
use crate::ast::stmt_wf;
use crate::decimal::dec_difference;
use crate::decimal::dec_le;
use crate::decimal::dec_lt;
use crate::decimal::dec_negated;
use crate::decimal::dec_product;
use crate::decimal::dec_quotient;
use crate::decimal::dec_sum;
use crate::error::ErrModel;
use crate::error::Error;
use crate::token::Object;
use crate::token::Token;
use crate::token::TokenType;
use crate::token::Val;
use crate::token::obj_wf;
use crate::token::val_text;

verus! {

/// The ways evaluation can fail at run time.
pub enum RunErr {
    /// A binary operator met operand types it is not defined for.
    BinaryType(TokenType),
    /// A unary operator met an operand type it is not defined for.
    UnaryType(TokenType),
    /// A division whose divisor is zero.
    DivByZero,
    /// The exact result left the representable decimal range.
    Overflow,
    /// A var statement, whose evaluation is not defined in this core.
    Unsupported,
}

/// Total equality over values: `nil` equals `nil`, values of different
/// runtime types are never equal, and same-type values compare by value.
pub open spec fn val_eq(a: Val, b: Val) -> bool {
    match (a, b) {
        (Val::Nil, Val::Nil) => true,
        (Val::Bool(x), Val::Bool(y)) => x == y,
        (Val::Num(x), Val::Num(y)) => x == y,
        (Val::Str(x), Val::Str(y)) => x == y,
        _ => false,
    }
}

pub open spec fn binary_type_text(op: TokenType) -> Seq<char> {
    if op == TokenType::Minus {
        "Expected numbers for Minus operation."@
    } else if op == TokenType::Slash {
        "Expected numbers for Slash operation."@
    } else if op == TokenType::Star {
        "Expected numbers for Star operation."@
    } else if op == TokenType::Plus {
        "Expected numbers or strings for Plus operation."@
    } else if op == TokenType::Greater {
        "Expected numbers for Greater operation."@
    } else if op == TokenType::GreaterEqual {
        "Expected numbers for GreaterEqual operation."@
    } else if op == TokenType::Less {
        "Expected numbers for Less operation."@
    } else if op == TokenType::LessEqual {
        "Expected numbers for LessEqual operation."@
    } else {
        "Unexpected token type in binary operation."@
    }
}

pub open spec fn unary_type_text(op: TokenType) -> Seq<char> {
    if op == TokenType::Bang {
        "Operand must be a bool: Bang."@
    } else if op == TokenType::Minus {
        "Operand must be a number: Minus."@
    } else {
        "Unexpected token type in unary operation."@
    }
}

/// The message each runtime failure carries.
pub open spec fn run_err_text(k: RunErr) -> Seq<char> {
    match k {
        RunErr::BinaryType(op) => binary_type_text(op),
        RunErr::UnaryType(op) => unary_type_text(op),
        RunErr::DivByZero => "Division by zero."@,
        RunErr::Overflow => "Numeric result is not representable."@,
        RunErr::Unsupported => "Evaluation of var statements is not supported."@,
    }
}

/// What one binary operator yields on two evaluated operands.
pub open spec fn eval_binary(op: TokenType, l: Val, r: Val) -> Result<Val, RunErr> {
    if op == TokenType::Minus {
        match (l, r) {
            (Val::Num(a), Val::Num(b)) => match dec_difference(a, b) {
                Some(c) => Ok(Val::Num(c)),
                None => Err(RunErr::Overflow),
            },
            _ => Err(RunErr::BinaryType(op)),
        }
    } else if op == TokenType::Slash {
        match (l, r) {
            (Val::Num(a), Val::Num(b)) => if b.m == 0 {
                Err(RunErr::DivByZero)
            } else {
                match dec_quotient(a, b) {
                    Some(c) => Ok(Val::Num(c)),
                    None => Err(RunErr::Overflow),
                }
            },
            _ => Err(RunErr::BinaryType(op)),
        }
    } else if op == TokenType::Star {
        match (l, r) {
            (Val::Num(a), Val::Num(b)) => match dec_product(a, b) {
                Some(c) => Ok(Val::Num(c)),
                None => Err(RunErr::Overflow),
            },
            _ => Err(RunErr::BinaryType(op)),
        }
    } else if op == TokenType::Plus {
        match (l, r) {
            (Val::Num(a), Val::Num(b)) => match dec_sum(a, b) {
                Some(c) => Ok(Val::Num(c)),
                None => Err(RunErr::Overflow),
            },
            (Val::Str(a), Val::Str(b)) => Ok(Val::Str(a + b)),
            _ => Err(RunErr::BinaryType(op)),
        }
    } else if op == TokenType::Greater {
        match (l, r) {
            (Val::Num(a), Val::Num(b)) => match dec_lt(b, a) {
                Some(v) => Ok(Val::Bool(v)),
                None => Err(RunErr::Overflow),
            },
            _ => Err(RunErr::BinaryType(op)),
        }
    } else if op == TokenType::GreaterEqual {
        match (l, r) {
            (Val::Num(a), Val::Num(b)) => match dec_le(b, a) {
                Some(v) => Ok(Val::Bool(v)),
                None => Err(RunErr::Overflow),
            },
            _ => Err(RunErr::BinaryType(op)),
        }
    } else if op == TokenType::Less {
        match (l, r) {
            (Val::Num(a), Val::Num(b)) => match dec_lt(a, b) {
                Some(v) => Ok(Val::Bool(v)),
                None => Err(RunErr::Overflow),
            },
            _ => Err(RunErr::BinaryType(op)),
        }
    } else if op == TokenType::LessEqual {
        match (l, r) {
            (Val::Num(a), Val::Num(b)) => match dec_le(a, b) {
                Some(v) => Ok(Val::Bool(v)),
                None => Err(RunErr::Overflow),
            },
            _ => Err(RunErr::BinaryType(op)),
        }
    } else if op == TokenType::BangEqual {
        Ok(Val::Bool(!val_eq(l, r)))
    } else if op == TokenType::EqualEqual {
        Ok(Val::Bool(val_eq(l, r)))
    } else {
        Err(RunErr::BinaryType(op))
    }
}

/// What one unary operator yields on an evaluated operand.
pub open spec fn eval_unary(op: TokenType, r: Val) -> Result<Val, RunErr> {
    if op == TokenType::Bang {
        match r {
            Val::Bool(b) => Ok(Val::Bool(!b)),
            _ => Err(RunErr::UnaryType(op)),
        }
    } else if op == TokenType::Minus {
        match r {
            Val::Num(d) => Ok(Val::Num(dec_negated(d))),
            _ => Err(RunErr::UnaryType(op)),
        }
    } else {
        Err(RunErr::UnaryType(op))
    }
}

/// The value of an expression: operands evaluate left to right, and the
/// first failure propagates.
pub open spec fn eval_expr(e: Expr) -> Result<Val, RunErr>
    decreases e,
{
    match e {
        Expr::Literal { value } => Ok(value@),
        Expr::Grouping { expression } => eval_expr(*expression),
        Expr::Unary { operator, right } => match eval_expr(*right) {
            Ok(v) => eval_unary(operator.type_, v),
            Err(k) => Err(k),
        },
        Expr::Binary { left, operator, right } => match eval_expr(*left) {
            Ok(l) => match eval_expr(*right) {
                Ok(r) => eval_binary(operator.type_, l, r),
                Err(k) => Err(k),
            },
            Err(k) => Err(k),
        },
    }
}

/// The effect of one statement: the line it prints, if any.
pub open spec fn exec_stmt(s: Stmt) -> Result<Option<Seq<char>>, RunErr> {
    match s {
        Stmt::Expression { expression } => match eval_expr(expression) {
            Ok(_) => Ok(None),
            Err(k) => Err(k),
        },
        Stmt::Print { expression } => match eval_expr(expression) {
            Ok(v) => Ok(Some(val_text(v))),
            Err(k) => Err(k),
        },
        Stmt::Var { name, initializer } => Err(RunErr::Unsupported),
    }
}

/// Statements run in order; the result is the lines printed before the
/// first failure, and that failure if one arose.
pub open spec fn run_program(stmts: Seq<Stmt>) -> (Seq<Seq<char>>, Option<RunErr>)
    decreases stmts.len(),
{
    if stmts.len() == 0 {
        (Seq::empty(), None)
    } else {
        match exec_stmt(stmts[0]) {
            Err(k) => (Seq::empty(), Some(k)),
            Ok(out0) => {
                let rest = run_program(stmts.skip(1));
                let head: Seq<Seq<char>> = match out0 {
                    Some(t) => seq![t],
                    None => Seq::empty(),
                };
                (head + rest.0, rest.1)
            },
        }
    }
}

/// Executes statements and collects what `print` emits.
pub struct Interpreter {
    output: Vec<String>,
}

impl View for Interpreter {
    type V = Seq<Seq<char>>;

    closed spec fn view(&self) -> Seq<Seq<char>> {
        self.output@.map_values(|s: String| s@)
    }
}

impl Interpreter {
    pub fn new() -> (r: Interpreter)
        ensures
            r@ == Seq::<Seq<char>>::empty(),
    {
        let r = Interpreter { output: Vec::new() };
        proof {
            assert(r@ =~= Seq::<Seq<char>>::empty());
        }
        r
    }

    /// The lines printed so far, in program order.
    pub fn output(&self) -> (r: &Vec<String>)
        ensures
            r@.len() == self@.len(),
            forall|i: int| 0 <= i < r@.len() ==> r@[i]@ == self@[i],
    {
        &self.output
    }

    /// Total equality of two runtime values; never fails.
    fn is_equal(&self, a: &Object, b: &Object) -> (r: bool)
        ensures
            r == val_eq(a@, b@),
    {
        match (a, b) {
            (Object::Nil, Object::Nil) => true,
            (Object::Number(x), Object::Number(y)) => x.same_value(y),
            (Object::Str(x), Object::Str(y)) => *x == *y,
            (Object::Bool(x), Object::Bool(y)) => *x == *y,
            _ => false,
        }
    }

    /// Evaluates one expression to a runtime value.
    fn evaluate(&self, expr: &Expr) -> (r: Result<Object, Error>)
        requires
            expr_wf(*expr),
        ensures
            match r {
                Ok(o) => eval_expr(*expr) == Ok::<Val, RunErr>(o@) && obj_wf(o),
                Err(e) => eval_expr(*expr) matches Err(k) && e@ == ErrModel::Runtime(
                    run_err_text(k),
                ),
            },
        decreases *expr,
    {
        match expr {
            Expr::Literal { value } => Ok(value.duplicate()),
            Expr::Grouping { expression } => self.evaluate(expression),
            Expr::Unary { operator, right } => {
                let robj = match self.evaluate(right) {
                    Ok(v) => v,
                    Err(e) => {
                        return Err(e);
                    },
                };
                match operator.type_ {
                    TokenType::Bang => match robj {
                        Object::Bool(b) => Ok(Object::Bool(!b)),
                        _ => Err(unary_type_error(TokenType::Bang)),
                    },
                    TokenType::Minus => match robj {
                        Object::Number(d) => Ok(Object::Number(d.neg())),
                        _ => Err(unary_type_error(TokenType::Minus)),
                    },
                    _ => Err(unary_type_error(operator.type_)),
                }
            },
            Expr::Binary { left, operator, right } => {
                let l = match self.evaluate(left) {
                    Ok(v) => v,
                    Err(e) => {
                        return Err(e);
                    },
                };
                let r = match self.evaluate(right) {
                    Ok(v) => v,
                    Err(e) => {
                        return Err(e);
                    },
                };
                self.apply_binary(operator.type_, l, r)
            },
        }
    }

    /// Applies one binary operator to two evaluated operands.
    fn apply_binary(&self, op: TokenType, l: Object, r: Object) -> (res: Result<Object, Error>)
        requires
            obj_wf(l),
            obj_wf(r),
        ensures
            match res {
                Ok(o) => eval_binary(op, l@, r@) == Ok::<Val, RunErr>(o@) && obj_wf(o),
                Err(e) => eval_binary(op, l@, r@) matches Err(k) && e@ == ErrModel::Runtime(
                    run_err_text(k),
                ),
            },
    {
        match op {
            TokenType::Minus => match (l, r) {
                (Object::Number(a), Object::Number(b)) => match a.sub(&b) {
                    Some(c) => Ok(Object::Number(c)),
                    None => Err(overflow_error()),
                },
                _ => Err(binary_type_error(op)),
            },
            TokenType::Slash => match (l, r) {
                (Object::Number(a), Object::Number(b)) => if b.is_zero() {
                    Err(div_zero_error())
                } else {
                    match a.div(&b) {
                        Some(c) => Ok(Object::Number(c)),
                        None => Err(overflow_error()),
                    }
                },
                _ => Err(binary_type_error(op)),
            },
            TokenType::Star => match (l, r) {
                (Object::Number(a), Object::Number(b)) => match a.mul(&b) {
                    Some(c) => Ok(Object::Number(c)),
                    None => Err(overflow_error()),
                },
                _ => Err(binary_type_error(op)),
            },
            TokenType::Plus => match (l, r) {
                (Object::Number(a), Object::Number(b)) => match a.add(&b) {
                    Some(c) => Ok(Object::Number(c)),
                    None => Err(overflow_error()),
                },
                (Object::Str(a), Object::Str(b)) => {
                    let mut t = a;
                    t.append(b.as_str());
                    Ok(Object::Str(t))
                },
                _ => Err(binary_type_error(op)),
            },
            TokenType::Greater => match (l, r) {
                (Object::Number(a), Object::Number(b)) => match b.lt(&a) {
                    Some(v) => Ok(Object::Bool(v)),
                    None => Err(overflow_error()),
                },
                _ => Err(binary_type_error(op)),
            },
            TokenType::GreaterEqual => match (l, r) {
                (Object::Number(a), Object::Number(b)) => match b.le(&a) {
                    Some(v) => Ok(Object::Bool(v)),
                    None => Err(overflow_error()),
                },
                _ => Err(binary_type_error(op)),
            },
            TokenType::Less => match (l, r) {
                (Object::Number(a), Object::Number(b)) => match a.lt(&b) {
                    Some(v) => Ok(Object::Bool(v)),
                    None => Err(overflow_error()),
                },
                _ => Err(binary_type_error(op)),
            },
            TokenType::LessEqual => match (l, r) {
                (Object::Number(a), Object::Number(b)) => match a.le(&b) {
                    Some(v) => Ok(Object::Bool(v)),
                    None => Err(overflow_error()),
                },
                _ => Err(binary_type_error(op)),
            },
            TokenType::BangEqual => Ok(Object::Bool(!self.is_equal(&l, &r))),
            TokenType::EqualEqual => Ok(Object::Bool(self.is_equal(&l, &r))),
            _ => Err(binary_type_error(op)),
        }
    }

    /// Executes one statement, appending what it prints to the output.
    fn execute(&mut self, stmt: &Stmt) -> (r: Result<(), Error>)
        requires
            stmt_wf(*stmt),
        ensures
            match r {
                Ok(u) => exec_stmt(*stmt) matches Ok(out) && final(self)@ == old(self)@ + (
                match out {
                    Some(t) => seq![t],
                    None => Seq::<Seq<char>>::empty(),
                }),
                Err(e) => exec_stmt(*stmt) matches Err(k) && e@ == ErrModel::Runtime(
                    run_err_text(k),
                ) && final(self)@ == old(self)@,
            },
    {
        match stmt {
            Stmt::Expression { expression } => match self.evaluate(expression) {
                Ok(_) => {
                    proof {
                        assert(self@ =~= self@ + Seq::<Seq<char>>::empty());
                    }
                    Ok(())
                },
                Err(e) => Err(e),
            },
            Stmt::Print { expression } => match self.evaluate(expression) {
                Ok(v) => {
                    let t = v.to_text();
                    let ghost pre = self@;
                    let ghost tv = t@;
                    self.output.push(t);
                    proof {
                        assert(self@ =~= pre + seq![tv]);
                    }
                    Ok(())
                },
                Err(e) => Err(e),
            },
            Stmt::Var { name, initializer } => Err(unsupported_error()),
        }
    }

    /// Executes the statements in order, stopping at the first failure.
    /// What `print` emitted before a failure stays in the output.
    pub fn interpret(&mut self, statements: Vec<Stmt>) -> (r: Result<(), Error>)
        requires
            forall|i: int| 0 <= i < statements@.len() ==> stmt_wf(#[trigger] statements@[i]),
        ensures
            final(self)@ == old(self)@ + run_program(statements@).0,
            match r {
                Ok(u) => run_program(statements@).1 is None,
                Err(e) => run_program(statements@).1 matches Some(k) && e@ == ErrModel::Runtime(
                    run_err_text(k),
                ),
            },
    {
        let n = statements.len();
        let mut i: usize = 0;
        proof {
            assert(statements@.skip(0) =~= statements@);
            assert(old(self)@.skip(old(self)@.len() as int) =~= Seq::<Seq<char>>::empty());
            assert(Seq::<Seq<char>>::empty() + run_program(statements@).0 =~= run_program(
                statements@,
            ).0);
        }
        while i < n
            invariant
                i <= n,
                n == statements@.len(),
                forall|j: int| 0 <= j < statements@.len() ==> stmt_wf(#[trigger] statements@[j]),
                old(self)@.is_prefix_of(self@),
                run_program(statements@).0 == self@.skip(old(self)@.len() as int) + run_program(
                    statements@.skip(i as int),
                ).0,
                run_program(statements@).1 == run_program(statements@.skip(i as int)).1,
            decreases n - i,
        {
            let ghost pre = self@;
            let ghost suffix = statements@.skip(i as int);
            proof {
                assert(suffix[0] == statements@[i as int]);
                assert(suffix.skip(1) =~= statements@.skip(i as int + 1));
            }
            match self.execute(&statements[i]) {
                Ok(u) => {},
                Err(e) => {
                    proof {
                        assert(run_program(statements@).0 =~= self@.skip(old(self)@.len() as int));
                    }
                    return Err(e);
                },
            }
            proof {
                assert(self@.skip(old(self)@.len() as int) =~= pre.skip(old(self)@.len() as int)
                    + self@.skip(pre.len() as int));
                assert(run_program(statements@).0 =~= self@.skip(old(self)@.len() as int)
                    + run_program(statements@.skip(i as int + 1)).0);
            }
            i = i + 1;
        }
        proof {
            assert(statements@.skip(n as int) =~= Seq::<Stmt>::empty());
            assert(run_program(statements@).0 =~= self@.skip(old(self)@.len() as int));
        }
        Ok(())
    }
}

/// Law: equality is total. On any pair of operand values, whatever their
/// runtime types, `==` yields a boolean and never fails, and `!=` yields
/// exactly the negation of `==` on the same pair.
pub proof fn lemma_equality_total(l: Val, r: Val)
    ensures
        eval_binary(TokenType::EqualEqual, l, r) == Ok::<Val, RunErr>(Val::Bool(val_eq(l, r))),
        eval_binary(TokenType::BangEqual, l, r) == Ok::<Val, RunErr>(Val::Bool(!val_eq(l, r))),
{
}

/// Law: on well-formed numbers, the evaluator's equality verdict is true
/// rational equality: canonical decimals are equal exactly when the
/// rationals they stand for are.
pub proof fn lemma_number_equality_exact(x: crate::decimal::DecModel, y: crate::decimal::DecModel)
    requires
        crate::decimal::dec_model_wf(x),
        crate::decimal::dec_model_wf(y),
    ensures
        val_eq(Val::Num(x), Val::Num(y)) <==> x.m * crate::decimal::pow10(y.s) == y.m
            * crate::decimal::pow10(x.s),
{
    if x.m * crate::decimal::pow10(y.s) == y.m * crate::decimal::pow10(x.s) {
        crate::decimal::lemma_canonical_unique(x, y);
    }
}

/// Law: two chained unary minus operators are the identity on any
/// expression that evaluates to a number.
pub proof fn lemma_unary_minus_involution(e: Expr, op1: Token, op2: Token, d: crate::decimal::DecModel)
    requires
        op1.type_ == TokenType::Minus,
        op2.type_ == TokenType::Minus,
        eval_expr(e) == Ok::<Val, RunErr>(Val::Num(d)),
    ensures
        eval_expr(
            Expr::Unary {
                operator: op1,
                right: Box::new(Expr::Unary { operator: op2, right: Box::new(e) }),
            },
        ) == Ok::<Val, RunErr>(Val::Num(d)),
{
    crate::decimal::lemma_double_negation(d);
    let inner = Expr::Unary { operator: op2, right: Box::new(e) };
    assert(eval_expr(inner) == Ok::<Val, RunErr>(
        Val::Num(crate::decimal::dec_negated(d)),
    ));
    assert(eval_expr(Expr::Unary { operator: op1, right: Box::new(inner) }) == Ok::<
        Val,
        RunErr,
    >(Val::Num(d)));
}

/// Law: equality never crosses runtime types; in particular a number is
/// never equal to a string, and `nil` is equal only to `nil`.
pub proof fn lemma_no_cross_type_equality(l: Val, r: Val)
    ensures
        (l is Num && r is Str) ==> !val_eq(l, r),
        (l is Str && r is Num) ==> !val_eq(l, r),
        (l is Nil && r is Nil) ==> val_eq(l, r),
        val_eq(l, r) ==> (l is Nil == r is Nil) && (l is Num == r is Num) && (l is Str == r is Str)
            && (l is Bool == r is Bool),
{
}

fn binary_type_error(op: TokenType) -> (e: Error)
    ensures
        e@ == ErrModel::Runtime(binary_type_text(op)),
{
    match op {
        TokenType::Minus => Error::runtime_error("Expected numbers for Minus operation."),
        TokenType::Slash => Error::runtime_error("Expected numbers for Slash operation."),
        TokenType::Star => Error::runtime_error("Expected numbers for Star operation."),
        TokenType::Plus => Error::runtime_error("Expected numbers or strings for Plus operation."),
        TokenType::Greater => Error::runtime_error("Expected numbers for Greater operation."),
        TokenType::GreaterEqual => Error::runtime_error(
            "Expected numbers for GreaterEqual operation.",
        ),
        TokenType::Less => Error::runtime_error("Expected numbers for Less operation."),
        TokenType::LessEqual => Error::runtime_error("Expected numbers for LessEqual operation."),
        _ => Error::runtime_error("Unexpected token type in binary operation."),
    }
}

fn unary_type_error(op: TokenType) -> (e: Error)
    ensures
        e@ == ErrModel::Runtime(unary_type_text(op)),
{
    match op {
        TokenType::Bang => Error::runtime_error("Operand must be a bool: Bang."),
        TokenType::Minus => Error::runtime_error("Operand must be a number: Minus."),
        _ => Error::runtime_error("Unexpected token type in unary operation."),
    }
}

fn overflow_error() -> (e: Error)
    ensures
        e@ == ErrModel::Runtime(run_err_text(RunErr::Overflow)),
{
    Error::runtime_error("Numeric result is not representable.")
}

fn div_zero_error() -> (e: Error)
    ensures
        e@ == ErrModel::Runtime(run_err_text(RunErr::DivByZero)),
{
    Error::runtime_error("Division by zero.")
}

fn unsupported_error() -> (e: Error)
    ensures
        e@ == ErrModel::Runtime(run_err_text(RunErr::Unsupported)),
{
    Error::runtime_error("Evaluation of var statements is not supported.")
}

} // verus!
