//! The syntax tree: expression and statement nodes, and the prefix printer.

use vstd::prelude::*;
use crate::error::Error;
use crate::token::Object;
use crate::token::Token;
use crate::token::TokenModel;
use crate::token::TokenType;
use crate::token::Val;
use crate::token::obj_wf;
use crate::token::token_wf;
use crate::token::val_text;

verus! {

/// An expression node. Non-literal nodes exclusively own their children.
#[derive(Debug)]
pub enum Expr {
    /// Two operands around one operator.
    Binary { left: Box<Expr>, operator: Token, right: Box<Expr> },
    /// A parenthesized expression; overrides precedence and nothing else.
    Grouping { expression: Box<Expr> },
    /// A literal value.
    Literal { value: Object },
    /// One prefix operator and its operand.
    Unary { operator: Token, right: Box<Expr> },
}

/// A statement node. A program is an ordered sequence of these.
#[derive(Debug)]
pub enum Stmt {
    /// Evaluate and discard.
    Expression { expression: Expr },
    /// Evaluate and emit the textual form.
    Print { expression: Expr },
    /// A declaration; parsed but not yet executable.
    Var { name: Token, initializer: Option<Expr> },
}

/// Mathematical model of an expression node.
pub enum ExprModel {
    Binary { left: Box<ExprModel>, operator: TokenModel, right: Box<ExprModel> },
    Grouping { expression: Box<ExprModel> },
    Literal { value: Val },
    Unary { operator: TokenModel, right: Box<ExprModel> },
}

/// Mathematical model of a statement node.
pub enum StmtModel {
    Expression { expression: ExprModel },
    Print { expression: ExprModel },
    Var { name: TokenModel, initializer: Option<ExprModel> },
}

pub open spec fn expr_model(e: Expr) -> ExprModel
    decreases e,
{
    match e {
        Expr::Binary { left, operator, right } => ExprModel::Binary {
            left: Box::new(expr_model(*left)),
            operator: operator@,
            right: Box::new(expr_model(*right)),
        },
        Expr::Grouping { expression } => ExprModel::Grouping {
            expression: Box::new(expr_model(*expression)),
        },
        Expr::Literal { value } => ExprModel::Literal { value: value@ },
        Expr::Unary { operator, right } => ExprModel::Unary {
            operator: operator@,
            right: Box::new(expr_model(*right)),
        },
    }
}

impl View for Expr {
    type V = ExprModel;

    open spec fn view(&self) -> ExprModel {
        expr_model(*self)
    }
}

pub open spec fn stmt_model(s: Stmt) -> StmtModel {
    match s {
        Stmt::Expression { expression } => StmtModel::Expression {
            expression: expr_model(expression),
        },
        Stmt::Print { expression } => StmtModel::Print { expression: expr_model(expression) },
        Stmt::Var { name, initializer } => StmtModel::Var {
            name: name@,
            initializer: match initializer {
                Some(e) => Some(expr_model(e)),
                None => None,
            },
        },
    }
}

impl View for Stmt {
    type V = StmtModel;

    open spec fn view(&self) -> StmtModel {
        stmt_model(*self)
    }
}

/// The operator kinds the grammar permits in a binary node.
pub open spec fn is_binary_op(t: TokenType) -> bool {
    ||| t == TokenType::BangEqual
    ||| t == TokenType::EqualEqual
    ||| t == TokenType::Greater
    ||| t == TokenType::GreaterEqual
    ||| t == TokenType::Less
    ||| t == TokenType::LessEqual
    ||| t == TokenType::Minus
    ||| t == TokenType::Plus
    ||| t == TokenType::Slash
    ||| t == TokenType::Star
}

/// The operator kinds the grammar permits in a unary node.
pub open spec fn is_unary_op(t: TokenType) -> bool {
    t == TokenType::Bang || t == TokenType::Minus
}

/// Well-formedness: operators are ones the grammar permits at that position,
/// and literal numbers are canonical decimals.
pub open spec fn expr_wf(e: Expr) -> bool
    decreases e,
{
    match e {
        Expr::Binary { left, operator, right } => is_binary_op(operator.type_) && token_wf(
            operator,
        ) && expr_wf(*left) && expr_wf(*right),
        Expr::Grouping { expression } => expr_wf(*expression),
        Expr::Literal { value } => obj_wf(value),
        Expr::Unary { operator, right } => is_unary_op(operator.type_) && token_wf(operator)
            && expr_wf(*right),
    }
}

pub open spec fn stmt_wf(s: Stmt) -> bool {
    match s {
        Stmt::Expression { expression } => expr_wf(expression),
        Stmt::Print { expression } => expr_wf(expression),
        Stmt::Var { name, initializer } => name.type_ == TokenType::Identifier && token_wf(name)
            && match initializer {
            Some(e) => expr_wf(e),
            None => true,
        },
    }
}

/// Binding strength of a binary operator: equality binds loosest, then
/// comparison, then the additive, then the multiplicative operators.
pub open spec fn binary_prec(t: TokenType) -> int {
    if t == TokenType::BangEqual || t == TokenType::EqualEqual {
        1
    } else if t == TokenType::Greater || t == TokenType::GreaterEqual || t == TokenType::Less || t
        == TokenType::LessEqual {
        2
    } else if t == TokenType::Minus || t == TokenType::Plus {
        3
    } else {
        4
    }
}

/// The binding strength at an expression's root; unary operators bind
/// tighter than any binary one, and atoms tightest of all.
pub open spec fn top_prec(e: Expr) -> int {
    match e {
        Expr::Binary { left, operator, right } => binary_prec(operator.type_),
        Expr::Unary { operator, right } => 5,
        Expr::Grouping { expression } => 6,
        Expr::Literal { value } => 6,
    }
}

/// The shape precedence climbing leaves behind: every binary node binds no
/// tighter than its left child and strictly looser than its right child,
/// and a unary operand is unary or an atom. The strict bound on the right
/// is left-associativity: `1 - 2 - 3` can only be `(1 - 2) - 3`. The bounds
/// themselves are precedence: in `2 + 3 * 4` the `*` node can only sit
/// below the `+` node.
pub open spec fn expr_prec_wf(e: Expr) -> bool
    decreases e,
{
    match e {
        Expr::Binary { left, operator, right } => top_prec(*left) >= binary_prec(operator.type_)
            && top_prec(*right) > binary_prec(operator.type_) && expr_prec_wf(*left)
            && expr_prec_wf(*right),
        Expr::Grouping { expression } => expr_prec_wf(*expression),
        Expr::Literal { value } => true,
        Expr::Unary { operator, right } => top_prec(*right) >= 5 && expr_prec_wf(*right),
    }
}

/// Every expression a statement holds has the precedence shape.
pub open spec fn stmt_prec_wf(s: Stmt) -> bool {
    match s {
        Stmt::Expression { expression } => expr_prec_wf(expression),
        Stmt::Print { expression } => expr_prec_wf(expression),
        Stmt::Var { name, initializer } => match initializer {
            Some(e) => expr_prec_wf(e),
            None => true,
        },
    }
}

/// The fully parenthesized prefix form of an expression: each operator node
/// becomes `(<operator> <children>)`, a grouping becomes `(group <child>)`,
/// and a literal becomes its printed value.
pub open spec fn print_text(e: Expr) -> Seq<char>
    decreases e,
{
    match e {
        Expr::Binary { left, operator, right } => seq!['('] + operator.lexeme@ + seq![' ']
            + print_text(*left) + seq![' '] + print_text(*right) + seq![')'],
        Expr::Grouping { expression } => "(group "@ + print_text(*expression) + seq![')'],
        Expr::Literal { value } => val_text(value@),
        Expr::Unary { operator, right } => seq!['('] + operator.lexeme@ + seq![' '] + print_text(
            *right,
        ) + seq![')'],
    }
}

/// Renders expressions in fully parenthesized prefix notation.
pub struct AstPrinter;

impl AstPrinter {
    pub fn print(&self, expr: Expr) -> (r: Result<String, Error>)
        requires
            expr_wf(expr),
        ensures
            r matches Ok(s) && s@ == print_text(expr),
    {
        Ok(print_expr(&expr))
    }
}

fn print_expr(e: &Expr) -> (r: String)
    requires
        expr_wf(*e),
    ensures
        r@ == print_text(*e),
    decreases *e,
{
    match e {
        Expr::Binary { left, operator, right } => {
            let mut out = String::from_str("(");
            out.append(operator.lexeme.as_str());
            out.append(" ");
            let l = print_expr(left);
            out.append(l.as_str());
            out.append(" ");
            let rs = print_expr(right);
            out.append(rs.as_str());
            out.append(")");
            proof {
                reveal_strlit("(");
                reveal_strlit(" ");
                reveal_strlit(")");
                assert(out@ =~= print_text(*e));
            }
            out
        },
        Expr::Grouping { expression } => {
            let mut out = String::from_str("(group ");
            let inner = print_expr(expression);
            out.append(inner.as_str());
            out.append(")");
            proof {
                reveal_strlit(")");
                assert(out@ =~= print_text(*e));
            }
            out
        },
        Expr::Literal { value } => value.to_text(),
        Expr::Unary { operator, right } => {
            let mut out = String::from_str("(");
            out.append(operator.lexeme.as_str());
            out.append(" ");
            let rs = print_expr(right);
            out.append(rs.as_str());
            out.append(")");
            proof {
                reveal_strlit("(");
                reveal_strlit(" ");
                reveal_strlit(")");
                assert(out@ =~= print_text(*e));
            }
            out
        },
    }
}

} // verus!
