//! The syntax tree: expressions and statements.

use crate::token::{Object, Token};
use std::rc::Rc;
use vstd::prelude::*;

verus! {

/// An expression. Children are shared, so that the evaluator can keep a
/// pending subexpression without copying it.
#[derive(Debug)]
pub enum Expr {
    Binary { left: Rc<Expr>, operator: Token, right: Rc<Expr> },
    Unary { operator: Token, right: Rc<Expr> },
    Grouping(Rc<Expr>),
    Literal(Object),
    Variable(Token),
    Assign { name: Token, value: Rc<Expr> },
    Logical { left: Rc<Expr>, operator: Token, right: Rc<Expr> },
    Call { callee: Rc<Expr>, paren: Token, arguments: Rc<Vec<Expr>> },
}

/// A statement.
#[derive(Debug)]
#[allow(inconsistent_fields)]
pub enum Stmt {
    Expression(Rc<Expr>),
    Print(Rc<Expr>),
    Var { name: Token, initializer: Option<Rc<Expr>> },
    Block(Rc<Vec<Stmt>>),
    If { condition: Rc<Expr>, then_branch: Rc<Stmt>, else_branch: Option<Rc<Stmt>> },
    While { condition: Rc<Expr>, body: Rc<Stmt> },
    Function { name: Token, params: Rc<Vec<Token>>, body: Rc<Vec<Stmt>> },
    Return { keyword: Token, value: Option<Rc<Expr>> },
}

/// The mathematical model of an expression: the same tree, with sequences
/// in place of vectors.
pub enum ExprModel {
    Binary { left: Box<ExprModel>, operator: Token, right: Box<ExprModel> },
    Unary { operator: Token, right: Box<ExprModel> },
    Grouping(Box<ExprModel>),
    Literal(Object),
    Variable(Token),
    Assign { name: Token, value: Box<ExprModel> },
    Logical { left: Box<ExprModel>, operator: Token, right: Box<ExprModel> },
    Call { callee: Box<ExprModel>, paren: Token, arguments: Seq<ExprModel> },
}

/// The mathematical model of a statement.
#[allow(inconsistent_fields)]
pub enum StmtModel {
    Expression(ExprModel),
    Print(ExprModel),
    Var { name: Token, initializer: Option<ExprModel> },
    Block(Seq<StmtModel>),
    If { condition: ExprModel, then_branch: Box<StmtModel>, else_branch: Option<Box<StmtModel>> },
    While { condition: ExprModel, body: Box<StmtModel> },
    Function { name: Token, params: Seq<Token>, body: Seq<StmtModel> },
    Return { keyword: Token, value: Option<ExprModel> },
}

/// The model of an expression.
pub open spec fn expr_model(e: Expr) -> ExprModel
    decreases e,
{
    match e {
        Expr::Binary { left, operator, right } => ExprModel::Binary {
            left: Box::new(expr_model(*left)),
            operator,
            right: Box::new(expr_model(*right)),
        },
        Expr::Unary { operator, right } => ExprModel::Unary {
            operator,
            right: Box::new(expr_model(*right)),
        },
        Expr::Grouping(inner) => ExprModel::Grouping(Box::new(expr_model(*inner))),
        Expr::Literal(value) => ExprModel::Literal(value),
        Expr::Variable(name) => ExprModel::Variable(name),
        Expr::Assign { name, value } => ExprModel::Assign {
            name,
            value: Box::new(expr_model(*value)),
        },
        Expr::Logical { left, operator, right } => ExprModel::Logical {
            left: Box::new(expr_model(*left)),
            operator,
            right: Box::new(expr_model(*right)),
        },
        Expr::Call { callee, paren, arguments } => ExprModel::Call {
            callee: Box::new(expr_model(*callee)),
            paren,
            arguments: expr_models(arguments@),
        },
    }
}

/// The models of a sequence of expressions, one for one.
pub open spec fn expr_models(es: Seq<Expr>) -> Seq<ExprModel>
    decreases es,
{
    Seq::new(
        es.len(),
        |i: int|
            if 0 <= i < es.len() {
                expr_model(es[i])
            } else {
                arbitrary()
            },
    )
}

pub open spec fn optional_expr_model(e: Option<Rc<Expr>>) -> Option<ExprModel> {
    match e {
        Some(e) => Some(expr_model(*e)),
        None => None,
    }
}

/// The model of a statement.
pub open spec fn stmt_model(s: Stmt) -> StmtModel
    decreases s,
{
    match s {
        Stmt::Expression(e) => StmtModel::Expression(expr_model(*e)),
        Stmt::Print(e) => StmtModel::Print(expr_model(*e)),
        Stmt::Var { name, initializer } => StmtModel::Var {
            name,
            initializer: optional_expr_model(initializer),
        },
        Stmt::Block(stmts) => StmtModel::Block(
            stmt_models(stmts@),
        ),
        Stmt::If { condition, then_branch, else_branch } => StmtModel::If {
            condition: expr_model(*condition),
            then_branch: Box::new(stmt_model(*then_branch)),
            else_branch: match else_branch {
                Some(e) => Some(Box::new(stmt_model(*e))),
                None => None,
            },
        },
        Stmt::While { condition, body } => StmtModel::While {
            condition: expr_model(*condition),
            body: Box::new(stmt_model(*body)),
        },
        Stmt::Function { name, params, body } => StmtModel::Function {
            name,
            params: params@,
            body: stmt_models(body@),
        },
        Stmt::Return { keyword, value } => StmtModel::Return {
            keyword,
            value: optional_expr_model(value),
        },
    }
}

/// The models of a sequence of statements, one for one.
pub open spec fn stmt_models(ss: Seq<Stmt>) -> Seq<StmtModel>
    decreases ss,
{
    Seq::new(
        ss.len(),
        |i: int|
            if 0 <= i < ss.len() {
                stmt_model(ss[i])
            } else {
                arbitrary()
            },
    )
}

} // verus!
