//! Statements of the syntax tree.

use vstd::prelude::*;
use std::rc::Rc;
use crate::expressions::{Expr, Variable};
use crate::list::List;
use crate::token::Token;

verus! {

/// A statement.
pub enum Statement {
    Expression(Expression),
    Print(Print),
    Var(Var),
    Block(Block),
    If(If),
    While(While),
    Function(Rc<Function>),
    ReturnStatement(ReturnStatement),
    ClassStatement(ClassStatement),
}

/// The shape of a statement, without its parts.
#[derive(Clone, Copy, Debug, PartialEq, Eq, Structural)]
pub enum StatementKind {
    Expression,
    Print,
    Var,
    Block,
    If,
    While,
    Function,
    ReturnStatement,
    ClassStatement,
}

/// `expression ;`.
pub struct Expression {
    pub expression: Rc<Expr>,
}

/// `print expression ;`.
pub struct Print {
    pub expressions: Rc<Expr>,
}

/// `var name = init ;`; `init` is `NoOp` where the source gives none.
pub struct Var {
    pub name: Token,
    pub init: Rc<Expr>,
}

/// `{ statements }`.
pub struct Block {
    pub statements: Rc<List<Rc<Statement>>>,
}

/// `if ( condition ) then_branch else else_branch`.
pub struct If {
    pub condition: Rc<Expr>,
    pub then_branch: Rc<Statement>,
    pub else_branch: Option<Rc<Statement>>,
}

/// `while ( condition ) body`.
pub struct While {
    pub condition: Rc<Expr>,
    pub body: Rc<Statement>,
}

/// A function or method declaration.
pub struct Function {
    pub name: Token,
    pub parameters: Rc<List<Token>>,
    pub body: Rc<List<Rc<Statement>>>,
}

/// `return value ;`; `value` is `NoOp` where the source gives none.
pub struct ReturnStatement {
    pub keyword: Token,
    pub value: Rc<Expr>,
}

/// `class name < super_class { methods }`.
pub struct ClassStatement {
    pub name: Token,
    pub methods: Rc<List<Rc<Function>>>,
    pub super_class: Option<Variable>,
}

impl Statement {
    /// The shape of this statement.
    pub fn kind(&self) -> (kind: StatementKind)
        ensures
            kind == self.spec_kind(),
    {
        match self {
            Statement::Expression(_) => StatementKind::Expression,
            Statement::Print(_) => StatementKind::Print,
            Statement::Var(_) => StatementKind::Var,
            Statement::Block(_) => StatementKind::Block,
            Statement::If(_) => StatementKind::If,
            Statement::While(_) => StatementKind::While,
            Statement::Function(_) => StatementKind::Function,
            Statement::ReturnStatement(_) => StatementKind::ReturnStatement,
            Statement::ClassStatement(_) => StatementKind::ClassStatement,
        }
    }

    pub open spec fn spec_kind(&self) -> StatementKind {
        match self {
            Statement::Expression(_) => StatementKind::Expression,
            Statement::Print(_) => StatementKind::Print,
            Statement::Var(_) => StatementKind::Var,
            Statement::Block(_) => StatementKind::Block,
            Statement::If(_) => StatementKind::If,
            Statement::While(_) => StatementKind::While,
            Statement::Function(_) => StatementKind::Function,
            Statement::ReturnStatement(_) => StatementKind::ReturnStatement,
            Statement::ClassStatement(_) => StatementKind::ClassStatement,
        }
    }
}

} // verus!
