//! Expressions of the syntax tree, and the rule by which each is evaluated
//! once its operands are known.

use vstd::prelude::*;
use std::rc::Rc;
use crate::error::RuntimeErrorKind;
use crate::list::List;
use crate::token::{Token, TokenType};
use crate::value::{
    bits_eq, bits_is_zero, bits_le, bits_lt, bits_neg, is_zero, number_eq, number_le, number_lt,
    number_neg, truthy, values_equal, Value,
};

verus! {

/// An expression.
pub enum Expr {
    Binary(Binary),
    Grouping(Grouping),
    Literal(Literal),
    Unary(Unary),
    Variable(Variable),
    NoOp(NoOp),
    Assign(Assign),
    Logical(Logical),
    Call(Call),
    Get(Get),
    SetField(SetField),
    This(This),
    Super(Super),
}

/// The shape of an expression, without its parts.
#[derive(Clone, Copy, Debug, PartialEq, Eq, Structural)]
pub enum Kind {
    Binary,
    Literal,
    Unary,
    Grouping,
    Variable,
    NoOp,
    Logical,
    Assign,
    Call,
    Get,
    This,
    Super,
    SetField,
}

/// `left op right` with an arithmetic, comparison or equality operator.
pub struct Binary {
    pub left: Rc<Expr>,
    pub op: Token,
    pub right: Rc<Expr>,
}

/// `( expression )`.
pub struct Grouping {
    pub expression: Rc<Expr>,
}

/// A literal value.
pub struct Literal {
    pub value: Value,
}

/// `- right` or `! right`.
pub struct Unary {
    pub operator: Token,
    pub right: Rc<Expr>,
}

/// A variable, by its name.
pub struct Variable {
    pub name: Token,
}

/// The absent expression: a `var` without initialiser, a bare `return`.
pub struct NoOp {}

/// `name = value`.
pub struct Assign {
    pub name: Token,
    pub value: Rc<Expr>,
}

/// `left or right`, `left and right`.
pub struct Logical {
    pub left: Rc<Expr>,
    pub op: Token,
    pub right: Rc<Expr>,
}

/// `calling ( arguments )`; `parent` is the closing parenthesis.
pub struct Call {
    pub calling: Rc<Expr>,
    pub parent: Token,
    pub arguments: Rc<List<Rc<Expr>>>,
}

/// `object . name`.
pub struct Get {
    pub object: Rc<Expr>,
    pub name: Token,
}

/// `object . name = value`.
pub struct SetField {
    pub object: Rc<Expr>,
    pub name: Token,
    pub value: Rc<Expr>,
}

/// `this`.
pub struct This {
    pub keyword: Token,
}

/// `super . method`.
pub struct Super {
    pub keyword: Token,
    pub method: Token,
}

impl Expr {
    /// The shape of this expression.
    pub fn kind(&self) -> (kind: Kind)
        ensures
            kind == self.spec_kind(),
    {
        match self {
            Expr::Binary(_) => Kind::Binary,
            Expr::Grouping(_) => Kind::Grouping,
            Expr::Literal(_) => Kind::Literal,
            Expr::Unary(_) => Kind::Unary,
            Expr::Variable(_) => Kind::Variable,
            Expr::NoOp(_) => Kind::NoOp,
            Expr::Assign(_) => Kind::Assign,
            Expr::Logical(_) => Kind::Logical,
            Expr::Call(_) => Kind::Call,
            Expr::Get(_) => Kind::Get,
            Expr::SetField(_) => Kind::SetField,
            Expr::This(_) => Kind::This,
            Expr::Super(_) => Kind::Super,
        }
    }

    pub open spec fn spec_kind(&self) -> Kind {
        match self {
            Expr::Binary(_) => Kind::Binary,
            Expr::Grouping(_) => Kind::Grouping,
            Expr::Literal(_) => Kind::Literal,
            Expr::Unary(_) => Kind::Unary,
            Expr::Variable(_) => Kind::Variable,
            Expr::NoOp(_) => Kind::NoOp,
            Expr::Assign(_) => Kind::Assign,
            Expr::Logical(_) => Kind::Logical,
            Expr::Call(_) => Kind::Call,
            Expr::Get(_) => Kind::Get,
            Expr::SetField(_) => Kind::SetField,
            Expr::This(_) => Kind::This,
            Expr::Super(_) => Kind::Super,
        }
    }
}

/// An arithmetic operation that has to round its result.
#[derive(Clone, Copy, Debug, PartialEq, Eq, Structural)]
pub enum Operation {
    Add,
    Subtract,
    Multiply,
    Divide,
}

/// What a binary operator makes of two values.
#[derive(Debug)]
pub enum Outcome {
    /// The result.
    Value(Value),
    /// The result is this operation on these two numbers.
    Arithmetic(Operation, u64, u64),
    /// The result is the first string followed by the second.
    Join(String, String),
    /// The operands do not fit the operator.
    Fail(RuntimeErrorKind),
}

/// What the operator `op` makes of two numbers.
pub open spec fn number_outcome(op: TokenType, a: u64, b: u64) -> Outcome {
    match op {
        TokenType::Greater => Outcome::Value(Value::Bool(number_lt(b, a))),
        TokenType::GreaterEqual => Outcome::Value(Value::Bool(number_le(b, a))),
        TokenType::Less => Outcome::Value(Value::Bool(number_lt(a, b))),
        TokenType::LessEqual => Outcome::Value(Value::Bool(number_le(a, b))),
        TokenType::Minus => Outcome::Arithmetic(Operation::Subtract, a, b),
        TokenType::Plus => Outcome::Arithmetic(Operation::Add, a, b),
        TokenType::Slash => if is_zero(b) {
            Outcome::Fail(RuntimeErrorKind::DivideByZero)
        } else {
            Outcome::Arithmetic(Operation::Divide, a, b)
        },
        TokenType::Star => Outcome::Arithmetic(Operation::Multiply, a, b),
        _ => Outcome::Fail(RuntimeErrorKind::UnknownOperator),
    }
}

/// The error of the operator `op` on operands that are not two numbers.
pub open spec fn operand_error(op: TokenType) -> RuntimeErrorKind {
    match op {
        TokenType::Greater | TokenType::GreaterEqual | TokenType::Less | TokenType::LessEqual =>
            RuntimeErrorKind::CompareOperands,
        TokenType::Minus => RuntimeErrorKind::SubtractOperands,
        TokenType::Plus => RuntimeErrorKind::AddOperands,
        TokenType::Slash => RuntimeErrorKind::DivideOperands,
        TokenType::Star => RuntimeErrorKind::MultiplyOperands,
        _ => RuntimeErrorKind::UnknownOperator,
    }
}

/// What the binary operator `op` makes of `left` and `right`. Equality takes
/// any two values; `+` takes two numbers or two strings; every other operator
/// takes two numbers.
pub open spec fn binary_outcome(op: TokenType, left: Value, right: Value) -> Outcome {
    match op {
        TokenType::EqualEqual => Outcome::Value(Value::Bool(values_equal(left, right))),
        TokenType::BangEqual => Outcome::Value(Value::Bool(!values_equal(left, right))),
        _ => match (left, right) {
            (Value::Number(a), Value::Number(b)) => number_outcome(op, a, b),
            (Value::String(a), Value::String(b)) => if op == TokenType::Plus {
                Outcome::Join(a, b)
            } else {
                Outcome::Fail(operand_error(op))
            },
            _ => Outcome::Fail(operand_error(op)),
        },
    }
}

/// What the unary operator `op` makes of `right`.
pub open spec fn unary_outcome(op: TokenType, right: Value) -> Result<Value, RuntimeErrorKind> {
    match op {
        TokenType::Minus => match right {
            Value::Number(a) => Ok(Value::Number(number_neg(a))),
            _ => Err(RuntimeErrorKind::NegateOperand),
        },
        TokenType::Bang => Ok(Value::Bool(!truthy(right))),
        _ => Err(RuntimeErrorKind::UnknownOperator),
    }
}

/// Whether `left` alone decides a logical expression: a truthy left operand
/// of `or`, a falsy one of `and`.
pub open spec fn short_circuits(op: TokenType, left: Value) -> bool {
    if op == TokenType::Or {
        truthy(left)
    } else {
        !truthy(left)
    }
}

/// The truthiness of `val` as a boolean value, negated if `invert`.
pub fn is_truth(val: &Value, invert: bool) -> (truth: Value)
    ensures
        truth == Value::Bool(truthy(*val) != invert),
{
    Value::Bool(val.is_truthy() != invert)
}

/// Whether the two values are equal, as a boolean value, negated if `invert`.
pub fn is_equal(val1: &Value, val2: &Value, invert: bool) -> (equal: Value)
    ensures
        equal == Value::Bool(values_equal(*val1, *val2) != invert),
{
    Value::Bool((*val1 == *val2) != invert)
}

fn operands(op: TokenType) -> (kind: RuntimeErrorKind)
    ensures
        kind == operand_error(op),
{
    match op {
        TokenType::Greater | TokenType::GreaterEqual | TokenType::Less | TokenType::LessEqual =>
            RuntimeErrorKind::CompareOperands,
        TokenType::Minus => RuntimeErrorKind::SubtractOperands,
        TokenType::Plus => RuntimeErrorKind::AddOperands,
        TokenType::Slash => RuntimeErrorKind::DivideOperands,
        TokenType::Star => RuntimeErrorKind::MultiplyOperands,
        _ => RuntimeErrorKind::UnknownOperator,
    }
}

fn numbers(op: TokenType, a: u64, b: u64) -> (outcome: Outcome)
    ensures
        outcome == number_outcome(op, a, b),
{
    match op {
        TokenType::Greater => Outcome::Value(Value::Bool(bits_lt(b, a))),
        TokenType::GreaterEqual => Outcome::Value(Value::Bool(bits_le(b, a))),
        TokenType::Less => Outcome::Value(Value::Bool(bits_lt(a, b))),
        TokenType::LessEqual => Outcome::Value(Value::Bool(bits_le(a, b))),
        TokenType::Minus => Outcome::Arithmetic(Operation::Subtract, a, b),
        TokenType::Plus => Outcome::Arithmetic(Operation::Add, a, b),
        TokenType::Slash => if bits_is_zero(b) {
            Outcome::Fail(RuntimeErrorKind::DivideByZero)
        } else {
            Outcome::Arithmetic(Operation::Divide, a, b)
        },
        TokenType::Star => Outcome::Arithmetic(Operation::Multiply, a, b),
        _ => Outcome::Fail(RuntimeErrorKind::UnknownOperator),
    }
}

impl Binary {
    /// What the operator `op` makes of the values of its two operands.
    pub fn evaluate(op: &Token, left: &Value, right: &Value) -> (outcome: Outcome)
        ensures
            outcome == binary_outcome(op.token_type, *left, *right),
    {
        match op.token_type {
            TokenType::EqualEqual => Outcome::Value(is_equal(left, right, false)),
            TokenType::BangEqual => Outcome::Value(is_equal(left, right, true)),
            kind => match (left, right) {
                (Value::Number(a), Value::Number(b)) => numbers(kind, *a, *b),
                (Value::String(a), Value::String(b)) => match kind {
                    TokenType::Plus => Outcome::Join(a.clone(), b.clone()),
                    _ => Outcome::Fail(operands(kind)),
                },
                _ => Outcome::Fail(operands(kind)),
            },
        }
    }
}

impl Unary {
    /// What the operator `operator` makes of the value of its operand.
    pub fn evaluate(operator: &Token, right: &Value) -> (outcome: Result<Value, RuntimeErrorKind>)
        ensures
            outcome == unary_outcome(operator.token_type, *right),
    {
        match operator.token_type {
            TokenType::Minus => match right {
                Value::Number(a) => Ok(Value::Number(bits_neg(*a))),
                _ => Err(RuntimeErrorKind::NegateOperand),
            },
            TokenType::Bang => Ok(is_truth(right, true)),
            _ => Err(RuntimeErrorKind::UnknownOperator),
        }
    }
}

impl Logical {
    /// Whether the value of the left operand is the value of the whole
    /// expression, so that the right operand is not evaluated.
    pub fn evaluate(op: &Token, left: &Value) -> (decided: bool)
        ensures
            decided == short_circuits(op.token_type, *left),
    {
        match op.token_type {
            TokenType::Or => left.is_truthy(),
            _ => !left.is_truthy(),
        }
    }
}

impl Literal {
    /// The value of the literal.
    pub fn evaluate(&self) -> (value: Value)
        ensures
            value == self.value,
    {
        self.value.clone()
    }
}

} // verus!
