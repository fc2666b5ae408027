//! The grammar, as functions of a token sequence and a position.
//!
//! Each function here reads one construct at a position and says what the
//! parser builds from it, or which error it reports, and how many tokens it
//! takes. The parser is proved to compute exactly these functions.

use vstd::prelude::*;
use std::rc::Rc;
use crate::expressions::{
    Assign, Binary, Call, Expr, Get, Grouping, Literal, Logical, NoOp, SetField, Super, This, Unary,
    Variable,
};
use crate::list::List;
use crate::statements::{
    Block, ClassStatement, Expression, Function, If, Print, ReturnStatement, Statement, Var, While,
};
use crate::token::{Token, TokenType};
use crate::value::Value;

verus! {

/// Whether a declaration is a free function or a method of a class.
#[derive(Clone, Copy, Debug, PartialEq, Eq, Structural)]
pub enum FunctionKind {
    Function,
    Method,
}

/// What went wrong at a token.
#[derive(Clone, Copy, Debug, PartialEq, Eq, Structural)]
pub enum ParseErrorKind {
    ExpectClassName,
    ExpectSuperclassName,
    ExpectClassBody,
    ExpectClassEnd,
    ExpectIfParen,
    ExpectIfClose,
    ExpectForParen,
    ExpectForConditionEnd,
    ExpectForClose,
    ExpectPrintEnd,
    ReturnFromInitializer,
    ExpectReturnEnd,
    ExpectVariableName,
    ExpectVariableEnd,
    ExpectWhileParen,
    ExpectWhileClose,
    ExpectExpressionEnd,
    ExpectFunctionName,
    ExpectMethodName,
    ExpectFunctionParen,
    ExpectMethodParen,
    ExpectParameterName,
    ExpectParametersEnd,
    ExpectFunctionBody,
    ExpectMethodBody,
    ExpectBlockEnd,
    InvalidAssignmentTarget,
    ExpectPropertyName,
    ExpectArgumentsEnd,
    ExpectExpression,
    ExpectGroupingEnd,
    ExpectSuperDot,
    ExpectSuperMethod,
    ThisOutsideClass,
    SuperOutsideSubclass,
}

/// A parse error: what went wrong, and the token at which it did.
#[derive(Debug)]
pub struct ParseError {
    pub kind: ParseErrorKind,
    pub token: Token,
}

/// What surrounds the construct being parsed.
#[derive(Clone, Copy, Debug, PartialEq, Eq, Structural)]
pub struct Context {
    /// Inside the body of a class.
    pub in_class: bool,
    /// Inside the body of a class that names a superclass.
    pub in_subclass: bool,
    /// Directly inside the body of a method named `init`.
    pub in_init: bool,
}

/// The levels of binary operators, from the loosest to the tightest.
#[derive(Clone, Copy, Debug, PartialEq, Eq, Structural)]
pub enum Level {
    Or,
    And,
    Equality,
    Comparison,
    Term,
    Factor,
}

/// The outcome of reading one construct: the tree or the error, and the
/// number of tokens taken either way.
pub struct Parsed<T> {
    pub result: Result<T, ParseError>,
    pub used: nat,
}

/// What a whole token sequence parses to.
pub struct Program {
    pub statements: Seq<Rc<Statement>>,
    pub errors: Seq<ParseError>,
}

pub open spec fn ok<T>(value: T, used: nat) -> Parsed<T> {
    Parsed { result: Ok(value), used }
}

pub open spec fn err<T>(error: ParseError, used: nat) -> Parsed<T> {
    Parsed { result: Err(error), used }
}

/// The kind of the token at `pos`; `EOF` behind the last token.
pub open spec fn kind_at(tokens: Seq<Token>, pos: int) -> TokenType {
    if 0 <= pos < tokens.len() {
        tokens[pos].token_type
    } else {
        TokenType::EOF
    }
}

/// The token at `pos`; the last token behind the end.
pub open spec fn token_at(tokens: Seq<Token>, pos: int) -> Token {
    if 0 <= pos < tokens.len() {
        tokens[pos]
    } else {
        tokens.last()
    }
}

pub open spec fn at_end(tokens: Seq<Token>, pos: int) -> bool {
    kind_at(tokens, pos) == TokenType::EOF
}

/// Whether the token at `pos` is of the given kind. Never true of `EOF`.
pub open spec fn check(tokens: Seq<Token>, pos: int, kind: TokenType) -> bool {
    kind != TokenType::EOF && kind_at(tokens, pos) == kind
}

/// The error of kind `kind` at the token at `pos`, after `used` tokens.
pub open spec fn fail<T>(kind: ParseErrorKind, tokens: Seq<Token>, pos: int, used: nat) -> Parsed<T> {
    err(ParseError { kind, token: token_at(tokens, pos) }, used)
}

/// The distance from `pos` to the end of the tokens.
pub open spec fn remaining(tokens: Seq<Token>, pos: int) -> nat {
    if pos < tokens.len() {
        (tokens.len() - pos) as nat
    } else {
        0
    }
}

pub open spec fn level_rank(level: Level) -> nat {
    match level {
        Level::Or => 6,
        Level::And => 5,
        Level::Equality => 4,
        Level::Comparison => 3,
        Level::Term => 2,
        Level::Factor => 1,
    }
}

/// The next tighter level.
pub open spec fn tighter(level: Level) -> Level {
    match level {
        Level::Or => Level::And,
        Level::And => Level::Equality,
        Level::Equality => Level::Comparison,
        Level::Comparison => Level::Term,
        _ => Level::Factor,
    }
}

/// Whether a token of kind `kind` is an operator of the level.
pub open spec fn is_operator(level: Level, kind: TokenType) -> bool {
    match level {
        Level::Or => kind == TokenType::Or,
        Level::And => kind == TokenType::And,
        Level::Equality => kind == TokenType::BangEqual || kind == TokenType::EqualEqual,
        Level::Comparison => kind == TokenType::Greater || kind == TokenType::GreaterEqual || kind
            == TokenType::Less || kind == TokenType::LessEqual,
        Level::Term => kind == TokenType::Minus || kind == TokenType::Plus,
        Level::Factor => kind == TokenType::Slash || kind == TokenType::Star,
    }
}

/// The node for `left op right` at the level.
pub open spec fn join(level: Level, left: Rc<Expr>, op: Token, right: Rc<Expr>) -> Rc<Expr> {
    match level {
        Level::Or | Level::And => Rc::new(Expr::Logical(Logical { left, op, right })),
        _ => Rc::new(Expr::Binary(Binary { left, op, right })),
    }
}

pub open spec fn literal(value: Value) -> Rc<Expr> {
    Rc::new(Expr::Literal(Literal { value }))
}

pub open spec fn no_op() -> Rc<Expr> {
    Rc::new(Expr::NoOp(NoOp {  }))
}

/// primary → "true" | "false" | "nil" | NUMBER | STRING | "this"
///         | "super" "." IDENT | IDENT | "(" expression ")"
pub open spec fn primary(tokens: Seq<Token>, pos: int, ctx: Context) -> Parsed<Rc<Expr>>
    decreases remaining(tokens, pos), 6nat,
{
    let token = token_at(tokens, pos);
    match kind_at(tokens, pos) {
        TokenType::False => ok(literal(Value::Bool(false)), 1),
        TokenType::True => ok(literal(Value::Bool(true)), 1),
        TokenType::Nil => ok(literal(Value::Nil), 1),
        TokenType::Number | TokenType::String => ok(literal(token.literal), 1),
        TokenType::Identifier => ok(Rc::new(Expr::Variable(Variable { name: token })), 1),
        TokenType::This => if ctx.in_class {
            ok(Rc::new(Expr::This(This { keyword: token })), 1)
        } else {
            fail(ParseErrorKind::ThisOutsideClass, tokens, pos, 0)
        },
        TokenType::Super => if !ctx.in_subclass {
            fail(ParseErrorKind::SuperOutsideSubclass, tokens, pos, 0)
        } else if !check(tokens, pos + 1, TokenType::Dot) {
            fail(ParseErrorKind::ExpectSuperDot, tokens, pos + 1, 1)
        } else if !check(tokens, pos + 2, TokenType::Identifier) {
            fail(ParseErrorKind::ExpectSuperMethod, tokens, pos + 2, 2)
        } else {
            ok(Rc::new(Expr::Super(Super { keyword: token, method: tokens[pos + 2] })), 3)
        },
        TokenType::LeftParen => {
            let inner = assignment(tokens, pos + 1, ctx);
            match inner.result {
                Err(e) => err(e, 1 + inner.used),
                Ok(expression) => if check(tokens, pos + 1 + inner.used, TokenType::RightParen) {
                    ok(Rc::new(Expr::Grouping(Grouping { expression })), 2 + inner.used)
                } else {
                    fail(ParseErrorKind::ExpectGroupingEnd, tokens, pos + 1 + inner.used, 1 + inner.used)
                },
            }
        },
        _ => fail(ParseErrorKind::ExpectExpression, tokens, pos, 0),
    }
}

/// call → primary ( "(" arguments? ")" | "." IDENT )*
pub open spec fn call(tokens: Seq<Token>, pos: int, ctx: Context) -> Parsed<Rc<Expr>>
    decreases remaining(tokens, pos), 8nat,
{
    let first = primary(tokens, pos, ctx);
    match first.result {
        Err(e) => first,
        Ok(callee) => {
            let rest = call_rest(tokens, pos + first.used, ctx, callee);
            Parsed { result: rest.result, used: first.used + rest.used }
        },
    }
}

/// The calls and property accesses that follow `callee`.
pub open spec fn call_rest(tokens: Seq<Token>, pos: int, ctx: Context, callee: Rc<Expr>) -> Parsed<
    Rc<Expr>,
>
    decreases remaining(tokens, pos), 7nat,
{
    if check(tokens, pos, TokenType::LeftParen) {
        let made = finish_call(tokens, pos + 1, ctx, callee);
        match made.result {
            Err(e) => err(e, 1 + made.used),
            Ok(node) => {
                let rest = call_rest(tokens, pos + 1 + made.used, ctx, node);
                Parsed { result: rest.result, used: 1 + made.used + rest.used }
            },
        }
    } else if check(tokens, pos, TokenType::Dot) {
        if check(tokens, pos + 1, TokenType::Identifier) {
            let node = Rc::new(Expr::Get(Get { object: callee, name: tokens[pos + 1] }));
            let rest = call_rest(tokens, pos + 2, ctx, node);
            Parsed { result: rest.result, used: 2 + rest.used }
        } else {
            fail(ParseErrorKind::ExpectPropertyName, tokens, pos + 1, 1)
        }
    } else {
        ok(callee, 0)
    }
}

/// The arguments and the closing parenthesis of a call, behind the opening one.
pub open spec fn finish_call(tokens: Seq<Token>, pos: int, ctx: Context, callee: Rc<Expr>) -> Parsed<
    Rc<Expr>,
>
    decreases remaining(tokens, pos), 38nat,
{
    if check(tokens, pos, TokenType::RightParen) {
        ok(
            Rc::new(
                Expr::Call(
                    Call { calling: callee, parent: tokens[pos], arguments: Rc::new(List::Nil) },
                ),
            ),
            1,
        )
    } else {
        let list = arguments(tokens, pos, ctx);
        match list.result {
            Err(e) => err(e, list.used),
            Ok(arguments) => if check(tokens, pos + list.used, TokenType::RightParen) {
                ok(
                    Rc::new(
                        Expr::Call(
                            Call { calling: callee, parent: tokens[pos + list.used], arguments },
                        ),
                    ),
                    list.used + 1,
                )
            } else {
                fail(ParseErrorKind::ExpectArgumentsEnd, tokens, pos + list.used, list.used)
            },
        }
    }
}

/// arguments → expression ( "," expression )*
pub open spec fn arguments(tokens: Seq<Token>, pos: int, ctx: Context) -> Parsed<Rc<List<Rc<Expr>>>>
    decreases remaining(tokens, pos), 37nat,
{
    let first = assignment(tokens, pos, ctx);
    match first.result {
        Err(e) => err(e, first.used),
        Ok(head) => if check(tokens, pos + first.used, TokenType::Comma) {
            let rest = arguments(tokens, pos + first.used + 1, ctx);
            match rest.result {
                Err(e) => err(e, first.used + 1 + rest.used),
                Ok(tail) => ok(Rc::new(List::Cons(head, tail)), first.used + 1 + rest.used),
            }
        } else {
            ok(Rc::new(List::Cons(head, Rc::new(List::Nil))), first.used)
        },
    }
}

/// unary → ( "-" | "!" ) unary | call
pub open spec fn unary(tokens: Seq<Token>, pos: int, ctx: Context) -> Parsed<Rc<Expr>>
    decreases remaining(tokens, pos), 9nat,
{
    if check(tokens, pos, TokenType::Minus) || check(tokens, pos, TokenType::Bang) {
        let operand = unary(tokens, pos + 1, ctx);
        match operand.result {
            Err(e) => err(e, 1 + operand.used),
            Ok(right) => ok(
                Rc::new(Expr::Unary(Unary { operator: tokens[pos], right })),
                1 + operand.used,
            ),
        }
    } else {
        call(tokens, pos, ctx)
    }
}

/// An operand of the level: an expression of the next tighter level.
pub open spec fn operand(tokens: Seq<Token>, pos: int, ctx: Context, level: Level) -> Parsed<Rc<Expr>>
    decreases remaining(tokens, pos), 11 + 3 * level_rank(level),
{
    if level == Level::Factor {
        unary(tokens, pos, ctx)
    } else {
        binary(tokens, pos, ctx, tighter(level))
    }
}

/// level → operand ( operator operand )*, associating to the left.
pub open spec fn binary(tokens: Seq<Token>, pos: int, ctx: Context, level: Level) -> Parsed<Rc<Expr>>
    decreases remaining(tokens, pos), 12 + 3 * level_rank(level),
{
    let first = operand(tokens, pos, ctx, level);
    match first.result {
        Err(e) => first,
        Ok(left) => {
            let rest = binary_rest(tokens, pos + first.used, ctx, level, left);
            Parsed { result: rest.result, used: first.used + rest.used }
        },
    }
}

/// The operators and operands of the level that follow `left`.
pub open spec fn binary_rest(
    tokens: Seq<Token>,
    pos: int,
    ctx: Context,
    level: Level,
    left: Rc<Expr>,
) -> Parsed<Rc<Expr>>
    decreases remaining(tokens, pos), 10 + 3 * level_rank(level),
{
    if 0 <= pos < tokens.len() && is_operator(level, tokens[pos].token_type) {
        let next = operand(tokens, pos + 1, ctx, level);
        match next.result {
            Err(e) => err(e, 1 + next.used),
            Ok(right) => {
                let rest = binary_rest(
                    tokens,
                    pos + 1 + next.used,
                    ctx,
                    level,
                    join(level, left, tokens[pos], right),
                );
                Parsed { result: rest.result, used: 1 + next.used + rest.used }
            },
        }
    } else {
        ok(left, 0)
    }
}

/// What an assignment to `target` becomes; `None` if `target` cannot be
/// assigned to.
pub open spec fn assign_to(target: Rc<Expr>, value: Rc<Expr>) -> Option<Rc<Expr>> {
    match *target {
        Expr::Variable(variable) => Some(Rc::new(Expr::Assign(Assign { name: variable.name, value }))),
        Expr::Get(get) => Some(
            Rc::new(Expr::SetField(SetField { object: get.object, name: get.name, value })),
        ),
        _ => None,
    }
}

/// expression → assignment
/// assignment → ( call "." )? IDENT "=" assignment | logic_or
///
/// An assignment to anything but a variable or a property is an error at the
/// `=`, reported behind the assigned value.
pub open spec fn assignment(tokens: Seq<Token>, pos: int, ctx: Context) -> Parsed<Rc<Expr>>
    decreases remaining(tokens, pos), 35nat,
{
    let left = binary(tokens, pos, ctx, Level::Or);
    match left.result {
        Err(e) => left,
        Ok(target) => if check(tokens, pos + left.used, TokenType::Equal) {
            let right = assignment(tokens, pos + left.used + 1, ctx);
            match right.result {
                Err(e) => err(e, left.used + 1 + right.used),
                Ok(value) => match assign_to(target, value) {
                    Some(node) => ok(node, left.used + 1 + right.used),
                    None => fail(
                        ParseErrorKind::InvalidAssignmentTarget,
                        tokens,
                        pos + left.used,
                        left.used + 1 + right.used,
                    ),
                },
            }
        } else {
            left
        },
    }
}

/// An expression closed by a semicolon; `missing` is the error without one.
pub open spec fn closed_expression(tokens: Seq<Token>, pos: int, ctx: Context, missing: ParseErrorKind) -> Parsed<
    Rc<Expr>,
>
    decreases remaining(tokens, pos), 36nat,
{
    let value = assignment(tokens, pos, ctx);
    match value.result {
        Err(e) => value,
        Ok(expression) => if check(tokens, pos + value.used, TokenType::Semicolon) {
            ok(expression, value.used + 1)
        } else {
            fail(missing, tokens, pos + value.used, value.used)
        },
    }
}

/// exprStmt → expression ";"
pub open spec fn expression_statement(tokens: Seq<Token>, pos: int, ctx: Context) -> Parsed<
    Rc<Statement>,
>
    decreases remaining(tokens, pos), 37nat,
{
    let value = closed_expression(tokens, pos, ctx, ParseErrorKind::ExpectExpressionEnd);
    match value.result {
        Err(e) => err(e, value.used),
        Ok(expression) => ok(Rc::new(Statement::Expression(Expression { expression })), value.used),
    }
}

/// printStmt → "print" expression ";", behind the keyword.
pub open spec fn print_statement(tokens: Seq<Token>, pos: int, ctx: Context) -> Parsed<Rc<Statement>>
    decreases remaining(tokens, pos), 37nat,
{
    let value = closed_expression(tokens, pos, ctx, ParseErrorKind::ExpectPrintEnd);
    match value.result {
        Err(e) => err(e, value.used),
        Ok(expressions) => ok(Rc::new(Statement::Print(Print { expressions })), value.used),
    }
}

/// returnStmt → "return" expression? ";", behind the keyword `keyword`.
/// An initialiser may not return a value.
pub open spec fn return_statement(tokens: Seq<Token>, pos: int, ctx: Context, keyword: Token) -> Parsed<
    Rc<Statement>,
>
    decreases remaining(tokens, pos), 37nat,
{
    if check(tokens, pos, TokenType::Semicolon) {
        ok(Rc::new(Statement::ReturnStatement(ReturnStatement { keyword, value: no_op() })), 1)
    } else if ctx.in_init {
        err(ParseError { kind: ParseErrorKind::ReturnFromInitializer, token: keyword }, 0)
    } else {
        let value = closed_expression(tokens, pos, ctx, ParseErrorKind::ExpectReturnEnd);
        match value.result {
            Err(e) => err(e, value.used),
            Ok(value_expression) => ok(
                Rc::new(
                    Statement::ReturnStatement(ReturnStatement { keyword, value: value_expression }),
                ),
                value.used,
            ),
        }
    }
}

/// varDecl → "var" IDENT ( "=" expression )? ";", behind the keyword.
pub open spec fn var_declaration(tokens: Seq<Token>, pos: int, ctx: Context) -> Parsed<Rc<Statement>>
    decreases remaining(tokens, pos), 38nat,
{
    if !check(tokens, pos, TokenType::Identifier) {
        fail(ParseErrorKind::ExpectVariableName, tokens, pos, 0)
    } else if check(tokens, pos + 1, TokenType::Equal) {
        let init = closed_expression(tokens, pos + 2, ctx, ParseErrorKind::ExpectVariableEnd);
        match init.result {
            Err(e) => err(e, 2 + init.used),
            Ok(value) => ok(
                Rc::new(Statement::Var(Var { name: tokens[pos], init: value })),
                2 + init.used,
            ),
        }
    } else if check(tokens, pos + 1, TokenType::Semicolon) {
        ok(Rc::new(Statement::Var(Var { name: tokens[pos], init: no_op() })), 2)
    } else {
        fail(ParseErrorKind::ExpectVariableEnd, tokens, pos + 1, 1)
    }
}

/// A condition behind its opening parenthesis, with the closing one; `close`
/// is the error without it.
pub open spec fn condition(tokens: Seq<Token>, pos: int, ctx: Context, close: ParseErrorKind) -> Parsed<
    Rc<Expr>,
>
    decreases remaining(tokens, pos), 39nat,
{
    let test = assignment(tokens, pos, ctx);
    match test.result {
        Err(e) => test,
        Ok(expression) => if check(tokens, pos + test.used, TokenType::RightParen) {
            ok(expression, test.used + 1)
        } else {
            fail(close, tokens, pos + test.used, test.used)
        },
    }
}

/// whileStmt → "while" "(" expression ")" statement, behind the keyword.
pub open spec fn while_statement(tokens: Seq<Token>, pos: int, ctx: Context) -> Parsed<Rc<Statement>>
    decreases remaining(tokens, pos), 40nat,
{
    if !check(tokens, pos, TokenType::LeftParen) {
        fail(ParseErrorKind::ExpectWhileParen, tokens, pos, 0)
    } else {
        let test = condition(tokens, pos + 1, ctx, ParseErrorKind::ExpectWhileClose);
        match test.result {
            Err(e) => err(e, 1 + test.used),
            Ok(condition) => {
                let inner = statement(tokens, pos + 1 + test.used, ctx);
                match inner.result {
                    Err(e) => err(e, 1 + test.used + inner.used),
                    Ok(body) => ok(
                        Rc::new(Statement::While(While { condition, body })),
                        1 + test.used + inner.used,
                    ),
                }
            },
        }
    }
}

/// ifStmt → "if" "(" expression ")" statement ( "else" statement )?, behind
/// the keyword.
pub open spec fn if_statement(tokens: Seq<Token>, pos: int, ctx: Context) -> Parsed<Rc<Statement>>
    decreases remaining(tokens, pos), 40nat,
{
    if !check(tokens, pos, TokenType::LeftParen) {
        fail(ParseErrorKind::ExpectIfParen, tokens, pos, 0)
    } else {
        let test = condition(tokens, pos + 1, ctx, ParseErrorKind::ExpectIfClose);
        match test.result {
            Err(e) => err(e, 1 + test.used),
            Ok(condition) => {
                let first = statement(tokens, pos + 1 + test.used, ctx);
                match first.result {
                    Err(e) => err(e, 1 + test.used + first.used),
                    Ok(then_branch) => {
                        let head = 1 + test.used + first.used;
                        if check(tokens, pos + head, TokenType::Else) {
                            let second = statement(tokens, pos + head + 1, ctx);
                            match second.result {
                                Err(e) => err(e, head + 1 + second.used),
                                Ok(other) => ok(
                                    Rc::new(
                                        Statement::If(
                                            If { condition, then_branch, else_branch: Some(other) },
                                        ),
                                    ),
                                    head + 1 + second.used,
                                ),
                            }
                        } else {
                            ok(
                                Rc::new(
                                    Statement::If(If { condition, then_branch, else_branch: None }),
                                ),
                                head,
                            )
                        }
                    },
                }
            },
        }
    }
}

/// The initialiser of a `for`: a `var` declaration, an expression statement,
/// or a lone semicolon.
pub open spec fn for_init(tokens: Seq<Token>, pos: int, ctx: Context) -> Parsed<Option<Rc<Statement>>>
    decreases remaining(tokens, pos), 39nat,
{
    if check(tokens, pos, TokenType::Semicolon) {
        ok(None, 1)
    } else if check(tokens, pos, TokenType::Var) {
        let declared = var_declaration(tokens, pos + 1, ctx);
        match declared.result {
            Err(e) => err(e, 1 + declared.used),
            Ok(init) => ok(Some(init), 1 + declared.used),
        }
    } else {
        let stated = expression_statement(tokens, pos, ctx);
        match stated.result {
            Err(e) => err(e, stated.used),
            Ok(init) => ok(Some(init), stated.used),
        }
    }
}

/// An optional expression closed by a token of kind `stop`; `missing` is the
/// error without that token.
pub open spec fn for_clause(
    tokens: Seq<Token>,
    pos: int,
    ctx: Context,
    stop: TokenType,
    missing: ParseErrorKind,
) -> Parsed<Option<Rc<Expr>>>
    decreases remaining(tokens, pos), 39nat,
{
    if check(tokens, pos, stop) {
        ok(None, 1)
    } else {
        let clause = assignment(tokens, pos, ctx);
        match clause.result {
            Err(e) => err(e, clause.used),
            Ok(expression) => if check(tokens, pos + clause.used, stop) {
                ok(Some(expression), clause.used + 1)
            } else {
                fail(missing, tokens, pos + clause.used, clause.used)
            },
        }
    }
}

/// `for (init; condition; increment) body` as
/// `{ init; while (condition) { body; increment; } }`, each absent part left
/// out and an absent condition read as `true`.
pub open spec fn desugar_for(
    init: Option<Rc<Statement>>,
    condition: Option<Rc<Expr>>,
    increment: Option<Rc<Expr>>,
    body: Rc<Statement>,
) -> Rc<Statement> {
    let stepped = match increment {
        Some(expression) => Rc::new(
            Statement::Block(
                Block {
                    statements: Rc::new(
                        List::Cons(
                            body,
                            Rc::new(
                                List::Cons(
                                    Rc::new(Statement::Expression(Expression { expression })),
                                    Rc::new(List::Nil),
                                ),
                            ),
                        ),
                    ),
                },
            ),
        ),
        None => body,
    };
    let test = match condition {
        Some(expression) => expression,
        None => literal(Value::Bool(true)),
    };
    let repeated = Rc::new(Statement::While(While { condition: test, body: stepped }));
    match init {
        Some(first) => Rc::new(
            Statement::Block(
                Block {
                    statements: Rc::new(
                        List::Cons(first, Rc::new(List::Cons(repeated, Rc::new(List::Nil)))),
                    ),
                },
            ),
        ),
        None => repeated,
    }
}

/// forStmt → "for" "(" ( varDecl | exprStmt | ";" ) expression? ";"
///           expression? ")" statement, behind the keyword.
pub open spec fn for_statement(tokens: Seq<Token>, pos: int, ctx: Context) -> Parsed<Rc<Statement>>
    decreases remaining(tokens, pos), 40nat,
{
    if !check(tokens, pos, TokenType::LeftParen) {
        fail(ParseErrorKind::ExpectForParen, tokens, pos, 0)
    } else {
        let first = for_init(tokens, pos + 1, ctx);
        match first.result {
            Err(e) => err(e, 1 + first.used),
            Ok(init) => {
                let second = for_clause(
                    tokens,
                    pos + 1 + first.used,
                    ctx,
                    TokenType::Semicolon,
                    ParseErrorKind::ExpectForConditionEnd,
                );
                match second.result {
                    Err(e) => err(e, 1 + first.used + second.used),
                    Ok(condition) => {
                        let third = for_clause(
                            tokens,
                            pos + 1 + first.used + second.used,
                            ctx,
                            TokenType::RightParen,
                            ParseErrorKind::ExpectForClose,
                        );
                        match third.result {
                            Err(e) => err(e, 1 + first.used + second.used + third.used),
                            Ok(increment) => {
                                let head = 1 + first.used + second.used + third.used;
                                let inner = statement(tokens, pos + head, ctx);
                                match inner.result {
                                    Err(e) => err(e, head + inner.used),
                                    Ok(body) => ok(
                                        desugar_for(init, condition, increment, body),
                                        head + inner.used,
                                    ),
                                }
                            },
                        }
                    },
                }
            },
        }
    }
}

/// statement → forStmt | ifStmt | printStmt | returnStmt | whileStmt | block
///           | exprStmt
pub open spec fn statement(tokens: Seq<Token>, pos: int, ctx: Context) -> Parsed<Rc<Statement>>
    decreases remaining(tokens, pos), 50nat,
{
    match kind_at(tokens, pos) {
        TokenType::For => shift(for_statement(tokens, pos + 1, ctx)),
        TokenType::If => shift(if_statement(tokens, pos + 1, ctx)),
        TokenType::Print => shift(print_statement(tokens, pos + 1, ctx)),
        TokenType::Return => shift(return_statement(tokens, pos + 1, ctx, tokens[pos])),
        TokenType::While => shift(while_statement(tokens, pos + 1, ctx)),
        TokenType::LeftBrace => {
            let inner = block(tokens, pos + 1, ctx);
            match inner.result {
                Err(e) => err(e, 1 + inner.used),
                Ok(statements) => ok(Rc::new(Statement::Block(Block { statements })), 1 + inner.used),
            }
        },
        _ => expression_statement(tokens, pos, ctx),
    }
}

/// The same outcome, one token further on.
pub open spec fn shift<T>(parsed: Parsed<T>) -> Parsed<T> {
    Parsed { result: parsed.result, used: parsed.used + 1 }
}

/// block → "{" declaration* "}", behind the opening brace.
pub open spec fn block(tokens: Seq<Token>, pos: int, ctx: Context) -> Parsed<Rc<List<Rc<Statement>>>>
    decreases remaining(tokens, pos), 54nat,
{
    let items = block_items(tokens, pos, ctx);
    match items.result {
        Err(e) => items,
        Ok(statements) => if check(tokens, pos + items.used, TokenType::RightBrace) {
            ok(statements, items.used + 1)
        } else {
            fail(ParseErrorKind::ExpectBlockEnd, tokens, pos + items.used, items.used)
        },
    }
}

/// The declarations up to a closing brace or the end of the tokens.
pub open spec fn block_items(tokens: Seq<Token>, pos: int, ctx: Context) -> Parsed<
    Rc<List<Rc<Statement>>>,
>
    decreases remaining(tokens, pos), 53nat,
{
    if check(tokens, pos, TokenType::RightBrace) || at_end(tokens, pos) {
        ok(Rc::new(List::Nil), 0)
    } else {
        let first = declaration(tokens, pos, ctx);
        match first.result {
            Err(e) => err(e, first.used),
            Ok(head) => if first.used == 0 {
                ok(Rc::new(List::Cons(head, Rc::new(List::Nil))), 0)
            } else {
                let rest = block_items(tokens, pos + first.used, ctx);
                match rest.result {
                    Err(e) => err(e, first.used + rest.used),
                    Ok(tail) => ok(Rc::new(List::Cons(head, tail)), first.used + rest.used),
                }
            },
        }
    }
}

/// params → IDENT ( "," IDENT )*
pub open spec fn parameters(tokens: Seq<Token>, pos: int) -> Parsed<Rc<List<Token>>>
    decreases remaining(tokens, pos),
{
    if !check(tokens, pos, TokenType::Identifier) {
        fail(ParseErrorKind::ExpectParameterName, tokens, pos, 0)
    } else if check(tokens, pos + 1, TokenType::Comma) {
        let rest = parameters(tokens, pos + 2);
        match rest.result {
            Err(e) => err(e, 2 + rest.used),
            Ok(tail) => ok(Rc::new(List::Cons(tokens[pos], tail)), 2 + rest.used),
        }
    } else {
        ok(Rc::new(List::Cons(tokens[pos], Rc::new(List::Nil))), 1)
    }
}

pub open spec fn name_error(kind: FunctionKind) -> ParseErrorKind {
    match kind {
        FunctionKind::Function => ParseErrorKind::ExpectFunctionName,
        FunctionKind::Method => ParseErrorKind::ExpectMethodName,
    }
}

pub open spec fn paren_error(kind: FunctionKind) -> ParseErrorKind {
    match kind {
        FunctionKind::Function => ParseErrorKind::ExpectFunctionParen,
        FunctionKind::Method => ParseErrorKind::ExpectMethodParen,
    }
}

pub open spec fn body_error(kind: FunctionKind) -> ParseErrorKind {
    match kind {
        FunctionKind::Function => ParseErrorKind::ExpectFunctionBody,
        FunctionKind::Method => ParseErrorKind::ExpectMethodBody,
    }
}

/// The parameter list of a function behind its opening parenthesis, with the
/// closing one.
pub open spec fn signature(tokens: Seq<Token>, pos: int) -> Parsed<Rc<List<Token>>> {
    if check(tokens, pos, TokenType::RightParen) {
        ok(Rc::new(List::Nil), 1)
    } else {
        let list = parameters(tokens, pos);
        match list.result {
            Err(e) => list,
            Ok(names) => if check(tokens, pos + list.used, TokenType::RightParen) {
                ok(names, list.used + 1)
            } else {
                fail(ParseErrorKind::ExpectParametersEnd, tokens, pos + list.used, list.used)
            },
        }
    }
}

/// What surrounds the body of a function declared in `ctx`: it is an
/// initialiser's body exactly when the function is a method named `init`.
pub open spec fn body_context(ctx: Context, kind: FunctionKind, name: Token) -> Context {
    Context {
        in_class: ctx.in_class,
        in_subclass: ctx.in_subclass,
        in_init: kind == FunctionKind::Method && name.lexeme@ == "init"@,
    }
}

/// function → IDENT "(" params? ")" "{" declaration* "}"
pub open spec fn function(tokens: Seq<Token>, pos: int, ctx: Context, kind: FunctionKind) -> Parsed<
    Function,
>
    decreases remaining(tokens, pos), 52nat,
{
    if !check(tokens, pos, TokenType::Identifier) {
        fail(name_error(kind), tokens, pos, 0)
    } else if !check(tokens, pos + 1, TokenType::LeftParen) {
        fail(paren_error(kind), tokens, pos + 1, 1)
    } else {
        let names = signature(tokens, pos + 2);
        match names.result {
            Err(e) => err(e, 2 + names.used),
            Ok(parameters) => {
                let brace = pos + 2 + names.used;
                if !check(tokens, brace, TokenType::LeftBrace) {
                    fail(body_error(kind), tokens, brace, 2 + names.used)
                } else {
                    let inner = block(tokens, brace + 1, body_context(ctx, kind, tokens[pos]));
                    match inner.result {
                        Err(e) => err(e, 3 + names.used + inner.used),
                        Ok(body) => ok(
                            Function { name: tokens[pos], parameters, body },
                            3 + names.used + inner.used,
                        ),
                    }
                }
            },
        }
    }
}

/// The methods of a class, up to a closing brace or the end of the tokens.
pub open spec fn methods(tokens: Seq<Token>, pos: int, ctx: Context) -> Parsed<
    Rc<List<Rc<Function>>>,
>
    decreases remaining(tokens, pos), 55nat,
{
    if check(tokens, pos, TokenType::RightBrace) || at_end(tokens, pos) {
        ok(Rc::new(List::Nil), 0)
    } else {
        let first = function(tokens, pos, ctx, FunctionKind::Method);
        match first.result {
            Err(e) => err(e, first.used),
            Ok(head) => if first.used == 0 {
                ok(Rc::new(List::Cons(Rc::new(head), Rc::new(List::Nil))), 0)
            } else {
                let rest = methods(tokens, pos + first.used, ctx);
                match rest.result {
                    Err(e) => err(e, first.used + rest.used),
                    Ok(tail) => ok(Rc::new(List::Cons(Rc::new(head), tail)), first.used + rest.used),
                }
            },
        }
    }
}

/// The optional `< IDENT` of a class declaration.
pub open spec fn superclass(tokens: Seq<Token>, pos: int) -> Parsed<Option<Variable>> {
    if !check(tokens, pos, TokenType::Less) {
        ok(None, 0)
    } else if check(tokens, pos + 1, TokenType::Identifier) {
        ok(Some(Variable { name: tokens[pos + 1] }), 2)
    } else {
        fail(ParseErrorKind::ExpectSuperclassName, tokens, pos + 1, 1)
    }
}

/// classDecl → "class" IDENT ( "<" IDENT )? "{" function* "}", behind the
/// keyword.
pub open spec fn class_declaration(tokens: Seq<Token>, pos: int) -> Parsed<Rc<Statement>>
    decreases remaining(tokens, pos), 56nat,
{
    if !check(tokens, pos, TokenType::Identifier) {
        fail(ParseErrorKind::ExpectClassName, tokens, pos, 0)
    } else {
        let parent = superclass(tokens, pos + 1);
        match parent.result {
            Err(e) => err(e, 1 + parent.used),
            Ok(super_class) => {
                let brace = pos + 1 + parent.used;
                if !check(tokens, brace, TokenType::LeftBrace) {
                    fail(ParseErrorKind::ExpectClassBody, tokens, brace, 1 + parent.used)
                } else {
                    let ctx = Context {
                        in_class: true,
                        in_subclass: super_class is Some,
                        in_init: false,
                    };
                    let members = methods(tokens, brace + 1, ctx);
                    let head = 2 + parent.used + members.used;
                    match members.result {
                        Err(e) => err(e, head),
                        Ok(methods) => if check(tokens, pos + head, TokenType::RightBrace) {
                            ok(
                                Rc::new(
                                    Statement::ClassStatement(
                                        ClassStatement { name: tokens[pos], methods, super_class },
                                    ),
                                ),
                                head + 1,
                            )
                        } else {
                            fail(ParseErrorKind::ExpectClassEnd, tokens, pos + head, head)
                        },
                    }
                }
            },
        }
    }
}

/// declaration → classDecl | funDecl | varDecl | statement
pub open spec fn declaration(tokens: Seq<Token>, pos: int, ctx: Context) -> Parsed<Rc<Statement>>
    decreases remaining(tokens, pos), 51nat,
{
    match kind_at(tokens, pos) {
        TokenType::Class => shift(class_declaration(tokens, pos + 1)),
        TokenType::Fun => {
            let declared = function(tokens, pos + 1, ctx, FunctionKind::Function);
            match declared.result {
                Err(e) => err(e, 1 + declared.used),
                Ok(function) => ok(Rc::new(Statement::Function(Rc::new(function))), 1 + declared.used),
            }
        },
        TokenType::Var => shift(var_declaration(tokens, pos + 1, ctx)),
        _ => statement(tokens, pos, ctx),
    }
}

/// Whether a statement may start at a token of this kind.
pub open spec fn starts_statement(kind: TokenType) -> bool {
    kind == TokenType::Class || kind == TokenType::For || kind == TokenType::Fun || kind
        == TokenType::If || kind == TokenType::Print || kind == TokenType::Return || kind
        == TokenType::Var || kind == TokenType::While
}

/// The number of tokens skipped from `pos` on, up to the next statement
/// boundary: behind a semicolon, or in front of a token that starts a
/// statement.
pub open spec fn skipped(tokens: Seq<Token>, pos: int) -> nat
    decreases remaining(tokens, pos),
{
    if at_end(tokens, pos) || kind_at(tokens, pos - 1) == TokenType::Semicolon || starts_statement(
        kind_at(tokens, pos),
    ) {
        0
    } else {
        1 + skipped(tokens, pos + 1)
    }
}

/// The number of tokens that error recovery at `pos` discards: the token at
/// `pos`, and what is skipped behind it.
pub open spec fn synchronized(tokens: Seq<Token>, pos: int) -> nat {
    if at_end(tokens, pos) {
        0
    } else {
        1 + skipped(tokens, pos + 1)
    }
}

/// The number of tokens discarded after a declaration at `pos` took `used`
/// tokens and failed with `error`. An invalid assignment target discards
/// nothing.
pub open spec fn recovered(tokens: Seq<Token>, pos: int, used: nat, error: ParseError) -> nat {
    if error.kind == ParseErrorKind::InvalidAssignmentTarget && used > 0 {
        0
    } else {
        synchronized(tokens, pos + used)
    }
}

pub open spec fn top_level() -> Context {
    Context { in_class: false, in_subclass: false, in_init: false }
}

/// program → declaration* EOF, from `pos` on: the statements that parse, and
/// the error of each declaration that does not.
pub open spec fn program(tokens: Seq<Token>, pos: int) -> Program
    decreases remaining(tokens, pos), 60nat,
{
    if at_end(tokens, pos) {
        Program { statements: Seq::empty(), errors: Seq::empty() }
    } else {
        let first = declaration(tokens, pos, top_level());
        match first.result {
            Ok(statement) => if first.used == 0 {
                Program { statements: seq![statement], errors: Seq::empty() }
            } else {
                let rest = program(tokens, pos + first.used);
                Program { statements: seq![statement] + rest.statements, errors: rest.errors }
            },
            Err(error) => {
                let rest = program(tokens, pos + first.used + recovered(tokens, pos, first.used, error));
                Program { statements: rest.statements, errors: seq![error] + rest.errors }
            },
        }
    }
}

/// A statement that parses takes at least one token.
pub proof fn lemma_statement_advances(tokens: Seq<Token>, pos: int, ctx: Context)
    ensures
        statement(tokens, pos, ctx).result is Ok ==> statement(tokens, pos, ctx).used >= 1,
{
    let closed = closed_expression(tokens, pos, ctx, ParseErrorKind::ExpectExpressionEnd);
    assert(closed.result is Ok ==> closed.used >= 1);
    assert(expression_statement(tokens, pos, ctx).result is Ok ==> expression_statement(
        tokens,
        pos,
        ctx,
    ).used >= 1);
}

/// A declaration that parses takes at least one token, so the declarations
/// of a block and of a program are read one after another and none twice.
pub proof fn lemma_declaration_advances(tokens: Seq<Token>, pos: int, ctx: Context)
    ensures
        declaration(tokens, pos, ctx).result is Ok ==> declaration(tokens, pos, ctx).used >= 1,
{
    lemma_statement_advances(tokens, pos, ctx);
}

/// A function that parses takes at least one token, so the methods of a
/// class are read one after another and none twice.
pub proof fn lemma_function_advances(tokens: Seq<Token>, pos: int, ctx: Context, kind: FunctionKind)
    ensures
        function(tokens, pos, ctx, kind).result is Ok ==> function(tokens, pos, ctx, kind).used >= 1,
{
}

} // verus!
