//! The parser: tokens to statements, by recursive descent.

use vstd::prelude::*;
use std::rc::Rc;
use crate::expressions::{
    Assign, Binary, Call, Expr, Get, Grouping, Literal, Logical, NoOp, SetField, Super, This, Unary,
    Variable,
};
use crate::grammar::{
    arguments, assignment, at_end, binary, binary_rest, block, block_items, call, call_rest, check,
    class_declaration, closed_expression, condition, declaration, desugar_for, expression_statement,
    finish_call, for_clause, for_init, for_statement, function, if_statement, is_operator,
    lemma_declaration_advances, lemma_function_advances, level_rank, methods, operand, parameters, primary, print_statement, program, recovered, remaining,
    return_statement, signature, skipped, starts_statement, statement, synchronized, top_level, unary,
    var_declaration, while_statement, Context, FunctionKind, Level, ParseError, ParseErrorKind, Parsed,
};
use crate::list::{share, List};
use crate::scanner::is_word;
use crate::statements::{
    Block, ClassStatement, Expression, Function, If, Print, ReturnStatement, Statement, Var, While,
};
use crate::token::{Token, TokenType};
use crate::value::Value;

verus! {

/// Where `program` stands behind one declaration: what was read before, with
/// what the declaration gave, and the rest of the program.
pub proof fn lemma_program_goes_on(
    tokens: Seq<Token>,
    pos: int,
    statements: Seq<Rc<Statement>>,
    errors: Seq<ParseError>,
)
    requires
        !at_end(tokens, pos),
    ensures
        ({
            let first = declaration(tokens, pos, top_level());
            match first.result {
                Ok(statement) => first.used > 0 ==> {
                    &&& statements.push(statement) + program(tokens, pos + first.used).statements
                        == statements + program(tokens, pos).statements
                    &&& program(tokens, pos + first.used).errors == program(tokens, pos).errors
                },
                Err(error) => {
                    let used = first.used + recovered(tokens, pos, first.used, error);
                    &&& used > 0
                    &&& program(tokens, pos + used).statements == program(tokens, pos).statements
                    &&& errors.push(error) + program(tokens, pos + used).errors == errors + program(
                        tokens,
                        pos,
                    ).errors
                },
            }
        }),
{
    let first = declaration(tokens, pos, top_level());
    match first.result {
        Ok(statement) => {
            if first.used > 0 {
                let rest = program(tokens, pos + first.used);
                assert(statements.push(statement) + rest.statements =~= statements + (seq![statement]
                    + rest.statements));
            }
        },
        Err(error) => {
            let used = first.used + recovered(tokens, pos, first.used, error);
            let rest = program(tokens, pos + used);
            assert(errors.push(error) + rest.errors =~= errors + (seq![error] + rest.errors));
        },
    }
}

/// A cursor over a token sequence that ends with `EOF`.
pub struct Parser {
    pub tokens: Vec<Token>,
    /// The index of the next token to read.
    pub current: usize,
}

impl Parser {
    /// The cursor stands on a token, and the last token is `EOF`.
    pub open spec fn wf(&self) -> bool {
        &&& self.current < self.tokens@.len()
        &&& self.tokens@.last().token_type == TokenType::EOF
    }

    /// This state follows `before` by reading one construct with the outcome
    /// `parsed`, and `result` is what was read.
    pub open spec fn follows<T>(
        &self,
        before: Parser,
        parsed: Parsed<T>,
        result: Result<T, ParseError>,
    ) -> bool {
        &&& self.tokens == before.tokens
        &&& self.wf()
        &&& self.current == before.current + parsed.used
        &&& result == parsed.result
        &&& (result matches Err(e) ==> before.tokens@.contains(e.token))
    }

    /// A parser at the start of `tokens`. A sequence that does not end with
    /// `EOF` gets one appended, on the line of its last token.
    pub fn new(tokens: Vec<Token>) -> (parser: Self)
        ensures
            parser.wf(),
            parser.current == 0,
            tokens@.len() > 0 && tokens@.last().token_type == TokenType::EOF ==> parser.tokens@
                == tokens@,
            !(tokens@.len() > 0 && tokens@.last().token_type == TokenType::EOF) ==> {
                &&& parser.tokens@.drop_last() == tokens@
                &&& parser.tokens@.last().lexeme@.len() == 0
                &&& parser.tokens@.last().literal == Value::Nil
                &&& parser.tokens@.last().line == if tokens@.len() > 0 {
                    tokens@.last().line
                } else {
                    1
                }
            },
    {
        let mut tokens = tokens;
        let count = tokens.len();
        if count == 0 || tokens[count - 1].token_type != TokenType::EOF {
            let line = if count > 0 {
                tokens[count - 1].line
            } else {
                1
            };
            let ghost given = tokens@;
            tokens.push(
                Token { token_type: TokenType::EOF, lexeme: String::new(), literal: Value::Nil, line },
            );
            assert(tokens@.drop_last() =~= given);
        }
        Parser { tokens, current: 0 }
    }

    /// Parses the tokens from the cursor to the end. Returns the statements
    /// that parse and, for each declaration that does not, its error. After an
    /// error the parser skips to the next statement boundary; after an invalid
    /// assignment target it goes on where it is.
    pub fn parse(&mut self) -> (parsed: (Vec<Rc<Statement>>, Vec<ParseError>))
        requires
            old(self).wf(),
        ensures
            final(self).tokens == old(self).tokens,
            final(self).wf(),
            at_end(final(self).tokens@, final(self).current as int),
            parsed.0@ == program(old(self).tokens@, old(self).current as int).statements,
            parsed.1@ == program(old(self).tokens@, old(self).current as int).errors,
            forall|i: int|
                0 <= i < parsed.1@.len() ==> old(self).tokens@.contains((#[trigger] parsed.1@[i]).token),
    {
        let mut statements: Vec<Rc<Statement>> = Vec::new();
        let mut errors: Vec<ParseError> = Vec::new();
        let ghost tokens = self.tokens@;
        let ghost whole = program(tokens, self.current as int);
        while !self.is_at_end()
            invariant
                self.wf(),
                self.tokens == old(self).tokens,
                tokens == self.tokens@,
                statements@ + program(tokens, self.current as int).statements == whole.statements,
                errors@ + program(tokens, self.current as int).errors == whole.errors,
                forall|i: int| 0 <= i < errors@.len() ==> tokens.contains((#[trigger] errors@[i]).token),
            decreases remaining(tokens, self.current as int),
        {
            let ghost pos = self.current as int;
            let start = self.current;
            let ctx = Context { in_class: false, in_subclass: false, in_init: false };
            proof {
                lemma_declaration_advances(tokens, pos, ctx);
            }
            match self.declaration(ctx) {
                Ok(statement) => {
                    proof {
                        lemma_program_goes_on(tokens, pos, statements@, errors@);
                    }
                    statements.push(statement);
                },
                Err(error) => {
                    if error.kind != ParseErrorKind::InvalidAssignmentTarget || self.current == start {
                        self.synchronize();
                    }
                    proof {
                        lemma_program_goes_on(tokens, pos, statements@, errors@);
                    }
                    errors.push(error);
                },
            }
        }
        proof {
            let rest = program(tokens, self.current as int);
            assert(statements@ + rest.statements =~= statements@);
            assert(errors@ + rest.errors =~= errors@);
        }
        (statements, errors)
    }

    /// Whether the token at the cursor is of the given kind; if so, steps over
    /// it.
    fn matching(&mut self, kind: TokenType) -> (matched: bool)
        requires
            old(self).wf(),
        ensures
            matched == check(old(self).tokens@, old(self).current as int, kind),
            final(self).tokens == old(self).tokens,
            final(self).wf(),
            final(self).current == if matched {
                old(self).current + 1
            } else {
                old(self).current as int
            },
    {
        if self.check(kind) {
            self.advance();
            true
        } else {
            false
        }
    }

    /// Steps over a token of the given kind, or reports `missing` at the
    /// token that stands there instead.
    fn consume(&mut self, kind: TokenType, missing: ParseErrorKind) -> (result: Result<
        Token,
        ParseError,
    >)
        requires
            old(self).wf(),
        ensures
            final(self).tokens == old(self).tokens,
            final(self).wf(),
            check(old(self).tokens@, old(self).current as int, kind) ==> {
                &&& result == Ok::<Token, ParseError>(old(self).tokens@[old(self).current as int])
                &&& final(self).current == old(self).current + 1
            },
            !check(old(self).tokens@, old(self).current as int, kind) ==> {
                &&& result == Err::<Token, ParseError>(
                    ParseError { kind: missing, token: old(self).tokens@[old(self).current as int] },
                )
                &&& final(self).current == old(self).current
            },
            result matches Err(e) ==> old(self).tokens@.contains(e.token),
    {
        if self.check(kind) {
            let token = self.peek().clone();
            self.advance();
            Ok(token)
        } else {
            Err(self.error(missing))
        }
    }

    /// The error of the given kind at the token at the cursor.
    fn error(&self, kind: ParseErrorKind) -> (error: ParseError)
        requires
            self.wf(),
        ensures
            error == (ParseError { kind, token: self.tokens@[self.current as int] }),
            self.tokens@.contains(error.token),
    {
        ParseError { kind, token: self.peek().clone() }
    }

    fn check(&self, kind: TokenType) -> (yes: bool)
        requires
            self.wf(),
        ensures
            yes == check(self.tokens@, self.current as int, kind),
    {
        !self.is_at_end() && self.peek().token_type == kind
    }

    /// Steps over the token at the cursor.
    fn advance(&mut self)
        requires
            old(self).wf(),
            !at_end(old(self).tokens@, old(self).current as int),
        ensures
            final(self).tokens == old(self).tokens,
            final(self).wf(),
            final(self).current == old(self).current + 1,
    {
        assert(self.tokens@.len() == self.tokens.len());
        self.current = self.current + 1;
    }

    fn is_at_end(&self) -> (yes: bool)
        requires
            self.wf(),
        ensures
            yes == at_end(self.tokens@, self.current as int),
    {
        self.peek().token_type == TokenType::EOF
    }

    /// The token at the cursor.
    fn peek(&self) -> (token: &Token)
        requires
            self.wf(),
        ensures
            *token == self.tokens@[self.current as int],
    {
        &self.tokens[self.current]
    }

    /// The token in front of the cursor.
    fn previous(&self) -> (token: &Token)
        requires
            self.wf(),
            self.current > 0,
        ensures
            *token == self.tokens@[self.current - 1],
            self.tokens@.contains(*token),
    {
        &self.tokens[self.current - 1]
    }

    /// Skips to the next statement boundary: steps over the token at the
    /// cursor, then on until the token in front of the cursor is a semicolon
    /// or the token at the cursor starts a statement.
    fn synchronize(&mut self)
        requires
            old(self).wf(),
        ensures
            final(self).tokens == old(self).tokens,
            final(self).wf(),
            final(self).current == old(self).current + synchronized(
                old(self).tokens@,
                old(self).current as int,
            ),
    {
        if self.is_at_end() {
            return ;
        }
        self.advance();
        let ghost tokens = self.tokens@;
        let ghost first = self.current as int;
        while !self.is_at_end()
            invariant
                self.wf(),
                self.tokens == old(self).tokens,
                tokens == self.tokens@,
                first == old(self).current + 1,
                !at_end(tokens, old(self).current as int),
                first <= self.current,
                self.current - first + skipped(tokens, self.current as int) == skipped(tokens, first),
            decreases remaining(tokens, self.current as int),
        {
            if self.previous().token_type == TokenType::Semicolon {
                return ;
            }
            if Self::starts(self.peek().token_type) {
                return ;
            }
            self.advance();
        }
    }

    fn starts(kind: TokenType) -> (yes: bool)
        ensures
            yes == starts_statement(kind),
    {
        match kind {
            TokenType::Class
            | TokenType::For
            | TokenType::Fun
            | TokenType::If
            | TokenType::Print
            | TokenType::Return
            | TokenType::Var
            | TokenType::While => true,
            _ => false,
        }
    }

    fn declaration(&mut self, ctx: Context) -> (result: Result<Rc<Statement>, ParseError>)
        requires
            old(self).wf(),
        ensures
            final(self).follows(
                *old(self),
                declaration(old(self).tokens@, old(self).current as int, ctx),
                result,
            ),
        decreases remaining(old(self).tokens@, old(self).current as int), 51nat,
    {
        let kind = self.peek().token_type;
        match kind {
            TokenType::Class => {
                self.advance();
                self.class_declaration()
            },
            TokenType::Fun => {
                self.advance();
                match self.function(ctx, FunctionKind::Function) {
                    Ok(function) => Ok(Rc::new(Statement::Function(Rc::new(function)))),
                    Err(e) => Err(e),
                }
            },
            TokenType::Var => {
                self.advance();
                self.var_declaration(ctx)
            },
            _ => self.statement(ctx),
        }
    }

    fn class_declaration(&mut self) -> (result: Result<Rc<Statement>, ParseError>)
        requires
            old(self).wf(),
        ensures
            final(self).follows(
                *old(self),
                class_declaration(old(self).tokens@, old(self).current as int),
                result,
            ),
        decreases remaining(old(self).tokens@, old(self).current as int), 56nat,
    {
        let name = match self.consume(TokenType::Identifier, ParseErrorKind::ExpectClassName) {
            Ok(name) => name,
            Err(e) => {
                return Err(e);
            },
        };
        let super_class = if self.matching(TokenType::Less) {
            match self.consume(TokenType::Identifier, ParseErrorKind::ExpectSuperclassName) {
                Ok(parent) => Some(Variable { name: parent }),
                Err(e) => {
                    return Err(e);
                },
            }
        } else {
            None
        };
        match self.consume(TokenType::LeftBrace, ParseErrorKind::ExpectClassBody) {
            Ok(_) => {},
            Err(e) => {
                return Err(e);
            },
        }
        let ctx = Context { in_class: true, in_subclass: super_class.is_some(), in_init: false };
        let methods = match self.methods(ctx) {
            Ok(methods) => methods,
            Err(e) => {
                return Err(e);
            },
        };
        match self.consume(TokenType::RightBrace, ParseErrorKind::ExpectClassEnd) {
            Ok(_) => {},
            Err(e) => {
                return Err(e);
            },
        }
        Ok(Rc::new(Statement::ClassStatement(ClassStatement { name, methods, super_class })))
    }

    /// The methods of a class body, up to its closing brace.
    fn methods(&mut self, ctx: Context) -> (result: Result<Rc<List<Rc<Function>>>, ParseError>)
        requires
            old(self).wf(),
        ensures
            final(self).follows(
                *old(self),
                methods(old(self).tokens@, old(self).current as int, ctx),
                result,
            ),
        decreases remaining(old(self).tokens@, old(self).current as int), 55nat,
    {
        if self.check(TokenType::RightBrace) || self.is_at_end() {
            return Ok(Rc::new(List::Nil));
        }
        proof {
            lemma_function_advances(self.tokens@, self.current as int, ctx, FunctionKind::Method);
        }
        let head = match self.function(ctx, FunctionKind::Method) {
            Ok(head) => head,
            Err(e) => {
                return Err(e);
            },
        };
        match self.methods(ctx) {
            Ok(tail) => Ok(Rc::new(List::Cons(Rc::new(head), tail))),
            Err(e) => Err(e),
        }
    }

    fn statement(&mut self, ctx: Context) -> (result: Result<Rc<Statement>, ParseError>)
        requires
            old(self).wf(),
        ensures
            final(self).follows(
                *old(self),
                statement(old(self).tokens@, old(self).current as int, ctx),
                result,
            ),
        decreases remaining(old(self).tokens@, old(self).current as int), 50nat,
    {
        let kind = self.peek().token_type;
        match kind {
            TokenType::For => {
                self.advance();
                self.for_statement(ctx)
            },
            TokenType::If => {
                self.advance();
                self.if_statement(ctx)
            },
            TokenType::Print => {
                self.advance();
                self.print_statement(ctx)
            },
            TokenType::Return => {
                let keyword = self.peek().clone();
                self.advance();
                self.return_statement(ctx, keyword)
            },
            TokenType::While => {
                self.advance();
                self.while_statement(ctx)
            },
            TokenType::LeftBrace => {
                self.advance();
                match self.block(ctx) {
                    Ok(statements) => Ok(Rc::new(Statement::Block(Block { statements }))),
                    Err(e) => Err(e),
                }
            },
            _ => self.expression_statement(ctx),
        }
    }

    fn if_statement(&mut self, ctx: Context) -> (result: Result<Rc<Statement>, ParseError>)
        requires
            old(self).wf(),
        ensures
            final(self).follows(
                *old(self),
                if_statement(old(self).tokens@, old(self).current as int, ctx),
                result,
            ),
        decreases remaining(old(self).tokens@, old(self).current as int), 40nat,
    {
        match self.consume(TokenType::LeftParen, ParseErrorKind::ExpectIfParen) {
            Ok(_) => {},
            Err(e) => {
                return Err(e);
            },
        }
        let condition = match self.condition(ctx, ParseErrorKind::ExpectIfClose) {
            Ok(condition) => condition,
            Err(e) => {
                return Err(e);
            },
        };
        let then_branch = match self.statement(ctx) {
            Ok(branch) => branch,
            Err(e) => {
                return Err(e);
            },
        };
        let else_branch = if self.matching(TokenType::Else) {
            match self.statement(ctx) {
                Ok(branch) => Some(branch),
                Err(e) => {
                    return Err(e);
                },
            }
        } else {
            None
        };
        Ok(Rc::new(Statement::If(If { condition, then_branch, else_branch })))
    }

    /// A condition and its closing parenthesis.
    fn condition(&mut self, ctx: Context, close: ParseErrorKind) -> (result: Result<Rc<Expr>, ParseError>)
        requires
            old(self).wf(),
        ensures
            final(self).follows(
                *old(self),
                condition(old(self).tokens@, old(self).current as int, ctx, close),
                result,
            ),
        decreases remaining(old(self).tokens@, old(self).current as int), 39nat,
    {
        let test = match self.expression(ctx) {
            Ok(test) => test,
            Err(e) => {
                return Err(e);
            },
        };
        match self.consume(TokenType::RightParen, close) {
            Ok(_) => Ok(test),
            Err(e) => Err(e),
        }
    }

    fn for_statement(&mut self, ctx: Context) -> (result: Result<Rc<Statement>, ParseError>)
        requires
            old(self).wf(),
        ensures
            final(self).follows(
                *old(self),
                for_statement(old(self).tokens@, old(self).current as int, ctx),
                result,
            ),
        decreases remaining(old(self).tokens@, old(self).current as int), 40nat,
    {
        match self.consume(TokenType::LeftParen, ParseErrorKind::ExpectForParen) {
            Ok(_) => {},
            Err(e) => {
                return Err(e);
            },
        }
        let init = match self.for_init(ctx) {
            Ok(init) => init,
            Err(e) => {
                return Err(e);
            },
        };
        let condition = match self.for_clause(
            ctx,
            TokenType::Semicolon,
            ParseErrorKind::ExpectForConditionEnd,
        ) {
            Ok(condition) => condition,
            Err(e) => {
                return Err(e);
            },
        };
        let increment = match self.for_clause(
            ctx,
            TokenType::RightParen,
            ParseErrorKind::ExpectForClose,
        ) {
            Ok(increment) => increment,
            Err(e) => {
                return Err(e);
            },
        };
        let body = match self.statement(ctx) {
            Ok(body) => body,
            Err(e) => {
                return Err(e);
            },
        };
        Ok(Self::desugar(init, condition, increment, body))
    }

    /// The initialiser clause of a `for`.
    fn for_init(&mut self, ctx: Context) -> (result: Result<Option<Rc<Statement>>, ParseError>)
        requires
            old(self).wf(),
        ensures
            final(self).follows(
                *old(self),
                for_init(old(self).tokens@, old(self).current as int, ctx),
                result,
            ),
        decreases remaining(old(self).tokens@, old(self).current as int), 39nat,
    {
        if self.matching(TokenType::Semicolon) {
            Ok(None)
        } else if self.matching(TokenType::Var) {
            match self.var_declaration(ctx) {
                Ok(init) => Ok(Some(init)),
                Err(e) => Err(e),
            }
        } else {
            match self.expression_statement(ctx) {
                Ok(init) => Ok(Some(init)),
                Err(e) => Err(e),
            }
        }
    }

    /// The condition or increment clause of a `for`, with the token that
    /// closes it.
    fn for_clause(&mut self, ctx: Context, stop: TokenType, missing: ParseErrorKind) -> (result: Result<
        Option<Rc<Expr>>,
        ParseError,
    >)
        requires
            old(self).wf(),
        ensures
            final(self).follows(
                *old(self),
                for_clause(old(self).tokens@, old(self).current as int, ctx, stop, missing),
                result,
            ),
        decreases remaining(old(self).tokens@, old(self).current as int), 39nat,
    {
        if self.matching(stop) {
            return Ok(None);
        }
        let clause = match self.expression(ctx) {
            Ok(clause) => clause,
            Err(e) => {
                return Err(e);
            },
        };
        match self.consume(stop, missing) {
            Ok(_) => Ok(Some(clause)),
            Err(e) => Err(e),
        }
    }

    /// The `while` loop that a `for` stands for.
    fn desugar(
        init: Option<Rc<Statement>>,
        condition: Option<Rc<Expr>>,
        increment: Option<Rc<Expr>>,
        body: Rc<Statement>,
    ) -> (statement: Rc<Statement>)
        ensures
            statement == desugar_for(init, condition, increment, body),
    {
        let stepped = match increment {
            Some(expression) => {
                let step = Rc::new(Statement::Expression(Expression { expression }));
                let statements = Rc::new(
                    List::Cons(body, Rc::new(List::Cons(step, Rc::new(List::Nil)))),
                );
                Rc::new(Statement::Block(Block { statements }))
            },
            None => body,
        };
        let test = match condition {
            Some(expression) => expression,
            None => Rc::new(Expr::Literal(Literal { value: Value::Bool(true) })),
        };
        let repeated = Rc::new(Statement::While(While { condition: test, body: stepped }));
        match init {
            Some(first) => {
                let statements = Rc::new(
                    List::Cons(first, Rc::new(List::Cons(repeated, Rc::new(List::Nil)))),
                );
                Rc::new(Statement::Block(Block { statements }))
            },
            None => repeated,
        }
    }

    /// An expression and the semicolon that closes it.
    fn closed_expression(&mut self, ctx: Context, missing: ParseErrorKind) -> (result: Result<
        Rc<Expr>,
        ParseError,
    >)
        requires
            old(self).wf(),
        ensures
            final(self).follows(
                *old(self),
                closed_expression(old(self).tokens@, old(self).current as int, ctx, missing),
                result,
            ),
        decreases remaining(old(self).tokens@, old(self).current as int), 36nat,
    {
        let value = match self.expression(ctx) {
            Ok(value) => value,
            Err(e) => {
                return Err(e);
            },
        };
        match self.consume(TokenType::Semicolon, missing) {
            Ok(_) => Ok(value),
            Err(e) => Err(e),
        }
    }

    fn print_statement(&mut self, ctx: Context) -> (result: Result<Rc<Statement>, ParseError>)
        requires
            old(self).wf(),
        ensures
            final(self).follows(
                *old(self),
                print_statement(old(self).tokens@, old(self).current as int, ctx),
                result,
            ),
        decreases remaining(old(self).tokens@, old(self).current as int), 37nat,
    {
        match self.closed_expression(ctx, ParseErrorKind::ExpectPrintEnd) {
            Ok(expressions) => Ok(Rc::new(Statement::Print(Print { expressions }))),
            Err(e) => Err(e),
        }
    }

    fn return_statement(&mut self, ctx: Context, keyword: Token) -> (result: Result<
        Rc<Statement>,
        ParseError,
    >)
        requires
            old(self).wf(),
            old(self).tokens@.contains(keyword),
        ensures
            final(self).follows(
                *old(self),
                return_statement(old(self).tokens@, old(self).current as int, ctx, keyword),
                result,
            ),
        decreases remaining(old(self).tokens@, old(self).current as int), 37nat,
    {
        if self.matching(TokenType::Semicolon) {
            let value = Rc::new(Expr::NoOp(NoOp {  }));
            return Ok(Rc::new(Statement::ReturnStatement(ReturnStatement { keyword, value })));
        }
        if ctx.in_init {
            return Err(ParseError { kind: ParseErrorKind::ReturnFromInitializer, token: keyword });
        }
        match self.closed_expression(ctx, ParseErrorKind::ExpectReturnEnd) {
            Ok(value) => Ok(Rc::new(Statement::ReturnStatement(ReturnStatement { keyword, value }))),
            Err(e) => Err(e),
        }
    }

    fn var_declaration(&mut self, ctx: Context) -> (result: Result<Rc<Statement>, ParseError>)
        requires
            old(self).wf(),
        ensures
            final(self).follows(
                *old(self),
                var_declaration(old(self).tokens@, old(self).current as int, ctx),
                result,
            ),
        decreases remaining(old(self).tokens@, old(self).current as int), 38nat,
    {
        let name = match self.consume(TokenType::Identifier, ParseErrorKind::ExpectVariableName) {
            Ok(name) => name,
            Err(e) => {
                return Err(e);
            },
        };
        if self.matching(TokenType::Equal) {
            match self.closed_expression(ctx, ParseErrorKind::ExpectVariableEnd) {
                Ok(init) => Ok(Rc::new(Statement::Var(Var { name, init }))),
                Err(e) => Err(e),
            }
        } else {
            match self.consume(TokenType::Semicolon, ParseErrorKind::ExpectVariableEnd) {
                Ok(_) => {
                    let init = Rc::new(Expr::NoOp(NoOp {  }));
                    Ok(Rc::new(Statement::Var(Var { name, init })))
                },
                Err(e) => Err(e),
            }
        }
    }

    fn while_statement(&mut self, ctx: Context) -> (result: Result<Rc<Statement>, ParseError>)
        requires
            old(self).wf(),
        ensures
            final(self).follows(
                *old(self),
                while_statement(old(self).tokens@, old(self).current as int, ctx),
                result,
            ),
        decreases remaining(old(self).tokens@, old(self).current as int), 40nat,
    {
        match self.consume(TokenType::LeftParen, ParseErrorKind::ExpectWhileParen) {
            Ok(_) => {},
            Err(e) => {
                return Err(e);
            },
        }
        let condition = match self.condition(ctx, ParseErrorKind::ExpectWhileClose) {
            Ok(condition) => condition,
            Err(e) => {
                return Err(e);
            },
        };
        match self.statement(ctx) {
            Ok(body) => Ok(Rc::new(Statement::While(While { condition, body }))),
            Err(e) => Err(e),
        }
    }

    fn expression_statement(&mut self, ctx: Context) -> (result: Result<Rc<Statement>, ParseError>)
        requires
            old(self).wf(),
        ensures
            final(self).follows(
                *old(self),
                expression_statement(old(self).tokens@, old(self).current as int, ctx),
                result,
            ),
        decreases remaining(old(self).tokens@, old(self).current as int), 37nat,
    {
        match self.closed_expression(ctx, ParseErrorKind::ExpectExpressionEnd) {
            Ok(expression) => Ok(Rc::new(Statement::Expression(Expression { expression }))),
            Err(e) => Err(e),
        }
    }

    fn function(&mut self, ctx: Context, kind: FunctionKind) -> (result: Result<Function, ParseError>)
        requires
            old(self).wf(),
        ensures
            final(self).follows(
                *old(self),
                function(old(self).tokens@, old(self).current as int, ctx, kind),
                result,
            ),
        decreases remaining(old(self).tokens@, old(self).current as int), 52nat,
    {
        let (missing_name, missing_paren, missing_body) = match kind {
            FunctionKind::Function => (
                ParseErrorKind::ExpectFunctionName,
                ParseErrorKind::ExpectFunctionParen,
                ParseErrorKind::ExpectFunctionBody,
            ),
            FunctionKind::Method => (
                ParseErrorKind::ExpectMethodName,
                ParseErrorKind::ExpectMethodParen,
                ParseErrorKind::ExpectMethodBody,
            ),
        };
        let name = match self.consume(TokenType::Identifier, missing_name) {
            Ok(name) => name,
            Err(e) => {
                return Err(e);
            },
        };
        match self.consume(TokenType::LeftParen, missing_paren) {
            Ok(_) => {},
            Err(e) => {
                return Err(e);
            },
        }
        let parameters = match self.signature() {
            Ok(parameters) => parameters,
            Err(e) => {
                return Err(e);
            },
        };
        match self.consume(TokenType::LeftBrace, missing_body) {
            Ok(_) => {},
            Err(e) => {
                return Err(e);
            },
        }
        let in_init = match kind {
            FunctionKind::Method => is_word(name.lexeme.as_str(), "init"),
            FunctionKind::Function => false,
        };
        let inner = Context { in_class: ctx.in_class, in_subclass: ctx.in_subclass, in_init };
        match self.block(inner) {
            Ok(body) => Ok(Function { name, parameters, body }),
            Err(e) => Err(e),
        }
    }

    /// The parameters of a function and the closing parenthesis.
    fn signature(&mut self) -> (result: Result<Rc<List<Token>>, ParseError>)
        requires
            old(self).wf(),
        ensures
            final(self).follows(*old(self), signature(old(self).tokens@, old(self).current as int), result),
    {
        if self.matching(TokenType::RightParen) {
            return Ok(Rc::new(List::Nil));
        }
        let names = match self.parameters() {
            Ok(names) => names,
            Err(e) => {
                return Err(e);
            },
        };
        match self.consume(TokenType::RightParen, ParseErrorKind::ExpectParametersEnd) {
            Ok(_) => Ok(names),
            Err(e) => Err(e),
        }
    }

    fn parameters(&mut self) -> (result: Result<Rc<List<Token>>, ParseError>)
        requires
            old(self).wf(),
        ensures
            final(self).follows(*old(self), parameters(old(self).tokens@, old(self).current as int), result),
        decreases remaining(old(self).tokens@, old(self).current as int),
    {
        let name = match self.consume(TokenType::Identifier, ParseErrorKind::ExpectParameterName) {
            Ok(name) => name,
            Err(e) => {
                return Err(e);
            },
        };
        if self.matching(TokenType::Comma) {
            match self.parameters() {
                Ok(tail) => Ok(Rc::new(List::Cons(name, tail))),
                Err(e) => Err(e),
            }
        } else {
            Ok(Rc::new(List::Cons(name, Rc::new(List::Nil))))
        }
    }

    fn block(&mut self, ctx: Context) -> (result: Result<Rc<List<Rc<Statement>>>, ParseError>)
        requires
            old(self).wf(),
        ensures
            final(self).follows(
                *old(self),
                block(old(self).tokens@, old(self).current as int, ctx),
                result,
            ),
        decreases remaining(old(self).tokens@, old(self).current as int), 54nat,
    {
        let statements = match self.block_items(ctx) {
            Ok(statements) => statements,
            Err(e) => {
                return Err(e);
            },
        };
        match self.consume(TokenType::RightBrace, ParseErrorKind::ExpectBlockEnd) {
            Ok(_) => Ok(statements),
            Err(e) => Err(e),
        }
    }

    /// The declarations of a block, up to its closing brace.
    fn block_items(&mut self, ctx: Context) -> (result: Result<Rc<List<Rc<Statement>>>, ParseError>)
        requires
            old(self).wf(),
        ensures
            final(self).follows(
                *old(self),
                block_items(old(self).tokens@, old(self).current as int, ctx),
                result,
            ),
        decreases remaining(old(self).tokens@, old(self).current as int), 53nat,
    {
        if self.check(TokenType::RightBrace) || self.is_at_end() {
            return Ok(Rc::new(List::Nil));
        }
        proof {
            lemma_declaration_advances(self.tokens@, self.current as int, ctx);
        }
        let head = match self.declaration(ctx) {
            Ok(head) => head,
            Err(e) => {
                return Err(e);
            },
        };
        match self.block_items(ctx) {
            Ok(tail) => Ok(Rc::new(List::Cons(head, tail))),
            Err(e) => Err(e),
        }
    }

    fn expression(&mut self, ctx: Context) -> (result: Result<Rc<Expr>, ParseError>)
        requires
            old(self).wf(),
        ensures
            final(self).follows(
                *old(self),
                assignment(old(self).tokens@, old(self).current as int, ctx),
                result,
            ),
        decreases remaining(old(self).tokens@, old(self).current as int), 35nat, 1nat,
    {
        self.assignment(ctx)
    }

    fn assignment(&mut self, ctx: Context) -> (result: Result<Rc<Expr>, ParseError>)
        requires
            old(self).wf(),
        ensures
            final(self).follows(
                *old(self),
                assignment(old(self).tokens@, old(self).current as int, ctx),
                result,
            ),
        decreases remaining(old(self).tokens@, old(self).current as int), 35nat, 0nat,
    {
        let target = match self.binary(ctx, Level::Or) {
            Ok(target) => target,
            Err(e) => {
                return Err(e);
            },
        };
        if !self.matching(TokenType::Equal) {
            return Ok(target);
        }
        let equals = self.previous().clone();
        let value = match self.assignment(ctx) {
            Ok(value) => value,
            Err(e) => {
                return Err(e);
            },
        };
        match &*target {
            Expr::Variable(variable) => Ok(
                Rc::new(Expr::Assign(Assign { name: variable.name.clone(), value })),
            ),
            Expr::Get(get) => Ok(
                Rc::new(
                    Expr::SetField(
                        SetField { object: share(&get.object), name: get.name.clone(), value },
                    ),
                ),
            ),
            _ => Err(ParseError { kind: ParseErrorKind::InvalidAssignmentTarget, token: equals }),
        }
    }

    /// An expression of the given level of binary operators.
    fn binary(&mut self, ctx: Context, level: Level) -> (result: Result<Rc<Expr>, ParseError>)
        requires
            old(self).wf(),
        ensures
            final(self).follows(
                *old(self),
                binary(old(self).tokens@, old(self).current as int, ctx, level),
                result,
            ),
        decreases remaining(old(self).tokens@, old(self).current as int), 12 + 3 * level_rank(level), 0nat,
    {
        let left = match self.operand(ctx, level) {
            Ok(left) => left,
            Err(e) => {
                return Err(e);
            },
        };
        self.binary_rest(ctx, level, left)
    }

    /// An operand of the given level.
    fn operand(&mut self, ctx: Context, level: Level) -> (result: Result<Rc<Expr>, ParseError>)
        requires
            old(self).wf(),
        ensures
            final(self).follows(
                *old(self),
                operand(old(self).tokens@, old(self).current as int, ctx, level),
                result,
            ),
        decreases remaining(old(self).tokens@, old(self).current as int), 11 + 3 * level_rank(level), 0nat,
    {
        match level {
            Level::Or => self.binary(ctx, Level::And),
            Level::And => self.binary(ctx, Level::Equality),
            Level::Equality => self.binary(ctx, Level::Comparison),
            Level::Comparison => self.binary(ctx, Level::Term),
            Level::Term => self.binary(ctx, Level::Factor),
            Level::Factor => self.unary(ctx),
        }
    }

    /// The operators of the given level that follow `left`, with their
    /// operands.
    fn binary_rest(&mut self, ctx: Context, level: Level, left: Rc<Expr>) -> (result: Result<
        Rc<Expr>,
        ParseError,
    >)
        requires
            old(self).wf(),
        ensures
            final(self).follows(
                *old(self),
                binary_rest(old(self).tokens@, old(self).current as int, ctx, level, left),
                result,
            ),
        decreases remaining(old(self).tokens@, old(self).current as int), 10 + 3 * level_rank(level), 0nat,
    {
        if !Self::operator(level, self.peek().token_type) {
            return Ok(left);
        }
        let op = self.peek().clone();
        self.advance();
        let right = match self.operand(ctx, level) {
            Ok(right) => right,
            Err(e) => {
                return Err(e);
            },
        };
        let node = match level {
            Level::Or | Level::And => Rc::new(Expr::Logical(Logical { left, op, right })),
            _ => Rc::new(Expr::Binary(Binary { left, op, right })),
        };
        self.binary_rest(ctx, level, node)
    }

    fn operator(level: Level, kind: TokenType) -> (yes: bool)
        ensures
            yes == is_operator(level, kind),
    {
        match level {
            Level::Or => kind == TokenType::Or,
            Level::And => kind == TokenType::And,
            Level::Equality => kind == TokenType::BangEqual || kind == TokenType::EqualEqual,
            Level::Comparison => kind == TokenType::Greater || kind == TokenType::GreaterEqual || kind
                == TokenType::Less || kind == TokenType::LessEqual,
            Level::Term => kind == TokenType::Minus || kind == TokenType::Plus,
            Level::Factor => kind == TokenType::Slash || kind == TokenType::Star,
        }
    }

    fn unary(&mut self, ctx: Context) -> (result: Result<Rc<Expr>, ParseError>)
        requires
            old(self).wf(),
        ensures
            final(self).follows(*old(self), unary(old(self).tokens@, old(self).current as int, ctx), result),
        decreases remaining(old(self).tokens@, old(self).current as int), 9nat, 0nat,
    {
        if self.check(TokenType::Minus) || self.check(TokenType::Bang) {
            let operator = self.peek().clone();
            self.advance();
            match self.unary(ctx) {
                Ok(right) => Ok(Rc::new(Expr::Unary(Unary { operator, right }))),
                Err(e) => Err(e),
            }
        } else {
            self.call(ctx)
        }
    }

    fn call(&mut self, ctx: Context) -> (result: Result<Rc<Expr>, ParseError>)
        requires
            old(self).wf(),
        ensures
            final(self).follows(*old(self), call(old(self).tokens@, old(self).current as int, ctx), result),
        decreases remaining(old(self).tokens@, old(self).current as int), 8nat, 0nat,
    {
        let callee = match self.primary(ctx) {
            Ok(callee) => callee,
            Err(e) => {
                return Err(e);
            },
        };
        self.call_rest(ctx, callee)
    }

    /// The calls and property accesses that follow `callee`.
    #[verifier::rlimit(50)]
    fn call_rest(&mut self, ctx: Context, callee: Rc<Expr>) -> (result: Result<Rc<Expr>, ParseError>)
        requires
            old(self).wf(),
        ensures
            final(self).follows(
                *old(self),
                call_rest(old(self).tokens@, old(self).current as int, ctx, callee),
                result,
            ),
        decreases remaining(old(self).tokens@, old(self).current as int), 7nat, 0nat,
    {
        if self.matching(TokenType::LeftParen) {
            match self.finish_call(ctx, callee) {
                Ok(node) => self.call_rest(ctx, node),
                Err(e) => Err(e),
            }
        } else if self.matching(TokenType::Dot) {
            match self.consume(TokenType::Identifier, ParseErrorKind::ExpectPropertyName) {
                Ok(name) => {
                    let node = Rc::new(Expr::Get(Get { object: callee, name }));
                    self.call_rest(ctx, node)
                },
                Err(e) => Err(e),
            }
        } else {
            Ok(callee)
        }
    }

    fn finish_call(&mut self, ctx: Context, caller: Rc<Expr>) -> (result: Result<Rc<Expr>, ParseError>)
        requires
            old(self).wf(),
        ensures
            final(self).follows(
                *old(self),
                finish_call(old(self).tokens@, old(self).current as int, ctx, caller),
                result,
            ),
        decreases remaining(old(self).tokens@, old(self).current as int), 38nat, 0nat,
    {
        let arguments = if self.check(TokenType::RightParen) {
            Rc::new(List::Nil)
        } else {
            match self.arguments(ctx) {
                Ok(arguments) => arguments,
                Err(e) => {
                    return Err(e);
                },
            }
        };
        match self.consume(TokenType::RightParen, ParseErrorKind::ExpectArgumentsEnd) {
            Ok(parent) => Ok(Rc::new(Expr::Call(Call { calling: caller, parent, arguments }))),
            Err(e) => Err(e),
        }
    }

    /// The arguments of a call, separated by commas.
    fn arguments(&mut self, ctx: Context) -> (result: Result<Rc<List<Rc<Expr>>>, ParseError>)
        requires
            old(self).wf(),
        ensures
            final(self).follows(
                *old(self),
                arguments(old(self).tokens@, old(self).current as int, ctx),
                result,
            ),
        decreases remaining(old(self).tokens@, old(self).current as int), 37nat, 0nat,
    {
        let head = match self.expression(ctx) {
            Ok(head) => head,
            Err(e) => {
                return Err(e);
            },
        };
        if self.matching(TokenType::Comma) {
            match self.arguments(ctx) {
                Ok(tail) => Ok(Rc::new(List::Cons(head, tail))),
                Err(e) => Err(e),
            }
        } else {
            Ok(Rc::new(List::Cons(head, Rc::new(List::Nil))))
        }
    }

    fn primary(&mut self, ctx: Context) -> (result: Result<Rc<Expr>, ParseError>)
        requires
            old(self).wf(),
        ensures
            final(self).follows(
                *old(self),
                primary(old(self).tokens@, old(self).current as int, ctx),
                result,
            ),
        decreases remaining(old(self).tokens@, old(self).current as int), 6nat, 0nat,
    {
        let token = self.peek().clone();
        match token.token_type {
            TokenType::False => {
                self.advance();
                Ok(Rc::new(Expr::Literal(Literal { value: Value::Bool(false) })))
            },
            TokenType::True => {
                self.advance();
                Ok(Rc::new(Expr::Literal(Literal { value: Value::Bool(true) })))
            },
            TokenType::Nil => {
                self.advance();
                Ok(Rc::new(Expr::Literal(Literal { value: Value::Nil })))
            },
            TokenType::Number | TokenType::String => {
                self.advance();
                Ok(Rc::new(Expr::Literal(Literal { value: token.literal })))
            },
            TokenType::Identifier => {
                self.advance();
                Ok(Rc::new(Expr::Variable(Variable { name: token })))
            },
            TokenType::This => {
                if !ctx.in_class {
                    return Err(self.error(ParseErrorKind::ThisOutsideClass));
                }
                self.advance();
                Ok(Rc::new(Expr::This(This { keyword: token })))
            },
            TokenType::Super => {
                if !ctx.in_subclass {
                    return Err(self.error(ParseErrorKind::SuperOutsideSubclass));
                }
                self.advance();
                match self.consume(TokenType::Dot, ParseErrorKind::ExpectSuperDot) {
                    Ok(_) => {},
                    Err(e) => {
                        return Err(e);
                    },
                }
                match self.consume(TokenType::Identifier, ParseErrorKind::ExpectSuperMethod) {
                    Ok(method) => Ok(Rc::new(Expr::Super(Super { keyword: token, method }))),
                    Err(e) => Err(e),
                }
            },
            TokenType::LeftParen => {
                self.advance();
                let expression = match self.expression(ctx) {
                    Ok(expression) => expression,
                    Err(e) => {
                        return Err(e);
                    },
                };
                match self.consume(TokenType::RightParen, ParseErrorKind::ExpectGroupingEnd) {
                    Ok(_) => Ok(Rc::new(Expr::Grouping(Grouping { expression }))),
                    Err(e) => Err(e),
                }
            },
            _ => Err(self.error(ParseErrorKind::ExpectExpression)),
        }
    }
}

} // verus!
