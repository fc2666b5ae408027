//! The evaluator as an abstract machine.
//!
//! A state holds the heap (frames of bindings, functions, classes, instances),
//! a stack of continuation frames, and a control: what to do next. `next` is
//! the transition function: one step of evaluation. It is total, and every
//! step does a bounded amount of work; a program that loops forever takes
//! steps forever.
//!
//! Four things the machine cannot do itself: round the result of an
//! arithmetic operation, read the clock, write to the terminal, and stop. For
//! these a step ends in an action for the host.

use vstd::prelude::*;
use std::rc::Rc;
use crate::error::{error_at, RuntimeError, RuntimeErrorKind};
use crate::expressions::{
    binary_outcome, short_circuits, unary_outcome, Expr, Operation, Outcome, Super,
};
use crate::list::List;
use crate::moonenv::{assigned, defined, lookup, Scope};
use crate::statements::{ClassStatement, Function, Statement};
use crate::token::Token;
use crate::value::{find_method, truthy, Callable, ClassView, InstanceView, Value};

verus! {

/// What the host is asked for while the machine waits.
#[derive(Clone, Copy, Debug, PartialEq, Eq, Structural)]
pub enum Request {
    /// The result of an arithmetic operation on two numbers.
    Arithmetic(Operation, u64, u64),
    /// The seconds since the epoch, as a number.
    Clock,
}

/// What the machine does next.
pub enum Control {
    /// Nothing: no program is loaded, or the last one has ended.
    Idle,
    /// Evaluate the expression in the frame.
    Evaluate(Rc<Expr>, usize),
    /// Execute the statement in the frame.
    Run(Rc<Statement>, usize),
    /// Hand the value to the continuation on top of the stack. A statement
    /// that has run to its end hands on nil.
    Value(Value),
    /// Unwind the stack to the nearest call and make the value its result.
    Return(Value),
    /// Wait for the host's answer.
    Waiting(Request),
}

/// A continuation: what remains to be done once a value arrives.
pub enum Frame {
    /// Apply the unary operator to the value.
    Unary(Token),
    /// The value is the left operand; evaluate the right one in the frame.
    BinaryRight(Token, Rc<Expr>, usize),
    /// The value is the right operand; apply the operator to the left one and
    /// it.
    BinaryApply(Token, Value),
    /// The value is the left operand of `or` or `and`.
    Logical(Token, Rc<Expr>, usize),
    /// Assign the value to the name as seen from the frame.
    Assign(Token, usize),
    /// The value is the callee; evaluate the arguments in the frame.
    Callee(Token, Rc<List<Rc<Expr>>>, usize),
    /// The value is an argument of a call of the callee; the arguments before
    /// it lie on the value stack from the given height on, the ones after it
    /// are still to be evaluated.
    Arguments(Value, Token, Rc<List<Rc<Expr>>>, usize, usize),
    /// Read the property of the value.
    Get(Token),
    /// The value is the object of a property assignment; evaluate the
    /// assigned expression in the frame.
    SetObject(Token, Rc<Expr>, usize),
    /// Store the value in the field of the instance.
    SetValue(Token, usize),
    /// Print the value.
    Print,
    /// Bind the name to the value in the frame.
    Define(Token, usize),
    /// Return the value.
    Return,
    /// The value is the condition of an `if`.
    Branch(Rc<Statement>, Option<Rc<Statement>>, usize),
    /// The value is the condition of a `while`.
    Loop(Rc<Expr>, Rc<Statement>, usize),
    /// The body of a `while` has run; test the condition again.
    Again(Rc<Expr>, Rc<Statement>, usize),
    /// A statement has run; go on with the rest of its sequence.
    Sequence(Rc<List<Rc<Statement>>>, usize),
    /// The body of the function has run.
    Call(usize),
}

/// What a step leaves for the host to do.
#[derive(Debug)]
pub enum Action {
    /// Nothing; take the next step.
    Continue,
    /// Write the display form of the value and a line break.
    Print(Value),
    /// Compute the operation on the two numbers and answer with the result.
    Arithmetic(Operation, u64, u64),
    /// Answer with the seconds since the epoch.
    Clock,
    /// The program has ended, with its result or with a runtime error.
    Done(Result<Value, RuntimeError>),
}

/// What the host tells the machine with a step.
#[derive(Clone, Copy, Debug, PartialEq, Eq, Structural)]
pub enum Event {
    /// Nothing.
    Resume,
    /// The number that the last action asked for.
    Number(u64),
}

/// The state of the machine.
pub struct State {
    pub environments: Seq<Scope>,
    pub functions: Seq<Callable>,
    pub classes: Seq<ClassView>,
    pub instances: Seq<InstanceView>,
    pub stack: Seq<Frame>,
    /// The arguments of the calls that are being prepared, the innermost
    /// call's last.
    pub values: Seq<Value>,
    pub control: Control,
}

/// A state and the action that led to it.
pub struct Step {
    pub state: State,
    pub action: Action,
}

/// How a value is displayed: as a text, or as a number that the host writes
/// in its shortest decimal form.
pub enum Shown {
    Text(Seq<char>),
    Number(u64),
}

/// The number of parameters of a function, as far as `usize` can count.
pub open spec fn arity_of(function: Function) -> usize {
    if function.parameters@.len() > usize::MAX {
        usize::MAX
    } else {
        function.parameters@.len() as usize
    }
}

/// The bindings of the first `count` parameters to the arguments at the same
/// positions.
pub open spec fn bound(parameters: Seq<Token>, arguments: Seq<Value>, count: nat) -> Map<
    Seq<char>,
    Value,
>
    decreases count,
{
    if count == 0 || count > parameters.len() || count > arguments.len() {
        Map::empty()
    } else {
        bound(parameters, arguments, (count - 1) as nat).insert(
            parameters[count - 1].lexeme@,
            arguments[count - 1],
        )
    }
}

/// The number of parameters that get an argument.
pub open spec fn paired(parameters: Seq<Token>, arguments: Seq<Value>) -> nat {
    if parameters.len() <= arguments.len() {
        parameters.len()
    } else {
        arguments.len()
    }
}

/// The functions that the methods of a class body become, each made in the
/// frame `env`.
pub open spec fn method_functions(methods: Seq<Rc<Function>>, env: usize) -> Seq<Callable> {
    Seq::new(
        methods.len(),
        |i: int|
            Callable {
                arity: arity_of(*methods[i]),
                declaration: Some(methods[i]),
                environment: env,
                is_initializer: methods[i].name.lexeme@ == "init"@,
            },
    )
}

/// The method table of the first `count` methods of a class body, the first
/// method's function being the one with the handle `base`. Of two methods
/// with one name the later counts.
pub open spec fn method_table(methods: Seq<Rc<Function>>, base: int, count: nat) -> Map<
    Seq<char>,
    usize,
>
    decreases count,
{
    if count == 0 || count > methods.len() {
        Map::empty()
    } else {
        method_table(methods, base, (count - 1) as nat).insert(
            methods[count - 1].name.lexeme@,
            (base + count - 1) as usize,
        )
    }
}

/// The arity of the last method named `init` among the first `count`.
pub open spec fn own_arity(methods: Seq<Rc<Function>>, count: nat) -> Option<usize>
    decreases count,
{
    if count == 0 || count > methods.len() {
        None
    } else if methods[count - 1].name.lexeme@ == "init"@ {
        Some(arity_of(*methods[count - 1]))
    } else {
        own_arity(methods, (count - 1) as nat)
    }
}

/// The error of a `super` access to a method that no class above has: at the
/// keyword `super`, about the method's name.
pub open spec fn unknown_super_method(access: Super) -> RuntimeError {
    RuntimeError {
        kind: RuntimeErrorKind::UnknownSuperMethod,
        token: access.keyword,
        name: access.method.lexeme,
    }
}

/// The state of a new machine: the global frame binds `clock` to the built-in
/// function, and nothing runs.
pub open spec fn initial() -> State {
    State {
        environments: seq![
            Scope { enclosing: None, values: Map::empty().insert("clock"@, Value::Function(0)) },
        ],
        functions: seq![
            Callable { arity: 0, declaration: None, environment: 0, is_initializer: false },
        ],
        classes: Seq::empty(),
        instances: Seq::empty(),
        stack: Seq::empty(),
        values: Seq::empty(),
        control: Control::Idle,
    }
}

impl State {
    /// The step to this state with `control` as its control.
    pub open spec fn go(self, control: Control) -> Step {
        Step { state: State { control, ..self }, action: Action::Continue }
    }

    /// The step that ends the program with a runtime error. The heap stays as
    /// it is.
    pub open spec fn fail_with(self, error: RuntimeError) -> Step {
        Step {
            state: State {
                control: Control::Idle,
                stack: Seq::empty(),
                values: Seq::empty(),
                ..self
            },
            action: Action::Done(Err(error)),
        }
    }

    /// The step that ends the program with the error of the given kind at a
    /// token.
    pub open spec fn fail(self, kind: RuntimeErrorKind, token: Token) -> Step {
        self.fail_with(error_at(kind, token))
    }

    /// The step that ends the program with a result.
    pub open spec fn finish(self, value: Value) -> Step {
        Step {
            state: State {
                control: Control::Idle,
                stack: Seq::empty(),
                values: Seq::empty(),
                ..self
            },
            action: Action::Done(Ok(value)),
        }
    }

    /// The step that asks the host for a number.
    pub open spec fn ask(self, request: Request) -> Step {
        Step {
            state: State { control: Control::Waiting(request), ..self },
            action: match request {
                Request::Arithmetic(operation, a, b) => Action::Arithmetic(operation, a, b),
                Request::Clock => Action::Clock,
            },
        }
    }

    pub open spec fn push(self, frame: Frame) -> State {
        State { stack: self.stack.push(frame), ..self }
    }

    /// This state with `name` bound to `value` in the frame `env`.
    pub open spec fn define(self, env: usize, name: Seq<char>, value: Value) -> State {
        State { environments: defined(self.environments, env as int, name, value), ..self }
    }

    /// This state with one more frame, inside the frame `enclosing` and with
    /// the bindings `values`. The new frame is the last.
    pub open spec fn scope(self, enclosing: usize, values: Map<Seq<char>, Value>) -> State {
        State {
            environments: self.environments.push(Scope { enclosing: Some(enclosing), values }),
            ..self
        }
    }

    /// The handle of the next frame to be made.
    pub open spec fn next_scope(self) -> usize {
        self.environments.len() as usize
    }

    /// The value of `name` as seen from the frame `env`.
    pub open spec fn lookup(self, env: usize, name: Seq<char>) -> Option<Value> {
        lookup(self.environments, env as int, name)
    }

    /// This state with the function `function` bound to `this`: a new frame
    /// inside the function's own that binds `this`, and a new function, like
    /// the given one, that is made in that frame. The new function is the
    /// last.
    pub open spec fn bind(self, function: usize, this: Value) -> State {
        let method = self.functions[function as int];
        let bound = self.scope(method.environment, Map::empty().insert("this"@, this));
        State {
            functions: bound.functions.push(
                Callable {
                    arity: method.arity,
                    declaration: method.declaration,
                    environment: self.next_scope(),
                    is_initializer: method.is_initializer,
                },
            ),
            ..bound
        }
    }

    /// The handle of the next function to be made.
    pub open spec fn next_function(self) -> usize {
        self.functions.len() as usize
    }

    /// The arguments of the call that is being prepared from the height
    /// `base` of the value stack.
    pub open spec fn arguments(self, base: usize) -> Seq<Value> {
        if base <= self.values.len() {
            self.values.subrange(base as int, self.values.len() as int)
        } else {
            Seq::empty()
        }
    }

    /// This state without those arguments.
    pub open spec fn without_arguments(self, base: usize) -> State {
        if base <= self.values.len() {
            State { values: self.values.take(base as int), ..self }
        } else {
            self
        }
    }

    /// Calls the function with the arguments: checks their number, makes a
    /// frame inside the function's own that binds the parameters, and goes on
    /// with the body. The built-in function asks for the clock instead.
    pub open spec fn invoke(self, function: usize, arguments: Seq<Value>, paren: Token) -> Step {
        let callee = self.functions[function as int];
        if callee.arity != arguments.len() {
            self.fail(RuntimeErrorKind::WrongArity(callee.arity, arguments.len() as usize), paren)
        } else {
            match callee.declaration {
                None => self.ask(Request::Clock),
                Some(declaration) => {
                    let parameters = declaration.parameters@;
                    self.scope(
                        callee.environment,
                        bound(parameters, arguments, paired(parameters, arguments)),
                    ).push(Frame::Call(function)).push(
                        Frame::Sequence(declaration.body, self.next_scope()),
                    ).go(Control::Value(Value::Nil))
                },
            }
        }
    }

    /// Calls the class with the arguments: checks their number, makes an
    /// instance without fields and, where the class or a class above it has
    /// an `init`, calls that bound to the instance. The instance is the
    /// result either way.
    pub open spec fn instantiate(self, class: usize, arguments: Seq<Value>, paren: Token) -> Step {
        let called = self.classes[class as int];
        if called.arity != arguments.len() {
            self.fail(RuntimeErrorKind::WrongArity(called.arity, arguments.len() as usize), paren)
        } else {
            let instance = Value::Instance(self.instances.len() as usize);
            let made = State {
                instances: self.instances.push(InstanceView { class, fields: Map::empty() }),
                ..self
            };
            match find_method(self.classes, class as int, "init"@) {
                Some(init) => if init < self.functions.len() {
                    made.bind(init, instance).invoke(made.next_function(), arguments, paren)
                } else {
                    made.go(Control::Value(instance))
                },
                None => made.go(Control::Value(instance)),
            }
        }
    }

    /// Calls `callee` with the arguments on the value stack from the height
    /// `base` on. Only functions and classes can be called.
    pub open spec fn call(self, callee: Value, paren: Token, base: usize) -> Step {
        let arguments = self.arguments(base);
        let rest = self.without_arguments(base);
        match callee {
            Value::Function(function) => if function < self.functions.len() {
                rest.invoke(function, arguments, paren)
            } else {
                rest.fail(RuntimeErrorKind::NotCallable, paren)
            },
            Value::Class(class) => if class < self.classes.len() {
                rest.instantiate(class, arguments, paren)
            } else {
                rest.fail(RuntimeErrorKind::NotCallable, paren)
            },
            _ => rest.fail(RuntimeErrorKind::NotCallable, paren),
        }
    }

    /// The end of a call of the function with `value` as what its body
    /// returned: an initialiser gives `this` instead.
    pub open spec fn leave(self, function: usize, value: Value) -> Step {
        if function < self.functions.len() && self.functions[function as int].is_initializer {
            let callee = self.functions[function as int];
            match (self.lookup(callee.environment, "this"@), callee.declaration) {
                (Some(this), _) => self.go(Control::Value(this)),
                (None, Some(declaration)) => self.fail(
                    RuntimeErrorKind::InitializerWithoutThis,
                    declaration.name,
                ),
                (None, None) => self.go(Control::Value(value)),
            }
        } else {
            self.go(Control::Value(value))
        }
    }

    /// Reads the property `name` of `object`: the field of that name or, if
    /// there is none, the method of that name bound to the instance.
    pub open spec fn property(self, object: Value, name: Token) -> Step {
        match object {
            Value::Instance(id) => if id < self.instances.len() {
                let instance = self.instances[id as int];
                if instance.fields.contains_key(name.lexeme@) {
                    self.go(Control::Value(instance.fields[name.lexeme@]))
                } else {
                    match find_method(self.classes, instance.class as int, name.lexeme@) {
                        Some(method) => if method < self.functions.len() {
                            self.bind(method, object).go(
                                Control::Value(Value::Function(self.next_function())),
                            )
                        } else {
                            self.fail(RuntimeErrorKind::UndefinedProperty, name)
                        },
                        None => self.fail(RuntimeErrorKind::UndefinedProperty, name),
                    }
                }
            } else {
                self.fail(RuntimeErrorKind::NoProperties, name)
            },
            _ => self.fail(RuntimeErrorKind::NoProperties, name),
        }
    }

    /// Stores `value` in the field `name` of the instance.
    pub open spec fn store(self, instance: usize, name: Seq<char>, value: Value) -> State {
        if instance < self.instances.len() {
            let before = self.instances[instance as int];
            State {
                instances: self.instances.update(
                    instance as int,
                    InstanceView { class: before.class, fields: before.fields.insert(name, value) },
                ),
                ..self
            }
        } else {
            self
        }
    }

    /// Evaluates `super.method`: the method of the class that `super` names,
    /// bound to the instance that `this` names. Where neither that class nor
    /// a class above it has the method, the error is reported at `super` and
    /// names the method.
    pub open spec fn super_method(self, access: Super, env: usize) -> Step {
        match self.lookup(env, "super"@) {
            Some(Value::Class(class)) => match find_method(
                self.classes,
                class as int,
                access.method.lexeme@,
            ) {
                Some(method) => if method < self.functions.len() {
                    match self.lookup(env, "this"@) {
                        Some(Value::Instance(id)) => self.bind(method, Value::Instance(id)).go(
                            Control::Value(Value::Function(self.next_function())),
                        ),
                        _ => self.fail(RuntimeErrorKind::MissingThis, access.keyword),
                    }
                } else {
                    self.fail_with(unknown_super_method(access))
                },
                None => self.fail_with(unknown_super_method(access)),
            },
            Some(_) => self.fail(RuntimeErrorKind::MissingSuper, access.keyword),
            None => self.fail(RuntimeErrorKind::UndefinedVariable, access.keyword),
        }
    }

    /// The superclass of a class declaration: none, the class that its
    /// superclass name is bound to, or the error. A class cannot name itself.
    pub open spec fn superclass(self, class: ClassStatement, env: usize) -> Result<
        Option<usize>,
        RuntimeError,
    > {
        match class.super_class {
            None => Ok(None),
            Some(variable) => if variable.name.lexeme@ == class.name.lexeme@ {
                Err(error_at(RuntimeErrorKind::InheritFromSelf, variable.name))
            } else {
                match self.lookup(env, variable.name.lexeme@) {
                    Some(Value::Class(above)) => Ok(Some(above)),
                    Some(_) => Err(error_at(RuntimeErrorKind::SuperclassNotClass, class.name)),
                    None => Err(error_at(RuntimeErrorKind::UndefinedVariable, variable.name)),
                }
            },
        }
    }

    /// The arity of a class above: that of the class, 0 where there is none.
    pub open spec fn inherited_arity(self, above: Option<usize>) -> usize {
        match above {
            Some(class) => if class < self.classes.len() {
                self.classes[class as int].arity
            } else {
                0
            },
            None => 0,
        }
    }

    /// Declares a class: resolves the superclass; makes a function of each
    /// method, in a frame that binds `super` where there is a superclass, in
    /// the current frame otherwise; makes the class, and binds its name in
    /// the current frame.
    pub open spec fn declare_class(self, class: ClassStatement, env: usize) -> Step {
        match self.superclass(class, env) {
            Err(error) => self.fail_with(error),
            Ok(above) => {
                let scoped = match above {
                    Some(parent) => self.scope(
                        env,
                        Map::empty().insert("super"@, Value::Class(parent)),
                    ),
                    None => self,
                };
                let home = match above {
                    Some(parent) => self.next_scope(),
                    None => env,
                };
                let methods = class.methods@;
                let arity = match own_arity(methods, methods.len()) {
                    Some(arity) => arity,
                    None => self.inherited_arity(above),
                };
                let made = State {
                    functions: scoped.functions + method_functions(methods, home),
                    classes: scoped.classes.push(
                        ClassView {
                            name: class.name.lexeme@,
                            arity,
                            methods: method_table(methods, self.functions.len() as int, methods.len()),
                            super_class: above,
                        },
                    ),
                    ..scoped
                };
                made.define(env, class.name.lexeme@, Value::Class(self.classes.len() as usize)).go(
                    Control::Value(Value::Nil),
                )
            },
        }
    }

    /// Declares a function: makes it in the current frame and binds its name
    /// there.
    pub open spec fn declare_function(self, function: Rc<Function>, env: usize) -> Step {
        State {
            functions: self.functions.push(
                Callable {
                    arity: arity_of(*function),
                    declaration: Some(function),
                    environment: env,
                    is_initializer: false,
                },
            ),
            ..self
        }.define(env, function.name.lexeme@, Value::Function(self.next_function())).go(
            Control::Value(Value::Nil),
        )
    }

    /// One step on an expression to evaluate in the frame `env`.
    pub open spec fn evaluate(self, expression: Rc<Expr>, env: usize) -> Step {
        match *expression {
            Expr::Literal(literal) => self.go(Control::Value(literal.value)),
            Expr::Grouping(grouping) => self.go(Control::Evaluate(grouping.expression, env)),
            Expr::NoOp(_) => self.go(Control::Value(Value::Nil)),
            Expr::Unary(unary) => self.push(Frame::Unary(unary.operator)).go(
                Control::Evaluate(unary.right, env),
            ),
            Expr::Binary(binary) => self.push(Frame::BinaryRight(binary.op, binary.right, env)).go(
                Control::Evaluate(binary.left, env),
            ),
            Expr::Logical(logical) => self.push(Frame::Logical(logical.op, logical.right, env)).go(
                Control::Evaluate(logical.left, env),
            ),
            Expr::Variable(variable) => match self.lookup(env, variable.name.lexeme@) {
                Some(value) => self.go(Control::Value(value)),
                None => self.fail(RuntimeErrorKind::UndefinedVariable, variable.name),
            },
            Expr::Assign(assign) => self.push(Frame::Assign(assign.name, env)).go(
                Control::Evaluate(assign.value, env),
            ),
            Expr::Call(call) => self.push(Frame::Callee(call.parent, call.arguments, env)).go(
                Control::Evaluate(call.calling, env),
            ),
            Expr::Get(get) => self.push(Frame::Get(get.name)).go(Control::Evaluate(get.object, env)),
            Expr::SetField(set) => self.push(Frame::SetObject(set.name, set.value, env)).go(
                Control::Evaluate(set.object, env),
            ),
            Expr::This(this) => match self.lookup(env, this.keyword.lexeme@) {
                Some(value) => self.go(Control::Value(value)),
                None => self.fail(RuntimeErrorKind::UndefinedVariable, this.keyword),
            },
            Expr::Super(access) => self.super_method(access, env),
        }
    }

    /// One step on a statement to execute in the frame `env`.
    pub open spec fn run(self, statement: Rc<Statement>, env: usize) -> Step {
        match *statement {
            Statement::Expression(s) => self.go(Control::Evaluate(s.expression, env)),
            Statement::Print(s) => self.push(Frame::Print).go(Control::Evaluate(s.expressions, env)),
            Statement::Var(s) => self.push(Frame::Define(s.name, env)).go(
                Control::Evaluate(s.init, env),
            ),
            Statement::Block(s) => self.scope(env, Map::empty()).push(
                Frame::Sequence(s.statements, self.next_scope()),
            ).go(Control::Value(Value::Nil)),
            Statement::If(s) => self.push(Frame::Branch(s.then_branch, s.else_branch, env)).go(
                Control::Evaluate(s.condition, env),
            ),
            Statement::While(s) => self.push(Frame::Loop(s.condition, s.body, env)).go(
                Control::Evaluate(s.condition, env),
            ),
            Statement::Function(function) => self.declare_function(function, env),
            Statement::ReturnStatement(s) => self.push(Frame::Return).go(
                Control::Evaluate(s.value, env),
            ),
            Statement::ClassStatement(class) => self.declare_class(class, env),
        }
    }

    /// One step on a value for the frame `frame`, which has been taken off
    /// the stack. Where the frame joins two strings, `joined` is the result.
    pub open spec fn resume(self, frame: Frame, value: Value, joined: Value) -> Step {
        match frame {
            Frame::Unary(operator) => match unary_outcome(operator.token_type, value) {
                Ok(result) => self.go(Control::Value(result)),
                Err(kind) => self.fail(kind, operator),
            },
            Frame::BinaryRight(op, right, env) => self.push(Frame::BinaryApply(op, value)).go(
                Control::Evaluate(right, env),
            ),
            Frame::BinaryApply(op, left) => match binary_outcome(op.token_type, left, value) {
                Outcome::Value(result) => self.go(Control::Value(result)),
                Outcome::Arithmetic(operation, a, b) => self.ask(
                    Request::Arithmetic(operation, a, b),
                ),
                Outcome::Join(_, _) => self.go(Control::Value(joined)),
                Outcome::Fail(kind) => self.fail(kind, op),
            },
            Frame::Logical(op, right, env) => if short_circuits(op.token_type, value) {
                self.go(Control::Value(value))
            } else {
                self.go(Control::Evaluate(right, env))
            },
            Frame::Assign(name, env) => match assigned(
                self.environments,
                env as int,
                name.lexeme@,
                value,
            ) {
                Some(changed) => State { environments: changed, ..self }.go(Control::Value(value)),
                None => self.fail(RuntimeErrorKind::UndefinedVariable, name),
            },
            Frame::Callee(paren, arguments, env) => match *arguments {
                List::Nil => self.call(value, paren, self.values.len() as usize),
                List::Cons(first, rest) => self.push(
                    Frame::Arguments(value, paren, rest, env, self.values.len() as usize),
                ).go(Control::Evaluate(first, env)),
            },
            Frame::Arguments(callee, paren, arguments, env, base) => {
                let pushed = State { values: self.values.push(value), ..self };
                match *arguments {
                    List::Nil => pushed.call(callee, paren, base),
                    List::Cons(first, rest) => pushed.push(
                        Frame::Arguments(callee, paren, rest, env, base),
                    ).go(Control::Evaluate(first, env)),
                }
            },
            Frame::Get(name) => self.property(value, name),
            Frame::SetObject(name, assigned_value, env) => match value {
                Value::Instance(id) => self.push(Frame::SetValue(name, id)).go(
                    Control::Evaluate(assigned_value, env),
                ),
                _ => self.fail(RuntimeErrorKind::NoFields, name),
            },
            Frame::SetValue(name, instance) => self.store(instance, name.lexeme@, value).go(
                Control::Value(value),
            ),
            Frame::Print => Step {
                state: State { control: Control::Value(Value::Nil), ..self },
                action: Action::Print(value),
            },
            Frame::Define(name, env) => self.define(env, name.lexeme@, value).go(
                Control::Value(Value::Nil),
            ),
            Frame::Return => self.go(Control::Return(value)),
            Frame::Branch(then_branch, else_branch, env) => if truthy(value) {
                self.go(Control::Run(then_branch, env))
            } else {
                match else_branch {
                    Some(branch) => self.go(Control::Run(branch, env)),
                    None => self.go(Control::Value(Value::Nil)),
                }
            },
            Frame::Loop(condition, body, env) => if truthy(value) {
                self.push(Frame::Again(condition, body, env)).go(Control::Run(body, env))
            } else {
                self.go(Control::Value(Value::Nil))
            },
            Frame::Again(condition, body, env) => self.push(Frame::Loop(condition, body, env)).go(
                Control::Evaluate(condition, env),
            ),
            Frame::Sequence(statements, env) => match *statements {
                List::Nil => self.go(Control::Value(Value::Nil)),
                List::Cons(first, rest) => self.push(Frame::Sequence(rest, env)).go(
                    Control::Run(first, env),
                ),
            },
            Frame::Call(function) => self.leave(function, Value::Nil),
        }
    }

    /// One step on a return that has reached the frame `frame`, which has
    /// been taken off the stack: a call ends, anything else is given up.
    pub open spec fn unwind(self, frame: Frame, value: Value) -> Step {
        match frame {
            Frame::Call(function) => self.leave(function, value),
            _ => self.go(Control::Return(value)),
        }
    }

    /// This state without the frame on top of its stack.
    pub open spec fn popped(self) -> State {
        State { stack: self.stack.drop_last(), ..self }
    }

    /// The text that this step joins two strings to, if it does.
    pub open spec fn joins(self) -> Option<Seq<char>> {
        match self.control {
            Control::Value(right) => if self.stack.len() > 0 {
                match self.stack.last() {
                    Frame::BinaryApply(op, left) => match binary_outcome(op.token_type, left, right) {
                        Outcome::Join(a, b) => Some(a@ + b@),
                        _ => None,
                    },
                    _ => None,
                }
            } else {
                None
            },
            _ => None,
        }
    }

    /// One step of the machine. A step that joins two strings makes `joined`
    /// its result.
    pub open spec fn next(self, event: Event, joined: Value) -> Step {
        match self.control {
            Control::Idle => Step { state: self, action: Action::Done(Ok(Value::Nil)) },
            Control::Evaluate(expression, env) => self.evaluate(expression, env),
            Control::Run(statement, env) => self.run(statement, env),
            Control::Value(value) => if self.stack.len() == 0 {
                self.finish(Value::Nil)
            } else {
                self.popped().resume(self.stack.last(), value, joined)
            },
            Control::Return(value) => if self.stack.len() == 0 {
                self.finish(value)
            } else {
                self.popped().unwind(self.stack.last(), value)
            },
            Control::Waiting(request) => match event {
                Event::Number(bits) => self.go(Control::Value(Value::Number(bits))),
                Event::Resume => self.ask(request),
            },
        }
    }

    /// The name under which a class is displayed; empty for a handle that
    /// names no class.
    pub open spec fn class_name(self, class: usize) -> Seq<char> {
        if class < self.classes.len() {
            self.classes[class as int].name
        } else {
            Seq::empty()
        }
    }

    /// The display form of a value: a string in double quotes, `true`,
    /// `false`, `nil`, `<fn NAME>`, `<native fn>`, a class by its name, an
    /// instance by its class's name and the word `instance`.
    pub open spec fn shown(self, value: Value) -> Shown {
        match value {
            Value::String(text) => Shown::Text("\""@ + text@ + "\""@),
            Value::Number(bits) => Shown::Number(bits),
            Value::Bool(b) => Shown::Text(
                if b {
                    "true"@
                } else {
                    "false"@
                },
            ),
            Value::Nil => Shown::Text("nil"@),
            Value::Function(function) => if function < self.functions.len() {
                match self.functions[function as int].declaration {
                    Some(declaration) => Shown::Text("<fn "@ + declaration.name.lexeme@ + ">"@),
                    None => Shown::Text("<native fn>"@),
                }
            } else {
                Shown::Text("<native fn>"@)
            },
            Value::Class(class) => Shown::Text(self.class_name(class)),
            Value::Instance(id) => if id < self.instances.len() {
                Shown::Text(self.class_name(self.instances[id as int].class) + " instance"@)
            } else {
                Shown::Text(" instance"@)
            },
        }
    }

    /// This state with a program loaded: the statements are run in order in
    /// the global frame, whatever was running is given up.
    pub open spec fn load(self, statements: Rc<List<Rc<Statement>>>) -> State {
        State {
            stack: seq![Frame::Sequence(statements, 0)],
            values: Seq::empty(),
            control: Control::Value(Value::Nil),
            ..self
        }
    }
}

} // verus!
