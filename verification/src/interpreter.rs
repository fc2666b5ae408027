//! The evaluator: the abstract machine, run one step at a time.

use vstd::prelude::*;
use std::rc::Rc;
use crate::error::{RuntimeError, RuntimeErrorKind};
use crate::expressions::{binary_outcome, Binary, Expr, Logical, Outcome, Super, Unary};
use crate::list::{list_of, share, List};
use crate::scanner::is_word;
use crate::machine::{
    bound, initial, unknown_super_method, method_functions, method_table, own_arity, paired, Action, Control, Event, Frame,
    Request, Shown, State, Step,
};
use crate::moonenv::{scopes, Environment, Scope};
use crate::statements::{ClassStatement, Function, Statement};
use crate::table::Table;
use crate::token::Token;
use crate::value::{
    class_views, instance_views, Callable, Class, ClassView, InstanceValue, InstanceView, Value,
};

verus! {

/// The machine: a heap, a stack of continuations, and what to do next.
pub struct Interpreter {
    /// The frames of bindings; the first is the global frame.
    pub environments: Vec<Environment>,
    pub functions: Vec<Callable>,
    pub classes: Vec<Class>,
    pub instances: Vec<InstanceValue>,
    pub stack: Vec<Frame>,
    pub values: Vec<Value>,
    pub control: Control,
}

impl View for Interpreter {
    type V = State;

    open spec fn view(&self) -> State {
        State {
            environments: scopes(self.environments@),
            functions: self.functions@,
            classes: class_views(self.classes@),
            instances: instance_views(self.instances@),
            stack: self.stack@,
            values: self.values@,
            control: self.control,
        }
    }
}

/// The display form of a value, as the host is to write it.
#[derive(Debug)]
pub enum Printed {
    Text(String),
    /// A number, to be written in its shortest decimal form.
    Number(u64),
}

impl View for Printed {
    type V = Shown;

    open spec fn view(&self) -> Shown {
        match self {
            Printed::Text(text) => Shown::Text(text@),
            Printed::Number(bits) => Shown::Number(*bits),
        }
    }
}

/// The value that a state hands on, nil where it hands on none.
pub open spec fn handed(state: State) -> Value {
    match state.control {
        Control::Value(value) => value,
        _ => Value::Nil,
    }
}

impl Interpreter {
    /// A machine whose global frame binds `clock`.
    pub fn new() -> (interpreter: Self)
        ensures
            interpreter@ == initial(),
    {
        let mut globals = Environment::new();
        globals.define("clock".to_owned(), Value::Function(0));
        let mut environments: Vec<Environment> = Vec::new();
        environments.push(globals);
        let mut functions: Vec<Callable> = Vec::new();
        functions.push(Callable { arity: 0, declaration: None, environment: 0, is_initializer: false });
        let interpreter = Interpreter {
            environments,
            functions,
            classes: Vec::new(),
            instances: Vec::new(),
            stack: Vec::new(),
            values: Vec::new(),
            control: Control::Idle,
        };
        assert(interpreter@.environments =~= initial().environments);
        assert(interpreter@.functions =~= initial().functions);
        assert(interpreter@.classes =~= initial().classes);
        assert(interpreter@.instances =~= initial().instances);
        interpreter
    }

    /// A machine with `environment` as its global frame and nothing else.
    pub fn new_with_env(environment: Environment) -> (interpreter: Self)
        ensures
            interpreter@ == (State {
                environments: seq![environment@],
                functions: Seq::empty(),
                classes: Seq::empty(),
                instances: Seq::empty(),
                stack: Seq::empty(),
                values: Seq::empty(),
                control: Control::Idle,
            }),
    {
        let mut environments: Vec<Environment> = Vec::new();
        environments.push(environment);
        let interpreter = Interpreter {
            environments,
            functions: Vec::new(),
            classes: Vec::new(),
            instances: Vec::new(),
            stack: Vec::new(),
            values: Vec::new(),
            control: Control::Idle,
        };
        assert(interpreter@.environments =~= seq![environment@]);
        assert(interpreter@.classes =~= Seq::empty());
        assert(interpreter@.instances =~= Seq::empty());
        interpreter
    }

    /// The name under which a class is displayed.
    fn class_name(&self, class: usize) -> (name: String)
        ensures
            name@ == self@.class_name(class),
    {
        if class < self.classes.len() {
            self.classes[class].name.clone()
        } else {
            String::new()
        }
    }

    /// The display form of a value.
    pub fn display(&self, value: &Value) -> (printed: Printed)
        ensures
            printed@ == self@.shown(*value),
    {
        match value {
            Value::String(text) => Printed::Text(
                "\"".to_owned().concat(text.as_str()).concat("\""),
            ),
            Value::Number(bits) => Printed::Number(*bits),
            Value::Bool(b) => Printed::Text(
                if *b {
                    "true".to_owned()
                } else {
                    "false".to_owned()
                },
            ),
            Value::Nil => Printed::Text("nil".to_owned()),
            Value::Function(function) => {
                if *function < self.functions.len() {
                    match &self.functions[*function].declaration {
                        Some(declaration) => Printed::Text(
                            "<fn ".to_owned().concat(declaration.name.lexeme.as_str()).concat(">"),
                        ),
                        None => Printed::Text("<native fn>".to_owned()),
                    }
                } else {
                    Printed::Text("<native fn>".to_owned())
                }
            },
            Value::Class(class) => Printed::Text(self.class_name(*class)),
            Value::Instance(id) => {
                if *id < self.instances.len() {
                    let class = self.instances[*id].class;
                    Printed::Text(self.class_name(class).concat(" instance"))
                } else {
                    Printed::Text(" instance".to_owned())
                }
            },
        }
    }

    fn go(&mut self, control: Control) -> (action: Action)
        ensures
            (Step { state: final(self)@, action }) == old(self)@.go(control),
    {
        self.control = control;
        Action::Continue
    }

    fn fail_with(&mut self, error: RuntimeError) -> (action: Action)
        ensures
            (Step { state: final(self)@, action }) == old(self)@.fail_with(error),
    {
        self.control = Control::Idle;
        self.stack.clear();
        self.values.clear();
        Action::Done(Err(error))
    }

    fn fail(&mut self, kind: RuntimeErrorKind, token: Token) -> (action: Action)
        ensures
            (Step { state: final(self)@, action }) == old(self)@.fail(kind, token),
    {
        self.fail_with(RuntimeError::at(kind, token))
    }

    fn finish(&mut self, value: Value) -> (action: Action)
        ensures
            (Step { state: final(self)@, action }) == old(self)@.finish(value),
    {
        self.control = Control::Idle;
        self.stack.clear();
        self.values.clear();
        Action::Done(Ok(value))
    }

    fn ask(&mut self, request: Request) -> (action: Action)
        ensures
            (Step { state: final(self)@, action }) == old(self)@.ask(request),
    {
        self.control = Control::Waiting(request);
        match request {
            Request::Arithmetic(operation, a, b) => Action::Arithmetic(operation, a, b),
            Request::Clock => Action::Clock,
        }
    }

    fn push(&mut self, frame: Frame)
        ensures
            final(self)@ == old(self)@.push(frame),
    {
        self.stack.push(frame);
    }

    fn define(&mut self, env: usize, key: String, value: Value)
        ensures
            final(self)@ == old(self)@.define(env, key@, value),
    {
        Environment::define_in(&mut self.environments, env, key, value);
    }

    /// Makes a frame inside `enclosing` with the given bindings.
    fn scope(&mut self, enclosing: usize, values: Table<Value>) -> (made: usize)
        ensures
            final(self)@ == old(self)@.scope(enclosing, values@),
            made == old(self)@.next_scope(),
    {
        let made = self.environments.len();
        self.environments.push(Environment { enclosing: Some(enclosing), values });
        assert(scopes(self.environments@) =~= scopes(old(self).environments@).push(
            Scope { enclosing: Some(enclosing), values: values@ },
        ));
        made
    }

    /// Binds the function to `this`.
    fn bind(&mut self, function: usize, this: Value) -> (made: usize)
        requires
            function < old(self).functions@.len(),
        ensures
            final(self)@ == old(self)@.bind(function, this),
            made == old(self)@.next_function(),
    {
        let mut bindings: Table<Value> = Table::new();
        bindings.insert("this".to_owned(), this);
        let method = &self.functions[function];
        let arity = method.arity;
        let is_initializer = method.is_initializer;
        let enclosing = method.environment;
        let declaration = match &method.declaration {
            Some(declaration) => Some(share(declaration)),
            None => None,
        };
        let environment = self.scope(enclosing, bindings);
        let made = self.functions.len();
        self.functions.push(Callable { arity, declaration, environment, is_initializer });
        made
    }

    /// The bindings of the parameters of a function to the arguments of a
    /// call.
    fn parameters(declaration: &Function, arguments: &Vec<Value>) -> (bindings: Table<Value>)
        ensures
            bindings@ == bound(
                declaration.parameters@,
                arguments@,
                paired(declaration.parameters@, arguments@),
            ),
    {
        let mut bindings: Table<Value> = Table::new();
        let mut rest: &List<Token> = &*declaration.parameters;
        let mut count: usize = 0;
        let ghost names = declaration.parameters@;
        loop
            invariant
                count <= arguments@.len(),
                count <= names.len(),
                names == declaration.parameters@,
                rest@ == names.subrange(count as int, names.len() as int),
                bindings@ == bound(names, arguments@, count as nat),
            decreases rest@.len(),
        {
            match rest {
                List::Nil => {
                    return bindings;
                },
                List::Cons(name, tail) => {
                    if count >= arguments.len() {
                        return bindings;
                    }
                    proof {
                        assert(rest@ == seq![*name] + tail@);
                        assert(rest@[0] == *name);
                        assert(tail@ =~= rest@.subrange(1, rest@.len() as int));
                        assert(tail@ =~= names.subrange(count + 1, names.len() as int));
                    }
                    bindings.insert(name.lexeme.clone(), arguments[count].clone());
                    rest = &**tail;
                    count = count + 1;
                },
            }
        }
    }

    /// Calls the function with the arguments.
    fn invoke(&mut self, function: usize, arguments: Vec<Value>, paren: Token) -> (action: Action)
        requires
            function < old(self).functions@.len(),
        ensures
            (Step { state: final(self)@, action }) == old(self)@.invoke(function, arguments@, paren),
    {
        let callee = &self.functions[function];
        if callee.arity != arguments.len() {
            let expected = callee.arity;
            return self.fail(RuntimeErrorKind::WrongArity(expected, arguments.len()), paren);
        }
        let enclosing = callee.environment;
        match &callee.declaration {
            None => self.ask(Request::Clock),
            Some(declaration) => {
                let declaration = share(declaration);
                let bindings = Self::parameters(&declaration, &arguments);
                let inner = self.scope(enclosing, bindings);
                self.push(Frame::Call(function));
                self.push(Frame::Sequence(share(&declaration.body), inner));
                self.go(Control::Value(Value::Nil))
            },
        }
    }

    /// Calls the class with the arguments.
    fn instantiate(&mut self, class: usize, arguments: Vec<Value>, paren: Token) -> (action: Action)
        requires
            class < old(self).classes@.len(),
        ensures
            (Step { state: final(self)@, action }) == old(self)@.instantiate(class, arguments@, paren),
    {
        if self.classes[class].arity != arguments.len() {
            let expected = self.classes[class].arity;
            return self.fail(RuntimeErrorKind::WrongArity(expected, arguments.len()), paren);
        }
        let id = self.instances.len();
        let init = Class::find_method(&self.classes, class, &"init".to_owned());
        self.instances.push(InstanceValue { class, fields: Table::new() });
        assert(instance_views(self.instances@) =~= instance_views(old(self).instances@).push(
            InstanceView { class, fields: Map::empty() },
        ));
        match init {
            Some(init) => {
                if init < self.functions.len() {
                    let method = self.bind(init, Value::Instance(id));
                    self.invoke(method, arguments, paren)
                } else {
                    self.go(Control::Value(Value::Instance(id)))
                }
            },
            None => self.go(Control::Value(Value::Instance(id))),
        }
    }

    /// Calls `callee` with the arguments on the value stack from `base` on.
    fn call(&mut self, callee: Value, paren: Token, base: usize) -> (action: Action)
        ensures
            (Step { state: final(self)@, action }) == old(self)@.call(callee, paren, base),
    {
        let arguments = if base <= self.values.len() {
            self.values.split_off(base)
        } else {
            Vec::new()
        };
        match callee {
            Value::Function(function) => {
                if function < self.functions.len() {
                    self.invoke(function, arguments, paren)
                } else {
                    self.fail(RuntimeErrorKind::NotCallable, paren)
                }
            },
            Value::Class(class) => {
                if class < self.classes.len() {
                    self.instantiate(class, arguments, paren)
                } else {
                    self.fail(RuntimeErrorKind::NotCallable, paren)
                }
            },
            _ => self.fail(RuntimeErrorKind::NotCallable, paren),
        }
    }

    /// Ends a call of the function.
    fn leave(&mut self, function: usize, value: Value) -> (action: Action)
        ensures
            (Step { state: final(self)@, action }) == old(self)@.leave(function, value),
    {
        if function < self.functions.len() && self.functions[function].is_initializer {
            let callee = &self.functions[function];
            match Environment::get_by_string(&self.environments, callee.environment, &"this".to_owned()) {
                Some(this) => self.go(Control::Value(this)),
                None => match &callee.declaration {
                    Some(declaration) => {
                        let name = declaration.name.clone();
                        self.fail(RuntimeErrorKind::InitializerWithoutThis, name)
                    },
                    None => self.go(Control::Value(value)),
                },
            }
        } else {
            self.go(Control::Value(value))
        }
    }

    /// Reads the property `name` of `object`.
    fn property(&mut self, object: Value, name: Token) -> (action: Action)
        ensures
            (Step { state: final(self)@, action }) == old(self)@.property(object, name),
    {
        match object {
            Value::Instance(id) => {
                if id >= self.instances.len() {
                    return self.fail(RuntimeErrorKind::NoProperties, name);
                }
                match self.instances[id].get_value(&name) {
                    Some(field) => self.go(Control::Value(field)),
                    None => {
                        let class = self.instances[id].class;
                        match Class::find_method(&self.classes, class, &name.lexeme) {
                            Some(method) => {
                                if method < self.functions.len() {
                                    let made = self.bind(method, Value::Instance(id));
                                    self.go(Control::Value(Value::Function(made)))
                                } else {
                                    self.fail(RuntimeErrorKind::UndefinedProperty, name)
                                }
                            },
                            None => self.fail(RuntimeErrorKind::UndefinedProperty, name),
                        }
                    },
                }
            },
            _ => self.fail(RuntimeErrorKind::NoProperties, name),
        }
    }

    /// Stores `value` in the field `name` of the instance.
    fn store(&mut self, instance: usize, name: String, value: Value)
        ensures
            final(self)@ == old(self)@.store(instance, name@, value),
    {
        if instance < self.instances.len() {
            let ghost before = self.instances@;
            let mut changed = InstanceValue { class: self.instances[instance].class, fields: Table::new() };
            std::mem::swap(&mut changed.fields, &mut self.instances[instance].fields);
            changed.set_value(name, value);
            self.instances.set(instance, changed);
            assert(instance_views(self.instances@) =~= instance_views(before).update(
                instance as int,
                InstanceView {
                    class: before[instance as int].class,
                    fields: before[instance as int]@.fields.insert(name@, value),
                },
            ));
        }
    }

    /// The error of a `super` access to a method that no class above has.
    fn unknown_super_method(access: &Super) -> (error: RuntimeError)
        ensures
            error == unknown_super_method(*access),
    {
        RuntimeError {
            kind: RuntimeErrorKind::UnknownSuperMethod,
            token: access.keyword.clone(),
            name: access.method.lexeme.clone(),
        }
    }

    /// Evaluates `super.method`.
    fn super_method(&mut self, access: &Super, env: usize) -> (action: Action)
        ensures
            (Step { state: final(self)@, action }) == old(self)@.super_method(*access, env),
    {
        let keyword = access.keyword.clone();
        match Environment::get_by_string(&self.environments, env, &"super".to_owned()) {
            Some(Value::Class(class)) => {
                match Class::find_method(&self.classes, class, &access.method.lexeme) {
                    Some(method) => {
                        if method >= self.functions.len() {
                            return self.fail_with(Self::unknown_super_method(access));
                        }
                        match Environment::get_by_string(&self.environments, env, &"this".to_owned()) {
                            Some(Value::Instance(id)) => {
                                let made = self.bind(method, Value::Instance(id));
                                self.go(Control::Value(Value::Function(made)))
                            },
                            _ => self.fail(RuntimeErrorKind::MissingThis, keyword),
                        }
                    },
                    None => self.fail_with(Self::unknown_super_method(access)),
                }
            },
            Some(_) => self.fail(RuntimeErrorKind::MissingSuper, keyword),
            None => self.fail(RuntimeErrorKind::UndefinedVariable, keyword),
        }
    }

    /// The superclass of a class declaration.
    fn superclass(&self, class: &ClassStatement, env: usize) -> (above: Result<
        Option<usize>,
        RuntimeError,
    >)
        ensures
            above == self@.superclass(*class, env),
    {
        match &class.super_class {
            None => Ok(None),
            Some(variable) => {
                if variable.name.lexeme == class.name.lexeme {
                    return Err(RuntimeError::at(RuntimeErrorKind::InheritFromSelf, variable.name.clone()));
                }
                match Environment::get_by_string(&self.environments, env, &variable.name.lexeme) {
                    Some(Value::Class(above)) => Ok(Some(above)),
                    Some(_) => Err(
                        RuntimeError::at(RuntimeErrorKind::SuperclassNotClass, class.name.clone()),
                    ),
                    None => Err(
                        RuntimeError::at(RuntimeErrorKind::UndefinedVariable, variable.name.clone()),
                    ),
                }
            },
        }
    }

    /// Declares a function.
    fn declare_function(&mut self, function: Rc<Function>, env: usize) -> (action: Action)
        ensures
            (Step { state: final(self)@, action }) == old(self)@.declare_function(function, env),
    {
        let made = self.functions.len();
        let name = function.name.lexeme.clone();
        let arity = function.parameters.len();
        self.functions.push(
            Callable { arity, declaration: Some(function), environment: env, is_initializer: false },
        );
        self.define(env, name, Value::Function(made));
        self.go(Control::Value(Value::Nil))
    }

    /// Declares a class.
    fn declare_class(&mut self, class: &ClassStatement, env: usize) -> (action: Action)
        ensures
            (Step { state: final(self)@, action }) == old(self)@.declare_class(*class, env),
    {
        let above = match self.superclass(class, env) {
            Ok(above) => above,
            Err(error) => {
                return self.fail_with(error);
            },
        };
        let inherited = match above {
            Some(parent) => if parent < self.classes.len() {
                self.classes[parent].arity
            } else {
                0
            },
            None => 0,
        };
        let home = match above {
            Some(parent) => {
                let mut bindings: Table<Value> = Table::new();
                bindings.insert("super".to_owned(), Value::Class(parent));
                self.scope(env, bindings)
            },
            None => env,
        };
        let ghost scoped = *self;
        let ghost methods = class.methods@;
        let ghost base = self.functions@.len() as int;
        let ghost mut count: nat = 0;
        let mut table: Table<usize> = Table::new();
        let mut own: Option<usize> = None;
        let mut rest: &List<Rc<Function>> = &*class.methods;
        loop
            invariant
                self.environments == scoped.environments,
                self.classes == scoped.classes,
                self.instances == scoped.instances,
                self.stack == scoped.stack,
                self.values == scoped.values,
                self.control == scoped.control,
                methods == class.methods@,
                base == scoped.functions@.len(),
                count <= methods.len(),
                rest@ == methods.subrange(count as int, methods.len() as int),
                self.functions@ == scoped.functions@ + method_functions(methods, home).take(count as int),
                table@ == method_table(methods, base, count),
                own == own_arity(methods, count),
            ensures
                rest@.len() == 0,
            decreases rest@.len(),
        {
            match rest {
                List::Nil => {
                    break ;
                },
                List::Cons(method, tail) => {
                    proof {
                        assert(rest@ == seq![*method] + tail@);
                        assert(rest@[0] == *method);
                        assert(tail@ =~= rest@.subrange(1, rest@.len() as int));
                        assert(tail@ =~= methods.subrange(count as int + 1, methods.len() as int));
                    }
                    let id = self.functions.len();
                    let arity = method.parameters.len();
                    let is_initializer = is_word(method.name.lexeme.as_str(), "init");
                    self.functions.push(
                        Callable {
                            arity,
                            declaration: Some(share(method)),
                            environment: home,
                            is_initializer,
                        },
                    );
                    table.insert(method.name.lexeme.clone(), id);
                    if is_initializer {
                        own = Some(arity);
                    }
                    proof {
                        let all = method_functions(methods, home);
                        assert(all.take(count as int + 1) =~= all.take(count as int).push(all[count as int]));
                        assert(self.functions@ =~= scoped.functions@ + all.take(count as int + 1));
                        count = count + 1;
                    }
                    rest = &**tail;
                },
            }
        }
        proof {
            let all = method_functions(methods, home);
            assert(rest@.len() == 0);
            assert(count == methods.len());
            assert(all.take(count as int) =~= all);
        }
        let arity = match own {
            Some(arity) => arity,
            None => inherited,
        };
        let id = self.classes.len();
        self.classes.push(
            Class { name: class.name.lexeme.clone(), arity, methods: table, super_class: above },
        );
        assert(class_views(self.classes@) =~= class_views(scoped.classes@).push(
            ClassView {
                name: class.name.lexeme@,
                arity,
                methods: method_table(methods, base, methods.len()),
                super_class: above,
            },
        ));
        self.define(env, class.name.lexeme.clone(), Value::Class(id));
        self.go(Control::Value(Value::Nil))
    }

    /// One step on an expression to evaluate.
    fn evaluate(&mut self, expression: Rc<Expr>, env: usize) -> (action: Action)
        ensures
            (Step { state: final(self)@, action }) == old(self)@.evaluate(expression, env),
    {
        match &*expression {
            Expr::Literal(literal) => {
                let value = literal.evaluate();
                self.go(Control::Value(value))
            },
            Expr::Grouping(grouping) => self.go(Control::Evaluate(share(&grouping.expression), env)),
            Expr::NoOp(_) => self.go(Control::Value(Value::Nil)),
            Expr::Unary(unary) => {
                self.push(Frame::Unary(unary.operator.clone()));
                self.go(Control::Evaluate(share(&unary.right), env))
            },
            Expr::Binary(binary) => {
                self.push(Frame::BinaryRight(binary.op.clone(), share(&binary.right), env));
                self.go(Control::Evaluate(share(&binary.left), env))
            },
            Expr::Logical(logical) => {
                self.push(Frame::Logical(logical.op.clone(), share(&logical.right), env));
                self.go(Control::Evaluate(share(&logical.left), env))
            },
            Expr::Variable(variable) => match Environment::get(&self.environments, env, &variable.name) {
                Ok(value) => self.go(Control::Value(value)),
                Err(error) => self.fail_with(error),
            },
            Expr::Assign(assign) => {
                self.push(Frame::Assign(assign.name.clone(), env));
                self.go(Control::Evaluate(share(&assign.value), env))
            },
            Expr::Call(call) => {
                self.push(Frame::Callee(call.parent.clone(), share(&call.arguments), env));
                self.go(Control::Evaluate(share(&call.calling), env))
            },
            Expr::Get(get) => {
                self.push(Frame::Get(get.name.clone()));
                self.go(Control::Evaluate(share(&get.object), env))
            },
            Expr::SetField(set) => {
                self.push(Frame::SetObject(set.name.clone(), share(&set.value), env));
                self.go(Control::Evaluate(share(&set.object), env))
            },
            Expr::This(this) => match Environment::get(&self.environments, env, &this.keyword) {
                Ok(value) => self.go(Control::Value(value)),
                Err(error) => self.fail_with(error),
            },
            Expr::Super(access) => self.super_method(access, env),
        }
    }

    /// One step on a statement to execute.
    fn run(&mut self, statement: Rc<Statement>, env: usize) -> (action: Action)
        ensures
            (Step { state: final(self)@, action }) == old(self)@.run(statement, env),
    {
        match &*statement {
            Statement::Expression(s) => self.go(Control::Evaluate(share(&s.expression), env)),
            Statement::Print(s) => {
                self.push(Frame::Print);
                self.go(Control::Evaluate(share(&s.expressions), env))
            },
            Statement::Var(s) => {
                self.push(Frame::Define(s.name.clone(), env));
                self.go(Control::Evaluate(share(&s.init), env))
            },
            Statement::Block(s) => {
                let inner = self.scope(env, Table::new());
                self.push(Frame::Sequence(share(&s.statements), inner));
                self.go(Control::Value(Value::Nil))
            },
            Statement::If(s) => {
                let other = match &s.else_branch {
                    Some(branch) => Some(share(branch)),
                    None => None,
                };
                self.push(Frame::Branch(share(&s.then_branch), other, env));
                self.go(Control::Evaluate(share(&s.condition), env))
            },
            Statement::While(s) => {
                self.push(Frame::Loop(share(&s.condition), share(&s.body), env));
                self.go(Control::Evaluate(share(&s.condition), env))
            },
            Statement::Function(function) => self.declare_function(share(function), env),
            Statement::ReturnStatement(s) => {
                self.push(Frame::Return);
                self.go(Control::Evaluate(share(&s.value), env))
            },
            Statement::ClassStatement(class) => self.declare_class(class, env),
        }
    }

    /// One step on a value for a frame that has been taken off the stack.
    fn resume(&mut self, frame: Frame, value: Value) -> (action: Action)
        ensures
            (Step { state: final(self)@, action }) == old(self)@.resume(frame, value, handed(final(self)@)),
            match frame {
                Frame::BinaryApply(op, left) => match binary_outcome(op.token_type, left, value) {
                    Outcome::Join(a, b) => handed(final(self)@) matches Value::String(text) && text@
                        == a@ + b@,
                    _ => true,
                },
                _ => true,
            },
    {
        match frame {
            Frame::Unary(operator) => match Unary::evaluate(&operator, &value) {
                Ok(result) => self.go(Control::Value(result)),
                Err(kind) => self.fail(kind, operator),
            },
            Frame::BinaryRight(op, right, env) => {
                self.push(Frame::BinaryApply(op, value));
                self.go(Control::Evaluate(right, env))
            },
            Frame::BinaryApply(op, left) => match Binary::evaluate(&op, &left, &value) {
                Outcome::Value(result) => self.go(Control::Value(result)),
                Outcome::Arithmetic(operation, a, b) => self.ask(Request::Arithmetic(operation, a, b)),
                Outcome::Join(a, b) => {
                    let text = a.concat(b.as_str());
                    self.go(Control::Value(Value::String(text)))
                },
                Outcome::Fail(kind) => self.fail(kind, op),
            },
            Frame::Logical(op, right, env) => {
                if Logical::evaluate(&op, &value) {
                    self.go(Control::Value(value))
                } else {
                    self.go(Control::Evaluate(right, env))
                }
            },
            Frame::Assign(name, env) => {
                if Environment::assign(&mut self.environments, env, &name, value.clone()) {
                    self.go(Control::Value(value))
                } else {
                    self.fail(RuntimeErrorKind::UndefinedVariable, name)
                }
            },
            Frame::Callee(paren, arguments, env) => {
                let base = self.values.len();
                match &*arguments {
                    List::Nil => self.call(value, paren, base),
                    List::Cons(first, rest) => {
                        self.push(Frame::Arguments(value, paren, share(rest), env, base));
                        self.go(Control::Evaluate(share(first), env))
                    },
                }
            },
            Frame::Arguments(callee, paren, arguments, env, base) => {
                self.values.push(value);
                match &*arguments {
                    List::Nil => self.call(callee, paren, base),
                    List::Cons(first, rest) => {
                        self.push(Frame::Arguments(callee, paren, share(rest), env, base));
                        self.go(Control::Evaluate(share(first), env))
                    },
                }
            },
            Frame::Get(name) => self.property(value, name),
            Frame::SetObject(name, assigned, env) => match value {
                Value::Instance(id) => {
                    self.push(Frame::SetValue(name, id));
                    self.go(Control::Evaluate(assigned, env))
                },
                _ => self.fail(RuntimeErrorKind::NoFields, name),
            },
            Frame::SetValue(name, instance) => {
                self.store(instance, name.lexeme.clone(), value.clone());
                self.go(Control::Value(value))
            },
            Frame::Print => {
                self.control = Control::Value(Value::Nil);
                Action::Print(value)
            },
            Frame::Define(name, env) => {
                self.define(env, name.lexeme.clone(), value);
                self.go(Control::Value(Value::Nil))
            },
            Frame::Return => self.go(Control::Return(value)),
            Frame::Branch(then_branch, else_branch, env) => {
                if value.is_truthy() {
                    self.go(Control::Run(then_branch, env))
                } else {
                    match else_branch {
                        Some(branch) => self.go(Control::Run(branch, env)),
                        None => self.go(Control::Value(Value::Nil)),
                    }
                }
            },
            Frame::Loop(condition, body, env) => {
                if value.is_truthy() {
                    self.push(Frame::Again(condition, share(&body), env));
                    self.go(Control::Run(body, env))
                } else {
                    self.go(Control::Value(Value::Nil))
                }
            },
            Frame::Again(condition, body, env) => {
                self.push(Frame::Loop(share(&condition), body, env));
                self.go(Control::Evaluate(condition, env))
            },
            Frame::Sequence(statements, env) => match &*statements {
                List::Nil => self.go(Control::Value(Value::Nil)),
                List::Cons(first, rest) => {
                    self.push(Frame::Sequence(share(rest), env));
                    self.go(Control::Run(share(first), env))
                },
            },
            Frame::Call(function) => self.leave(function, Value::Nil),
        }
    }

    /// One step on a return that has reached a frame taken off the stack.
    fn unwind(&mut self, frame: Frame, value: Value) -> (action: Action)
        ensures
            (Step { state: final(self)@, action }) == old(self)@.unwind(frame, value),
    {
        match frame {
            Frame::Call(function) => self.leave(function, value),
            _ => self.go(Control::Return(value)),
        }
    }

    /// Takes one step. `event` answers the action of the step before, where
    /// that asked for a number. The state afterwards and the action are those
    /// of `next`; a step that joins two strings hands on the first followed by
    /// the second.
    pub fn step(&mut self, event: Event) -> (action: Action)
        ensures
            (Step { state: final(self)@, action }) == old(self)@.next(event, handed(final(self)@)),
            old(self)@.joins() matches Some(text) ==> handed(final(self)@) matches Value::String(joined)
                && joined@ == text,
    {
        match &self.control {
            Control::Idle => Action::Done(Ok(Value::Nil)),
            Control::Evaluate(expression, env) => {
                let expression = share(expression);
                let env = *env;
                self.evaluate(expression, env)
            },
            Control::Run(statement, env) => {
                let statement = share(statement);
                let env = *env;
                self.run(statement, env)
            },
            Control::Value(value) => {
                let value = value.clone();
                match self.stack.pop() {
                    Some(frame) => self.resume(frame, value),
                    None => self.finish(Value::Nil),
                }
            },
            Control::Return(value) => {
                let value = value.clone();
                match self.stack.pop() {
                    Some(frame) => self.unwind(frame, value),
                    None => self.finish(value),
                }
            },
            Control::Waiting(request) => {
                let request = *request;
                match event {
                    Event::Number(bits) => self.go(Control::Value(Value::Number(bits))),
                    Event::Resume => self.ask(request),
                }
            },
        }
    }

    /// Loads a program: its statements will run in order in the global
    /// frame. Whatever was running is given up; the heap stays.
    pub fn interpret(&mut self, statements: Vec<Rc<Statement>>)
        ensures
            final(self)@ == old(self)@.load(list_of(statements@)),
    {
        let program = List::from_vec(statements);
        self.stack.clear();
        self.values.clear();
        self.stack.push(Frame::Sequence(program, 0));
        self.control = Control::Value(Value::Nil);
        assert(self.stack@ =~= seq![Frame::Sequence(program, 0)]);
    }
}

} // verus!
