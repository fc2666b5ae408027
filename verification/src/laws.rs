//! Laws of the machine: what holds of every step.

use vstd::prelude::*;
use std::rc::Rc;
use crate::expressions::{short_circuits, Expr, Super};
use crate::list::List;
use crate::machine::{bound, initial, paired, Control, Event, Frame, State};
use crate::moonenv::{assigned, defined, lemma_resolve_bounds, lookup, resolve, Scope};
use crate::statements::{ClassStatement, Function, Statement};
use crate::token::{Token, TokenType};
use crate::value::{find_method, truthy, InstanceView, Value};

verus! {

/// Whether the frames `after` keep what the frames `before` hold: every frame
/// is still there, inside the same frame, and binds every name it bound.
pub open spec fn frames_kept(before: Seq<Scope>, after: Seq<Scope>) -> bool {
    &&& before.len() <= after.len()
    &&& forall|i: int|
        0 <= i < before.len() ==> (#[trigger] after[i]).enclosing == before[i].enclosing
            && before[i].values.dom().subset_of(after[i].values.dom())
}

/// Whether the heap of `after` keeps what the heap of `before` holds: every
/// frame with its bindings' names, every function, every class, and every
/// instance with its class and its fields' names.
pub open spec fn heap_kept(before: State, after: State) -> bool {
    &&& frames_kept(before.environments, after.environments)
    &&& before.functions.len() <= after.functions.len()
    &&& forall|i: int| 0 <= i < before.functions.len() ==> #[trigger] after.functions[i] == before.functions[i]
    &&& before.classes.len() <= after.classes.len()
    &&& forall|i: int| 0 <= i < before.classes.len() ==> #[trigger] after.classes[i] == before.classes[i]
    &&& before.instances.len() <= after.instances.len()
    &&& forall|i: int|
        0 <= i < before.instances.len() ==> (#[trigger] after.instances[i]).class
            == before.instances[i].class && before.instances[i].fields.dom().subset_of(
            after.instances[i].fields.dom(),
        )
}

pub proof fn lemma_defined_keeps_frames(frames: Seq<Scope>, at: int, name: Seq<char>, value: Value)
    ensures
        frames_kept(frames, defined(frames, at, name, value)),
{
}

pub proof fn lemma_assigned_keeps_frames(frames: Seq<Scope>, at: int, name: Seq<char>, value: Value)
    ensures
        assigned(frames, at, name, value) matches Some(changed) ==> frames_kept(frames, changed),
{
    lemma_resolve_bounds(frames, at, name);
}

/// A name that a frame sees stays visible from it as long as the frames are
/// kept.
pub proof fn lemma_visible_stays_visible(before: Seq<Scope>, after: Seq<Scope>, at: int, name: Seq<char>)
    requires
        frames_kept(before, after),
        resolve(before, at, name) is Some,
    ensures
        resolve(after, at, name) is Some,
    decreases at,
{
    if 0 <= at < before.len() {
        assert(after[at].enclosing == before[at].enclosing);
        if before[at].values.contains_key(name) {
            assert(after[at].values.dom().contains(name));
        } else if !after[at].values.contains_key(name) {
            match before[at].enclosing {
                Some(outer) => {
                    if outer < at {
                        lemma_visible_stays_visible(before, after, outer as int, name);
                    }
                },
                None => {},
            }
        }
    }
}

pub proof fn lemma_bind_keeps_heap(state: State, function: usize, this: Value)
    ensures
        heap_kept(state, state.bind(function, this)),
{
}

pub proof fn lemma_invoke_keeps_heap(state: State, function: usize, arguments: Seq<Value>, paren: Token)
    ensures
        heap_kept(state, state.invoke(function, arguments, paren).state),
{
}

pub proof fn lemma_instantiate_keeps_heap(state: State, class: usize, arguments: Seq<Value>, paren: Token)
    ensures
        heap_kept(state, state.instantiate(class, arguments, paren).state),
{
    let instance = Value::Instance(state.instances.len() as usize);
    let made = State {
        instances: state.instances.push(
            InstanceView { class, fields: Map::empty() },
        ),
        ..state
    };
    match find_method(state.classes, class as int, "init"@) {
        Some(init) => {
            lemma_bind_keeps_heap(made, init, instance);
            lemma_invoke_keeps_heap(made.bind(init, instance), made.next_function(), arguments, paren);
        },
        None => {},
    }
}

pub proof fn lemma_call_keeps_heap(state: State, callee: Value, paren: Token, base: usize)
    ensures
        heap_kept(state, state.call(callee, paren, base).state),
{
    let arguments = state.arguments(base);
    let rest = state.without_arguments(base);
    match callee {
        Value::Function(function) => {
            lemma_invoke_keeps_heap(rest, function, arguments, paren);
        },
        Value::Class(class) => {
            lemma_instantiate_keeps_heap(rest, class, arguments, paren);
        },
        _ => {},
    }
}

pub proof fn lemma_property_keeps_heap(state: State, object: Value, name: Token)
    ensures
        heap_kept(state, state.property(object, name).state),
{
}

pub proof fn lemma_super_keeps_heap(state: State, access: Super, env: usize)
    ensures
        heap_kept(state, state.super_method(access, env).state),
{
}

pub proof fn lemma_class_keeps_heap(state: State, class: ClassStatement, env: usize)
    ensures
        heap_kept(state, state.declare_class(class, env).state),
{
}

pub proof fn lemma_function_keeps_heap(state: State, function: Rc<Function>, env: usize)
    ensures
        heap_kept(state, state.declare_function(function, env).state),
{
}

pub proof fn lemma_evaluate_keeps_heap(state: State, expression: Rc<Expr>, env: usize)
    ensures
        heap_kept(state, state.evaluate(expression, env).state),
{
    match *expression {
        Expr::Super(access) => {
            lemma_super_keeps_heap(state, access, env);
        },
        _ => {},
    }
}

pub proof fn lemma_run_keeps_heap(state: State, statement: Rc<Statement>, env: usize)
    ensures
        heap_kept(state, state.run(statement, env).state),
{
    match *statement {
        Statement::Function(function) => {
            lemma_function_keeps_heap(state, function, env);
        },
        Statement::ClassStatement(class) => {
            lemma_class_keeps_heap(state, class, env);
        },
        _ => {},
    }
}

pub proof fn lemma_resume_keeps_heap(state: State, frame: Frame, value: Value, joined: Value)
    ensures
        heap_kept(state, state.resume(frame, value, joined).state),
{
    match frame {
        Frame::Assign(name, env) => {
            lemma_assigned_keeps_frames(state.environments, env as int, name.lexeme@, value);
        },
        Frame::Callee(paren, arguments, env) => {
            lemma_call_keeps_heap(state, value, paren, state.values.len() as usize);
        },
        Frame::Arguments(callee, paren, arguments, env, base) => {
            let pushed = State { values: state.values.push(value), ..state };
            lemma_call_keeps_heap(pushed, callee, paren, base);
        },
        Frame::Get(name) => {
            lemma_property_keeps_heap(state, value, name);
        },
        _ => {},
    }
}

/// No step takes anything from the heap: every frame stays where it is and
/// binds what it bound, and every function, class and instance stays.
pub proof fn law_step_keeps_heap(state: State, event: Event, joined: Value)
    ensures
        heap_kept(state, state.next(event, joined).state),
{
    match state.control {
        Control::Evaluate(expression, env) => {
            lemma_evaluate_keeps_heap(state, expression, env);
        },
        Control::Run(statement, env) => {
            lemma_run_keeps_heap(state, statement, env);
        },
        Control::Value(value) => {
            if state.stack.len() > 0 {
                lemma_resume_keeps_heap(state.popped(), state.stack.last(), value, joined);
            }
        },
        _ => {},
    }
}

/// Closure capture: a function keeps seeing the variables of the scope it
/// was made in, whatever has run or ended since. After any step the function
/// is the same, made in the same frame, and every name that was visible from
/// that frame still is.
pub proof fn law_closure_keeps_its_scope(
    state: State,
    event: Event,
    joined: Value,
    function: int,
    name: Seq<char>,
)
    requires
        0 <= function < state.functions.len(),
        lookup(state.environments, state.functions[function].environment as int, name) is Some,
    ensures
        ({
            let after = state.next(event, joined).state;
            &&& function < after.functions.len()
            &&& after.functions[function] == state.functions[function]
            &&& lookup(after.environments, after.functions[function].environment as int, name) is Some
        }),
{
    let after = state.next(event, joined).state;
    law_step_keeps_heap(state, event, joined);
    lemma_visible_stays_visible(
        state.environments,
        after.environments,
        state.functions[function].environment as int,
        name,
    );
}

/// Every call of a function makes a frame of its own: the frame that the
/// body runs in is new, lies inside the frame that the function was made in,
/// and binds the parameters; every frame that was there stays as it was. So
/// what one call defines, no other call of the same function sees.
pub proof fn law_call_makes_new_frame(state: State, function: usize, arguments: Seq<Value>, paren: Token)
    requires
        function < state.functions.len(),
        state.functions[function as int].arity == arguments.len(),
        state.functions[function as int].declaration is Some,
    ensures
        ({
            let callee = state.functions[function as int];
            let declaration = callee.declaration->Some_0;
            let after = state.invoke(function, arguments, paren).state;
            &&& after.environments == state.environments.push(
                Scope {
                    enclosing: Some(callee.environment),
                    values: bound(
                        declaration.parameters@,
                        arguments,
                        paired(declaration.parameters@, arguments),
                    ),
                },
            )
            &&& after.stack == state.stack.push(Frame::Call(function)).push(
                Frame::Sequence(declaration.body, state.environments.len() as usize),
            )
            &&& after.functions == state.functions
        }),
{
}

/// A function declaration makes a function in the frame that the declaration
/// runs in: that frame is the one the function's calls lie inside of.
pub proof fn law_function_closes_over_its_frame(state: State, function: Rc<Function>, env: usize)
    ensures
        ({
            let after = state.declare_function(function, env).state;
            &&& after.functions.len() == state.functions.len() + 1
            &&& after.functions.last().environment == env
            &&& after.functions.last().declaration == Some(function)
        }),
{
}

/// The global frame never loses a binding: `clock` stays bound.
pub proof fn law_globals_stay_bound(state: State, event: Event, joined: Value, name: Seq<char>)
    requires
        state.environments.len() > 0,
        state.environments[0].values.contains_key(name),
    ensures
        state.next(event, joined).state.environments.len() > 0,
        state.next(event, joined).state.environments[0].values.contains_key(name),
{
    law_step_keeps_heap(state, event, joined);
    let after = state.next(event, joined).state;
    assert(state.environments[0].values.dom().subset_of(after.environments[0].values.dom()));
    assert(after.environments[0].values.dom().contains(name));
}

/// Short circuit: where the left operand of `and` is falsy or that of `or`
/// truthy, the step hands on the left operand and drops the right one; the
/// right operand is neither evaluated nor kept.
pub proof fn law_short_circuit(
    state: State,
    event: Event,
    joined: Value,
    op: Token,
    right: Rc<Expr>,
    env: usize,
    left: Value,
)
    requires
        state.control == Control::Value(left),
        state.stack.len() > 0,
        state.stack.last() == Frame::Logical(op, right, env),
        short_circuits(op.token_type, left),
    ensures
        state.next(event, joined) == state.popped().go(Control::Value(left)),
{
}

/// `false and f()` never calls `f`: with a falsy left operand the step after
/// it gives that operand, without a step on the right one.
pub proof fn law_and_skips_right(
    state: State,
    event: Event,
    joined: Value,
    op: Token,
    right: Rc<Expr>,
    env: usize,
    left: Value,
)
    requires
        state.control == Control::Value(left),
        state.stack.len() > 0,
        state.stack.last() == Frame::Logical(op, right, env),
        op.token_type == TokenType::And,
        !truthy(left),
    ensures
        state.next(event, joined) == state.popped().go(Control::Value(left)),
{
}

/// `true or f()` never calls `f`: with a truthy left operand the step after
/// it gives that operand, without a step on the right one.
pub proof fn law_or_skips_right(
    state: State,
    event: Event,
    joined: Value,
    op: Token,
    right: Rc<Expr>,
    env: usize,
    left: Value,
)
    requires
        state.control == Control::Value(left),
        state.stack.len() > 0,
        state.stack.last() == Frame::Logical(op, right, env),
        op.token_type == TokenType::Or,
        truthy(left),
    ensures
        state.next(event, joined) == state.popped().go(Control::Value(left)),
{
}

/// The frame of bindings that a continuation works in, if it works in one.
pub open spec fn frame_scope(frame: Frame) -> Option<usize> {
    match frame {
        Frame::BinaryRight(_, _, env) => Some(env),
        Frame::Logical(_, _, env) => Some(env),
        Frame::Assign(_, env) => Some(env),
        Frame::Callee(_, _, env) => Some(env),
        Frame::Arguments(_, _, _, env, _) => Some(env),
        Frame::SetObject(_, _, env) => Some(env),
        Frame::Define(_, env) => Some(env),
        Frame::Branch(_, _, env) => Some(env),
        Frame::Loop(_, _, env) => Some(env),
        Frame::Again(_, _, env) => Some(env),
        Frame::Sequence(_, env) => Some(env),
        _ => None,
    }
}

/// The frame of bindings that a control works in, if it works in one.
pub open spec fn control_scope(control: Control) -> Option<usize> {
    match control {
        Control::Evaluate(_, env) => Some(env),
        Control::Run(_, env) => Some(env),
        _ => None,
    }
}

/// Whether `env` is a frame of the state, or no frame at all.
pub open spec fn in_scope(state: State, env: Option<usize>) -> bool {
    match env {
        Some(env) => env < state.environments.len(),
        None => true,
    }
}

/// Whether the chains of a state are in order: every frame lies inside a
/// frame made before it, so that no chain has a cycle; every function was
/// made in a frame of the state; and the control and every continuation work
/// in a frame of the state.
pub open spec fn chained(state: State) -> bool {
    &&& forall|i: int|
        0 <= i < state.environments.len() ==> match (#[trigger] state.environments[i]).enclosing {
            Some(outer) => outer < i,
            None => true,
        }
    &&& forall|f: int|
        0 <= f < state.functions.len() ==> (#[trigger] state.functions[f]).environment
            < state.environments.len()
    &&& forall|k: int| 0 <= k < state.stack.len() ==> in_scope(state, frame_scope(#[trigger] state.stack[k]))
    &&& in_scope(state, control_scope(state.control))
}

/// Whether every initialiser of a state is a method named `init`.
pub open spec fn initializers_named(state: State) -> bool {
    forall|f: int|
        0 <= f < state.functions.len() && (#[trigger] state.functions[f]).is_initializer ==> match state.functions[f].declaration {
            Some(declaration) => declaration.name.lexeme@ == "init"@,
            None => false,
        }
}

proof fn lemma_bind_keeps_chains(state: State, function: usize, this: Value)
    requires
        chained(state),
        initializers_named(state),
        function < state.functions.len(),
    ensures
        chained(state.bind(function, this)),
        initializers_named(state.bind(function, this)),
        state.bind(function, this).stack == state.stack,
        state.bind(function, this).control == state.control,
        state.bind(function, this).environments.len() == state.environments.len() + 1,
        state.bind(function, this).functions.len() == state.functions.len() + 1,
{
    assert(state.functions[function as int].environment < state.environments.len());
}

proof fn lemma_invoke_keeps_chains(state: State, function: usize, arguments: Seq<Value>, paren: Token)
    requires
        chained(state),
        initializers_named(state),
        function < state.functions.len(),
    ensures
        chained(state.invoke(function, arguments, paren).state),
        initializers_named(state.invoke(function, arguments, paren).state),
{
    assert(state.functions[function as int].environment < state.environments.len());
}

proof fn lemma_instantiate_keeps_chains(state: State, class: usize, arguments: Seq<Value>, paren: Token)
    requires
        chained(state),
        initializers_named(state),
    ensures
        chained(state.instantiate(class, arguments, paren).state),
        initializers_named(state.instantiate(class, arguments, paren).state),
{
    let instance = Value::Instance(state.instances.len() as usize);
    let made = State {
        instances: state.instances.push(InstanceView { class, fields: Map::empty() }),
        ..state
    };
    match find_method(state.classes, class as int, "init"@) {
        Some(init) => {
            if init < state.functions.len() {
                lemma_bind_keeps_chains(made, init, instance);
                lemma_invoke_keeps_chains(made.bind(init, instance), made.next_function(), arguments, paren);
            }
        },
        None => {},
    }
}

proof fn lemma_call_keeps_chains(state: State, callee: Value, paren: Token, base: usize)
    requires
        chained(state),
        initializers_named(state),
    ensures
        chained(state.call(callee, paren, base).state),
        initializers_named(state.call(callee, paren, base).state),
{
    let arguments = state.arguments(base);
    let rest = state.without_arguments(base);
    match callee {
        Value::Function(function) => {
            if function < state.functions.len() {
                lemma_invoke_keeps_chains(rest, function, arguments, paren);
            }
        },
        Value::Class(class) => {
            lemma_instantiate_keeps_chains(rest, class, arguments, paren);
        },
        _ => {},
    }
}

proof fn lemma_property_keeps_chains(state: State, object: Value, name: Token)
    requires
        chained(state),
        initializers_named(state),
    ensures
        chained(state.property(object, name).state),
        initializers_named(state.property(object, name).state),
{
    match object {
        Value::Instance(id) => {
            if id < state.instances.len() {
                let instance = state.instances[id as int];
                match find_method(state.classes, instance.class as int, name.lexeme@) {
                    Some(method) => {
                        if method < state.functions.len() {
                            lemma_bind_keeps_chains(state, method, object);
                        }
                    },
                    None => {},
                }
            }
        },
        _ => {},
    }
}

proof fn lemma_super_keeps_chains(state: State, access: Super, env: usize)
    requires
        chained(state),
        initializers_named(state),
    ensures
        chained(state.super_method(access, env).state),
        initializers_named(state.super_method(access, env).state),
{
    match state.lookup(env, "super"@) {
        Some(Value::Class(class)) => {
            match find_method(state.classes, class as int, access.method.lexeme@) {
                Some(method) => {
                    if method < state.functions.len() {
                        match state.lookup(env, "this"@) {
                            Some(Value::Instance(id)) => {
                                lemma_bind_keeps_chains(state, method, Value::Instance(id));
                            },
                            _ => {},
                        }
                    }
                },
                None => {},
            }
        },
        _ => {},
    }
}

proof fn lemma_class_keeps_chains(state: State, class: ClassStatement, env: usize)
    requires
        chained(state),
        initializers_named(state),
        env < state.environments.len(),
    ensures
        chained(state.declare_class(class, env).state),
        initializers_named(state.declare_class(class, env).state),
{
}

proof fn lemma_function_keeps_chains(state: State, function: Rc<Function>, env: usize)
    requires
        chained(state),
        initializers_named(state),
        env < state.environments.len(),
    ensures
        chained(state.declare_function(function, env).state),
        initializers_named(state.declare_function(function, env).state),
{
}

proof fn lemma_evaluate_keeps_chains(state: State, expression: Rc<Expr>, env: usize)
    requires
        chained(state),
        initializers_named(state),
        env < state.environments.len(),
    ensures
        chained(state.evaluate(expression, env).state),
        initializers_named(state.evaluate(expression, env).state),
{
    match *expression {
        Expr::Super(access) => {
            lemma_super_keeps_chains(state, access, env);
        },
        _ => {},
    }
}

proof fn lemma_run_keeps_chains(state: State, statement: Rc<Statement>, env: usize)
    requires
        chained(state),
        initializers_named(state),
        env < state.environments.len(),
    ensures
        chained(state.run(statement, env).state),
        initializers_named(state.run(statement, env).state),
{
    match *statement {
        Statement::Function(function) => {
            lemma_function_keeps_chains(state, function, env);
        },
        Statement::ClassStatement(class) => {
            lemma_class_keeps_chains(state, class, env);
        },
        _ => {},
    }
}

proof fn lemma_resume_keeps_chains(state: State, frame: Frame, value: Value, joined: Value)
    requires
        chained(state),
        initializers_named(state),
        in_scope(state, frame_scope(frame)),
    ensures
        chained(state.resume(frame, value, joined).state),
        initializers_named(state.resume(frame, value, joined).state),
{
    match frame {
        Frame::Assign(name, env) => {
            lemma_resolve_bounds(state.environments, env as int, name.lexeme@);
        },
        Frame::Callee(paren, arguments, env) => {
            lemma_call_keeps_chains(state, value, paren, state.values.len() as usize);
        },
        Frame::Arguments(callee, paren, arguments, env, base) => {
            let pushed = State { values: state.values.push(value), ..state };
            lemma_call_keeps_chains(pushed, callee, paren, base);
        },
        Frame::Get(name) => {
            lemma_property_keeps_chains(state, value, name);
        },
        _ => {},
    }
}

/// A new machine's chains are in order, and its one function is no
/// initialiser.
pub proof fn law_initial_chains()
    ensures
        chained(initial()),
        initializers_named(initial()),
{
}

/// Loading a program keeps the chains in order.
pub proof fn law_load_keeps_chains(state: State, statements: Rc<List<Rc<Statement>>>)
    requires
        chained(state),
        state.environments.len() > 0,
    ensures
        chained(state.load(statements)),
{
}

/// No step brings the chains out of order: every frame still lies inside a
/// frame made before it, so looking a name up along a chain ends; every
/// function's frame, and the frame that each continuation works in, exists.
/// And an initialiser is always a method named `init`.
pub proof fn law_step_keeps_chains(state: State, event: Event, joined: Value)
    requires
        chained(state),
        initializers_named(state),
    ensures
        chained(state.next(event, joined).state),
        initializers_named(state.next(event, joined).state),
{
    match state.control {
        Control::Evaluate(expression, env) => {
            lemma_evaluate_keeps_chains(state, expression, env);
        },
        Control::Run(statement, env) => {
            lemma_run_keeps_chains(state, statement, env);
        },
        Control::Value(value) => {
            if state.stack.len() > 0 {
                let popped = state.popped();
                assert(chained(popped)) by {
                    assert forall|k: int| 0 <= k < popped.stack.len() implies in_scope(
                        popped,
                        frame_scope(#[trigger] popped.stack[k]),
                    ) by {
                        assert(popped.stack[k] == state.stack[k]);
                    }
                }
                assert(in_scope(state, frame_scope(state.stack[state.stack.len() - 1])));
                lemma_resume_keeps_chains(popped, state.stack.last(), value, joined);
            }
        },
        Control::Return(value) => {
            if state.stack.len() > 0 {
                let popped = state.popped();
                assert(chained(popped)) by {
                    assert forall|k: int| 0 <= k < popped.stack.len() implies in_scope(
                        popped,
                        frame_scope(#[trigger] popped.stack[k]),
                    ) by {
                        assert(popped.stack[k] == state.stack[k]);
                    }
                }
            }
        },
        _ => {},
    }
}

} // verus!
