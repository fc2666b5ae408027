//! A reference evaluator for expressions in an empty environment, and the
//! proof that the machine agrees with it.
//!
//! The reference evaluator is a recursive function of the expression alone.
//! It decides every operator by the tables `unary_outcome`, `binary_outcome`
//! and `short_circuits`. Where a result depends on the host, it takes the
//! host's part as functions: `round` for arithmetic, `text` for the string
//! that holds given characters.

use vstd::prelude::*;
use std::rc::Rc;
use crate::error::{error_at, RuntimeError, RuntimeErrorKind};
use crate::expressions::{
    binary_outcome, short_circuits, unary_outcome, Assign, Binary, Call, Expr, Get, Logical, Operation,
    Outcome, SetField, Unary,
};
use crate::list::List;
use crate::machine::{Action, Control, Event, Frame, Request, State, Step};
use crate::moonenv::{resolve, Scope};
use crate::token::Token;
use crate::value::Value;

verus! {

/// What the reference evaluator makes of the values of two operands.
pub open spec fn applied(
    op: Token,
    left: Value,
    right: Value,
    round: spec_fn(Operation, u64, u64) -> u64,
    text: spec_fn(Seq<char>) -> String,
) -> Result<Value, RuntimeError> {
    match binary_outcome(op.token_type, left, right) {
        Outcome::Value(result) => Ok(result),
        Outcome::Arithmetic(operation, a, b) => Ok(Value::Number(round(operation, a, b))),
        Outcome::Join(a, b) => Ok(Value::String(text(a@ + b@))),
        Outcome::Fail(kind) => Err(error_at(kind, op)),
    }
}

/// The value of an expression where no name is bound and the heap is empty,
/// or the runtime error that its evaluation ends with.
pub open spec fn reference(
    expression: Rc<Expr>,
    round: spec_fn(Operation, u64, u64) -> u64,
    text: spec_fn(Seq<char>) -> String,
) -> Result<Value, RuntimeError>
    decreases expression,
{
    match *expression {
        Expr::Literal(literal) => Ok(literal.value),
        Expr::NoOp(_) => Ok(Value::Nil),
        Expr::Grouping(grouping) => reference(grouping.expression, round, text),
        Expr::Unary(unary) => match reference(unary.right, round, text) {
            Err(error) => Err(error),
            Ok(right) => match unary_outcome(unary.operator.token_type, right) {
                Ok(result) => Ok(result),
                Err(kind) => Err(error_at(kind, unary.operator)),
            },
        },
        Expr::Binary(binary) => match reference(binary.left, round, text) {
            Err(error) => Err(error),
            Ok(left) => match reference(binary.right, round, text) {
                Err(error) => Err(error),
                Ok(right) => applied(binary.op, left, right, round, text),
            },
        },
        Expr::Logical(logical) => match reference(logical.left, round, text) {
            Err(error) => Err(error),
            Ok(left) => if short_circuits(logical.op.token_type, left) {
                Ok(left)
            } else {
                reference(logical.right, round, text)
            },
        },
        Expr::Variable(variable) => Err(
            error_at(RuntimeErrorKind::UndefinedVariable, variable.name),
        ),
        Expr::Assign(assign) => match reference(assign.value, round, text) {
            Err(error) => Err(error),
            Ok(_) => Err(error_at(RuntimeErrorKind::UndefinedVariable, assign.name)),
        },
        Expr::Call(call) => match reference(call.calling, round, text) {
            Err(error) => Err(error),
            Ok(_) => match reference_arguments(call.arguments, round, text) {
                Some(error) => Err(error),
                None => Err(error_at(RuntimeErrorKind::NotCallable, call.parent)),
            },
        },
        Expr::Get(get) => match reference(get.object, round, text) {
            Err(error) => Err(error),
            Ok(_) => Err(error_at(RuntimeErrorKind::NoProperties, get.name)),
        },
        Expr::SetField(set) => match reference(set.object, round, text) {
            Err(error) => Err(error),
            Ok(Value::Instance(_)) => reference(set.value, round, text),
            Ok(_) => Err(error_at(RuntimeErrorKind::NoFields, set.name)),
        },
        Expr::This(this) => Err(
            error_at(RuntimeErrorKind::UndefinedVariable, this.keyword),
        ),
        Expr::Super(access) => Err(
            error_at(RuntimeErrorKind::UndefinedVariable, access.keyword),
        ),
    }
}

/// The first error among the arguments of a call, evaluated in order.
pub open spec fn reference_arguments(
    arguments: Rc<List<Rc<Expr>>>,
    round: spec_fn(Operation, u64, u64) -> u64,
    text: spec_fn(Seq<char>) -> String,
) -> Option<RuntimeError>
    decreases arguments,
{
    match *arguments {
        List::Nil => None,
        List::Cons(first, rest) => match reference(first, round, text) {
            Err(error) => Some(error),
            Ok(_) => reference_arguments(rest, round, text),
        },
    }
}

/// The number of steps that the machine takes on an expression.
pub open spec fn cost(
    expression: Rc<Expr>,
    round: spec_fn(Operation, u64, u64) -> u64,
    text: spec_fn(Seq<char>) -> String,
) -> nat
    decreases expression,
{
    match *expression {
        Expr::Literal(_) | Expr::NoOp(_) | Expr::Variable(_) | Expr::This(_) | Expr::Super(_) => 1,
        Expr::Grouping(grouping) => 1 + cost(grouping.expression, round, text),
        Expr::Unary(unary) => 1 + cost(unary.right, round, text) + if reference(unary.right,
            round,
            text,
        ) is Ok {
            1nat
        } else {
            0nat
        },
        Expr::Binary(binary) => 1 + cost(binary.left, round, text) + match reference(binary.left,
            round,
            text,
        ) {
            Err(_) => 0nat,
            Ok(left) => 1 + cost(binary.right, round, text) + match reference(binary.right,
                round,
                text,
            ) {
                Err(_) => 0nat,
                Ok(right) => if binary_outcome(binary.op.token_type, left, right) is Arithmetic {
                    2nat
                } else {
                    1nat
                },
            },
        },
        Expr::Logical(logical) => 1 + cost(logical.left, round, text) + match reference(logical.left,
            round,
            text,
        ) {
            Err(_) => 0nat,
            Ok(left) => if short_circuits(logical.op.token_type, left) {
                1nat
            } else {
                1 + cost(logical.right, round, text)
            },
        },
        Expr::Assign(assign) => 1 + cost(assign.value, round, text) + if reference(assign.value,
            round,
            text,
        ) is Ok {
            1nat
        } else {
            0nat
        },
        Expr::Call(call) => 1 + cost(call.calling, round, text) + if reference(call.calling,
            round,
            text,
        ) is Ok {
            1 + cost_arguments(call.arguments, round, text)
        } else {
            0nat
        },
        Expr::Get(get) => 1 + cost(get.object, round, text) + if reference(get.object, round, text) is Ok {
            1nat
        } else {
            0nat
        },
        Expr::SetField(set) => 1 + cost(set.object, round, text) + match reference(set.object,
            round,
            text,
        ) {
            Err(_) => 0nat,
            Ok(Value::Instance(_)) => 1 + cost(set.value, round, text) + if reference(set.value,
                round,
                text,
            ) is Ok {
                1nat
            } else {
                0nat
            },
            Ok(_) => 1nat,
        },
    }
}

/// The number of steps that the machine takes on the arguments of a call,
/// behind the step that starts the first.
pub open spec fn cost_arguments(
    arguments: Rc<List<Rc<Expr>>>,
    round: spec_fn(Operation, u64, u64) -> u64,
    text: spec_fn(Seq<char>) -> String,
) -> nat
    decreases arguments,
{
    match *arguments {
        List::Nil => 0,
        List::Cons(first, rest) => cost(first, round, text) + if reference(first, round, text) is Ok {
            1 + cost_arguments(rest, round, text)
        } else {
            0nat
        },
    }
}

/// The event with which the host answers a state: the rounded result where
/// the machine waits for one.
pub open spec fn answer(state: State, round: spec_fn(Operation, u64, u64) -> u64) -> Event {
    match state.control {
        Control::Waiting(Request::Arithmetic(operation, a, b)) => Event::Number(round(operation, a, b)),
        _ => Event::Resume,
    }
}

/// The string that a step from a state joins, nil where it joins none.
pub open spec fn joined(state: State, text: spec_fn(Seq<char>) -> String) -> Value {
    match state.joins() {
        Some(characters) => Value::String(text(characters)),
        None => Value::Nil,
    }
}

/// The step from a state with the host's answer.
#[verifier::opaque]
pub open spec fn step(
    state: State,
    round: spec_fn(Operation, u64, u64) -> u64,
    text: spec_fn(Seq<char>) -> String,
) -> Step {
    state.next(answer(state, round), joined(state, text))
}

/// The last of `count` steps from a state.
pub open spec fn run(
    state: State,
    count: nat,
    round: spec_fn(Operation, u64, u64) -> u64,
    text: spec_fn(Seq<char>) -> String,
) -> Step
    decreases count,
{
    if count == 0 {
        Step { state, action: Action::Continue }
    } else if count == 1 {
        step(state, round, text)
    } else {
        run(step(state, round, text).state, (count - 1) as nat, round, text)
    }
}

/// The parts of a unary expression.
pub open spec fn unary_of(expression: Rc<Expr>) -> Unary {
    expression->Unary_0
}

/// The parts of a logical expression.
pub open spec fn logical_of(expression: Rc<Expr>) -> Logical {
    expression->Logical_0
}

/// The parts of an assignment.
pub open spec fn assign_of(expression: Rc<Expr>) -> Assign {
    expression->Assign_0
}

/// The parts of a property access.
pub open spec fn get_of(expression: Rc<Expr>) -> Get {
    expression->Get_0
}

/// The first item of a list that has one.
pub open spec fn head_of(list: Rc<List<Rc<Expr>>>) -> Rc<Expr> {
    list->Cons_0
}

/// The list behind its first item.
pub open spec fn tail_of(list: Rc<List<Rc<Expr>>>) -> Rc<List<Rc<Expr>>> {
    list->Cons_1
}

/// The parts of a binary expression.
pub open spec fn binary_of(expression: Rc<Expr>) -> Binary {
    expression->Binary_0
}

/// The parts of a property assignment.
pub open spec fn set_of(expression: Rc<Expr>) -> SetField {
    expression->SetField_0
}

/// The parts of a call.
pub open spec fn call_of(expression: Rc<Expr>) -> Call {
    expression->Call_0
}

/// Whether a state is one in which no name is bound and the heap is empty.
pub open spec fn bare(state: State) -> bool {
    &&& state.functions.len() == 0
    &&& state.classes.len() == 0
    &&& state.instances.len() == 0
    &&& forall|i: int|
        0 <= i < state.environments.len() ==> (#[trigger] state.environments[i]).values
            == Map::<Seq<char>, Value>::empty()
}

/// How a run on an expression ends: with its value handed on and everything
/// else as before, or with the error.
pub open spec fn ended(state: State, result: Result<Value, RuntimeError>) -> Step {
    match result {
        Ok(value) => Step { state: State { control: Control::Value(value), ..state }, action: Action::Continue },
        Err(error) => state.fail_with(error),
    }
}

/// Whether `count` steps from `state`, at least one, end in `end`.
pub open spec fn reaches(
    state: State,
    count: nat,
    end: Step,
    round: spec_fn(Operation, u64, u64) -> u64,
    text: spec_fn(Seq<char>) -> String,
) -> bool {
    count >= 1 && run(state, count, round, text) == end
}

/// Whether the machine, started on the expression in `state`, ends as the
/// reference evaluator says.
pub open spec fn agrees(
    state: State,
    expression: Rc<Expr>,
    round: spec_fn(Operation, u64, u64) -> u64,
    text: spec_fn(Seq<char>) -> String,
) -> bool {
    reaches(
        state,
        cost(expression, round, text),
        ended(state, reference(expression, round, text)),
        round,
        text,
    )
}

/// A state like `state` with another stack and control: the heap and the
/// value stack are the same.
pub open spec fn moved(state: State, stack: Seq<Frame>, control: Control) -> State {
    State { stack, control, ..state }
}

/// Where every frame is empty, no name is visible.
pub proof fn lemma_nothing_visible(frames: Seq<Scope>, at: int, name: Seq<char>)
    requires
        forall|i: int|
            0 <= i < frames.len() ==> (#[trigger] frames[i]).values == Map::<Seq<char>, Value>::empty(),
    ensures
        resolve(frames, at, name) is None,
    decreases at,
{
    if 0 <= at < frames.len() {
        assert(!frames[at].values.contains_key(name));
        match frames[at].enclosing {
            Some(outer) => {
                if outer < at {
                    lemma_nothing_visible(frames, outer as int, name);
                }
            },
            None => {},
        }
    }
}

/// A run of `first + rest` steps is a run of `first` steps and then one of
/// `rest` steps.
pub proof fn lemma_run_splits(
    state: State,
    first: nat,
    rest: nat,
    round: spec_fn(Operation, u64, u64) -> u64,
    text: spec_fn(Seq<char>) -> String,
)
    requires
        first >= 1,
        rest >= 1,
    ensures
        run(state, first + rest, round, text) == run(run(state, first, round, text).state, rest, round, text),
    decreases first,
{
    if first > 1 {
        lemma_run_splits(step(state, round, text).state, (first - 1) as nat, rest, round, text);
    }
}

/// One step is a run.
pub proof fn lemma_reach_one(
    state: State,
    end: Step,
    round: spec_fn(Operation, u64, u64) -> u64,
    text: spec_fn(Seq<char>) -> String,
)
    requires
        step(state, round, text) == end,
    ensures
        reaches(state, 1, end, round, text),
{
}

/// A run to `mid` and a run on from there are one run.
pub proof fn lemma_reach_then(
    state: State,
    first: nat,
    mid: Step,
    rest: nat,
    end: Step,
    round: spec_fn(Operation, u64, u64) -> u64,
    text: spec_fn(Seq<char>) -> String,
)
    requires
        reaches(state, first, mid, round, text),
        reaches(mid.state, rest, end, round, text),
    ensures
        reaches(state, first + rest, end, round, text),
{
    lemma_run_splits(state, first, rest, round, text);
}

/// The step on an expression to evaluate.
pub proof fn lemma_step_evaluates(
    state: State,
    expression: Rc<Expr>,
    env: usize,
    round: spec_fn(Operation, u64, u64) -> u64,
    text: spec_fn(Seq<char>) -> String,
)
    requires
        state.control == Control::Evaluate(expression, env),
    ensures
        step(state, round, text) == state.evaluate(expression, env),
{
    reveal(step);
}

/// The step on a value for the frame on top of the stack.
pub proof fn lemma_step_resumes(
    state: State,
    value: Value,
    round: spec_fn(Operation, u64, u64) -> u64,
    text: spec_fn(Seq<char>) -> String,
)
    requires
        state.control == Control::Value(value),
        state.stack.len() > 0,
    ensures
        step(state, round, text) == state.popped().resume(state.stack.last(), value, joined(state, text)),
{
    reveal(step);
}

/// The step on the host's answer to an arithmetic operation.
pub proof fn lemma_step_rounds(
    state: State,
    operation: Operation,
    a: u64,
    b: u64,
    round: spec_fn(Operation, u64, u64) -> u64,
    text: spec_fn(Seq<char>) -> String,
)
    requires
        state.control == Control::Waiting(Request::Arithmetic(operation, a, b)),
    ensures
        step(state, round, text) == state.go(Control::Value(Value::Number(round(operation, a, b)))),
{
    reveal(step);
}

/// The first step on an expression with an operand: a frame goes on the
/// stack and the operand is evaluated. If the machine agrees with the
/// reference evaluator on the operand, the run gets as far as the operand's
/// value, or ends with the operand's error.
proof fn lemma_operand_first(
    state: State,
    frame: Frame,
    operand: Rc<Expr>,
    env: usize,
    round: spec_fn(Operation, u64, u64) -> u64,
    text: spec_fn(Seq<char>) -> String,
)
    requires
        step(state, round, text) == (Step {
            state: moved(state, state.stack.push(frame), Control::Evaluate(operand, env)),
            action: Action::Continue,
        }),
        agrees(moved(state, state.stack.push(frame), Control::Evaluate(operand, env)), operand, round, text),
    ensures
        match reference(operand, round, text) {
            Err(error) => reaches(
                state,
                1 + cost(operand, round, text),
                state.fail_with(error),
                round,
                text,
            ),
            Ok(value) => reaches(
                state,
                1 + cost(operand, round, text),
                Step {
                    state: moved(state, state.stack.push(frame), Control::Value(value)),
                    action: Action::Continue,
                },
                round,
                text,
            ),
        },
{
    let started = moved(state, state.stack.push(frame), Control::Evaluate(operand, env));
    let first = Step { state: started, action: Action::Continue };
    lemma_reach_one(state, first, round, text);
    let end = ended(started, reference(operand, round, text));
    lemma_reach_then(state, 1, first, cost(operand, round, text), end, round, text);
}

/// The step on the operand of a unary operator.
proof fn lemma_unary_step(
    state: State,
    below: Seq<Frame>,
    operator: Token,
    value: Value,
    round: spec_fn(Operation, u64, u64) -> u64,
    text: spec_fn(Seq<char>) -> String,
)
    requires
        state.control == Control::Value(value),
        state.stack == below.push(Frame::Unary(operator)),
    ensures
        step(state, round, text) == match unary_outcome(operator.token_type, value) {
            Ok(result) => Step { state: moved(state, below, Control::Value(result)), action: Action::Continue },
            Err(kind) => state.fail(kind, operator),
        },
{
    lemma_step_resumes(state, value, round, text);
    assert(state.popped().stack =~= below);
}

/// The step on the left operand of a binary operator.
proof fn lemma_binary_right_step(
    state: State,
    below: Seq<Frame>,
    op: Token,
    right: Rc<Expr>,
    env: usize,
    value: Value,
    round: spec_fn(Operation, u64, u64) -> u64,
    text: spec_fn(Seq<char>) -> String,
)
    requires
        state.control == Control::Value(value),
        state.stack == below.push(Frame::BinaryRight(op, right, env)),
    ensures
        step(state, round, text) == (Step {
            state: moved(
                state,
                below.push(Frame::BinaryApply(op, value)),
                Control::Evaluate(right, env),
            ),
            action: Action::Continue,
        }),
{
    lemma_step_resumes(state, value, round, text);
    assert(state.popped().stack =~= below);
}

/// The steps on the right operand of a binary operator: one, or two where
/// the host rounds.
proof fn lemma_binary_apply_steps(
    state: State,
    below: Seq<Frame>,
    op: Token,
    left: Value,
    right: Value,
    round: spec_fn(Operation, u64, u64) -> u64,
    text: spec_fn(Seq<char>) -> String,
)
    requires
        state.control == Control::Value(right),
        state.stack == below.push(Frame::BinaryApply(op, left)),
    ensures
        reaches(
            state,
            if binary_outcome(op.token_type, left, right) is Arithmetic {
                2
            } else {
                1
            },
            ended(moved(state, below, state.control), applied(op, left, right, round, text)),
            round,
            text,
        ),
{
    lemma_step_resumes(state, right, round, text);
    assert(state.popped().stack =~= below);
    match binary_outcome(op.token_type, left, right) {
        Outcome::Arithmetic(operation, a, b) => {
            let waiting = moved(state, below, Control::Waiting(Request::Arithmetic(operation, a, b)));
            let asked = Step { state: waiting, action: Action::Arithmetic(operation, a, b) };
            assert(step(state, round, text) == asked);
            lemma_step_rounds(waiting, operation, a, b, round, text);
            lemma_reach_one(state, asked, round, text);
            let end = ended(moved(state, below, state.control), applied(op, left, right, round, text));
            assert(step(waiting, round, text) == end);
            lemma_reach_one(waiting, end, round, text);
            lemma_reach_then(state, 1, asked, 1, end, round, text);
        },
        _ => {},
    }
}

/// The step on the left operand of `or` or `and`.
proof fn lemma_logical_step(
    state: State,
    below: Seq<Frame>,
    op: Token,
    right: Rc<Expr>,
    env: usize,
    value: Value,
    round: spec_fn(Operation, u64, u64) -> u64,
    text: spec_fn(Seq<char>) -> String,
)
    requires
        state.control == Control::Value(value),
        state.stack == below.push(Frame::Logical(op, right, env)),
    ensures
        step(state, round, text) == (Step {
            state: moved(
                state,
                below,
                if short_circuits(op.token_type, value) {
                    Control::Value(value)
                } else {
                    Control::Evaluate(right, env)
                },
            ),
            action: Action::Continue,
        }),
{
    lemma_step_resumes(state, value, round, text);
    assert(state.popped().stack =~= below);
}

/// The step on the value of an assignment, where no name is bound.
proof fn lemma_assign_step(
    state: State,
    below: Seq<Frame>,
    name: Token,
    env: usize,
    value: Value,
    round: spec_fn(Operation, u64, u64) -> u64,
    text: spec_fn(Seq<char>) -> String,
)
    requires
        bare(state),
        state.control == Control::Value(value),
        state.stack == below.push(Frame::Assign(name, env)),
    ensures
        step(state, round, text) == state.fail(RuntimeErrorKind::UndefinedVariable, name),
{
    lemma_step_resumes(state, value, round, text);
    lemma_nothing_visible(state.environments, env as int, name.lexeme@);
}

/// The step on the object of a property access, where there is no instance.
proof fn lemma_get_step(
    state: State,
    below: Seq<Frame>,
    name: Token,
    value: Value,
    round: spec_fn(Operation, u64, u64) -> u64,
    text: spec_fn(Seq<char>) -> String,
)
    requires
        bare(state),
        state.control == Control::Value(value),
        state.stack == below.push(Frame::Get(name)),
    ensures
        step(state, round, text) == state.fail(RuntimeErrorKind::NoProperties, name),
{
    lemma_step_resumes(state, value, round, text);
}

/// The step on the object of a property assignment.
proof fn lemma_set_object_step(
    state: State,
    below: Seq<Frame>,
    name: Token,
    assigned: Rc<Expr>,
    env: usize,
    value: Value,
    round: spec_fn(Operation, u64, u64) -> u64,
    text: spec_fn(Seq<char>) -> String,
)
    requires
        state.control == Control::Value(value),
        state.stack == below.push(Frame::SetObject(name, assigned, env)),
    ensures
        step(state, round, text) == match value {
            Value::Instance(id) => Step {
                state: moved(state, below.push(Frame::SetValue(name, id)), Control::Evaluate(assigned, env)),
                action: Action::Continue,
            },
            _ => state.fail(RuntimeErrorKind::NoFields, name),
        },
{
    lemma_step_resumes(state, value, round, text);
    assert(state.popped().stack =~= below);
}

/// The step on the value of a property assignment, where there is no
/// instance to store it in.
proof fn lemma_set_value_step(
    state: State,
    below: Seq<Frame>,
    name: Token,
    instance: usize,
    value: Value,
    round: spec_fn(Operation, u64, u64) -> u64,
    text: spec_fn(Seq<char>) -> String,
)
    requires
        bare(state),
        state.control == Control::Value(value),
        state.stack == below.push(Frame::SetValue(name, instance)),
    ensures
        step(state, round, text) == (Step { state: moved(state, below, Control::Value(value)), action: Action::Continue }),
{
    lemma_step_resumes(state, value, round, text);
    assert(state.popped().stack =~= below);
}

/// A call where there is nothing to call fails.
proof fn lemma_nothing_to_call(state: State, callee: Value, paren: Token, base: usize)
    requires
        bare(state),
    ensures
        state.call(callee, paren, base) == state.fail(RuntimeErrorKind::NotCallable, paren),
{
}

/// The step on the callee of a call, where there is nothing to call.
proof fn lemma_callee_step(
    state: State,
    below: Seq<Frame>,
    paren: Token,
    arguments: Rc<List<Rc<Expr>>>,
    env: usize,
    callee: Value,
    round: spec_fn(Operation, u64, u64) -> u64,
    text: spec_fn(Seq<char>) -> String,
)
    requires
        bare(state),
        state.control == Control::Value(callee),
        state.stack == below.push(Frame::Callee(paren, arguments, env)),
    ensures
        step(state, round, text) == match *arguments {
            List::Nil => state.fail(RuntimeErrorKind::NotCallable, paren),
            List::Cons(first, rest) => Step {
                state: moved(
                    state,
                    below.push(Frame::Arguments(callee, paren, rest, env, state.values.len() as usize)),
                    Control::Evaluate(first, env),
                ),
                action: Action::Continue,
            },
        },
{
    lemma_step_resumes(state, callee, round, text);
    assert(state.popped().stack =~= below);
    lemma_nothing_to_call(state.popped(), callee, paren, state.values.len() as usize);
}

/// The step on an argument of a call, where there is nothing to call.
proof fn lemma_argument_step(
    state: State,
    below: Seq<Frame>,
    callee: Value,
    paren: Token,
    rest: Rc<List<Rc<Expr>>>,
    env: usize,
    base: usize,
    value: Value,
    round: spec_fn(Operation, u64, u64) -> u64,
    text: spec_fn(Seq<char>) -> String,
)
    requires
        bare(state),
        state.control == Control::Value(value),
        state.stack == below.push(Frame::Arguments(callee, paren, rest, env, base)),
    ensures
        step(state, round, text) == match *rest {
            List::Nil => state.fail(RuntimeErrorKind::NotCallable, paren),
            List::Cons(second, others) => Step {
                state: State {
                    stack: below.push(Frame::Arguments(callee, paren, others, env, base)),
                    values: state.values.push(value),
                    control: Control::Evaluate(second, env),
                    ..state
                },
                action: Action::Continue,
            },
        },
{
    lemma_step_resumes(state, value, round, text);
    assert(state.popped().stack =~= below);
    let pushed = State { values: state.values.push(value), ..state.popped() };
    lemma_nothing_to_call(pushed, callee, paren, base);
}

/// The machine agrees with the reference evaluator: started on an expression
/// in a state where no name is bound and the heap is empty, it takes
/// `cost` steps and then either hands on the value that `reference` gives,
/// with the stack and the heap as they were, or has ended with the error that
/// `reference` gives.
pub proof fn law_machine_agrees_with_reference(
    expression: Rc<Expr>,
    env: usize,
    state: State,
    round: spec_fn(Operation, u64, u64) -> u64,
    text: spec_fn(Seq<char>) -> String,
)
    requires
        bare(state),
        state.control == Control::Evaluate(expression, env),
        forall|characters: Seq<char>| (#[trigger] text(characters))@ == characters,
    ensures
        agrees(state, expression, round, text),
    decreases expression, 1nat,
{
    lemma_step_evaluates(state, expression, env, round, text);
    match *expression {
        Expr::Literal(_) | Expr::NoOp(_) => {},
        Expr::Variable(variable) => {
            lemma_nothing_visible(state.environments, env as int, variable.name.lexeme@);
        },
        Expr::This(this) => {
            lemma_nothing_visible(state.environments, env as int, this.keyword.lexeme@);
        },
        Expr::Super(access) => {
            lemma_nothing_visible(state.environments, env as int, "super"@);
        },
        Expr::Grouping(grouping) => {
            let inner = State { control: Control::Evaluate(grouping.expression, env), ..state };
            law_machine_agrees_with_reference(grouping.expression, env, inner, round, text);
            let first = Step { state: inner, action: Action::Continue };
            lemma_reach_one(state, first, round, text);
            let end = ended(inner, reference(grouping.expression, round, text));
            lemma_reach_then(state, 1, first, cost(grouping.expression, round, text), end, round, text);
        },
        Expr::Unary(unary) => {
            lemma_unary_agrees(expression, env, state, round, text);
        },
        Expr::Binary(binary) => {
            lemma_binary_agrees(expression, env, state, round, text);
        },
        Expr::Logical(logical) => {
            lemma_logical_agrees(expression, env, state, round, text);
        },
        Expr::Assign(assign) => {
            lemma_assign_agrees(expression, env, state, round, text);
        },
        Expr::Get(get) => {
            lemma_get_agrees(expression, env, state, round, text);
        },
        Expr::SetField(set) => {
            lemma_set_agrees(expression, env, state, round, text);
        },
        Expr::Call(call) => {
            lemma_call_agrees(expression, env, state, round, text);
        },
    }
}

/// The case of a unary expression.
proof fn lemma_unary_agrees(
    expression: Rc<Expr>,
    env: usize,
    state: State,
    round: spec_fn(Operation, u64, u64) -> u64,
    text: spec_fn(Seq<char>) -> String,
)
    requires
        bare(state),
        state.control == Control::Evaluate(expression, env),
        forall|characters: Seq<char>| (#[trigger] text(characters))@ == characters,
        *expression is Unary,
    ensures
        agrees(state, expression, round, text),
    decreases expression, 0nat,
{
    let unary = unary_of(expression);
    let below = state.stack;
    let frame = Frame::Unary(unary.operator);
    let started = moved(state, below.push(frame), Control::Evaluate(unary.right, env));
    lemma_step_evaluates(state, expression, env, round, text);
    law_machine_agrees_with_reference(unary.right, env, started, round, text);
    lemma_operand_first(state, frame, unary.right, env, round, text);
    let steps = 1 + cost(unary.right, round, text);
    match reference(unary.right, round, text) {
        Err(_) => {},
        Ok(value) => {
            let arrived = moved(state, below.push(frame), Control::Value(value));
            let mid = Step { state: arrived, action: Action::Continue };
            lemma_unary_step(arrived, below, unary.operator, value, round, text);
            let end = ended(state, reference(expression, round, text));
            lemma_reach_one(arrived, end, round, text);
            lemma_reach_then(state, steps, mid, 1, end, round, text);
        },
    }
}

/// The case of a binary expression.
proof fn lemma_binary_agrees(
    expression: Rc<Expr>,
    env: usize,
    state: State,
    round: spec_fn(Operation, u64, u64) -> u64,
    text: spec_fn(Seq<char>) -> String,
)
    requires
        bare(state),
        state.control == Control::Evaluate(expression, env),
        forall|characters: Seq<char>| (#[trigger] text(characters))@ == characters,
        *expression is Binary,
    ensures
        agrees(state, expression, round, text),
    decreases expression, 0nat,
{
    let binary = binary_of(expression);
    let below = state.stack;
    let frame = Frame::BinaryRight(binary.op, binary.right, env);
    let started = moved(state, below.push(frame), Control::Evaluate(binary.left, env));
    lemma_step_evaluates(state, expression, env, round, text);
    law_machine_agrees_with_reference(binary.left, env, started, round, text);
    lemma_operand_first(state, frame, binary.left, env, round, text);
    let steps = 1 + cost(binary.left, round, text);
    let end = ended(state, reference(expression, round, text));
    match reference(binary.left, round, text) {
        Err(_) => {},
        Ok(left) => {
            let arrived = moved(state, below.push(frame), Control::Value(left));
            let mid = Step { state: arrived, action: Action::Continue };
            lemma_binary_right_step(arrived, below, binary.op, binary.right, env, left, round, text);
            let second = Frame::BinaryApply(binary.op, left);
            let lowered = moved(state, below, Control::Evaluate(binary.right, env));
            let restarted = moved(state, below.push(second), Control::Evaluate(binary.right, env));
            assert(lowered.stack.push(second) == restarted.stack);
            let again = Step { state: restarted, action: Action::Continue };
            lemma_reach_one(arrived, again, round, text);
            lemma_reach_then(state, steps, mid, 1, again, round, text);
            law_machine_agrees_with_reference(binary.right, env, restarted, round, text);
            let more = cost(binary.right, round, text);
            let operand_end = ended(restarted, reference(binary.right, round, text));
            lemma_reach_then(state, steps + 1, again, more, operand_end, round, text);
            match reference(binary.right, round, text) {
                Err(_) => {},
                Ok(right) => {
                    let applying = moved(state, below.push(second), Control::Value(right));
                    lemma_binary_apply_steps(applying, below, binary.op, left, right, round, text);
                    let last: nat = if binary_outcome(binary.op.token_type, left, right) is Arithmetic {
                        2
                    } else {
                        1
                    };
                    assert(ended(
                        moved(applying, below, applying.control),
                        applied(binary.op, left, right, round, text),
                    ) == end);
                    lemma_reach_then(state, steps + 1 + more, operand_end, last, end, round, text);
                },
            }
        },
    }
}

/// The case of `or` and `and`.
proof fn lemma_logical_agrees(
    expression: Rc<Expr>,
    env: usize,
    state: State,
    round: spec_fn(Operation, u64, u64) -> u64,
    text: spec_fn(Seq<char>) -> String,
)
    requires
        bare(state),
        state.control == Control::Evaluate(expression, env),
        forall|characters: Seq<char>| (#[trigger] text(characters))@ == characters,
        *expression is Logical,
    ensures
        agrees(state, expression, round, text),
    decreases expression, 0nat,
{
    let logical = logical_of(expression);
    let below = state.stack;
    let frame = Frame::Logical(logical.op, logical.right, env);
    let started = moved(state, below.push(frame), Control::Evaluate(logical.left, env));
    lemma_step_evaluates(state, expression, env, round, text);
    law_machine_agrees_with_reference(logical.left, env, started, round, text);
    lemma_operand_first(state, frame, logical.left, env, round, text);
    let steps = 1 + cost(logical.left, round, text);
    let end = ended(state, reference(expression, round, text));
    match reference(logical.left, round, text) {
        Err(_) => {},
        Ok(left) => {
            let arrived = moved(state, below.push(frame), Control::Value(left));
            let mid = Step { state: arrived, action: Action::Continue };
            lemma_logical_step(arrived, below, logical.op, logical.right, env, left, round, text);
            if short_circuits(logical.op.token_type, left) {
                lemma_reach_one(arrived, end, round, text);
                lemma_reach_then(state, steps, mid, 1, end, round, text);
            } else {
                let second = moved(state, below, Control::Evaluate(logical.right, env));
                let again = Step { state: second, action: Action::Continue };
                lemma_reach_one(arrived, again, round, text);
                lemma_reach_then(state, steps, mid, 1, again, round, text);
                law_machine_agrees_with_reference(logical.right, env, second, round, text);
                assert(ended(second, reference(logical.right, round, text)) == end);
                lemma_reach_then(state, steps + 1, again, cost(logical.right, round, text), end, round, text);
            }
        },
    }
}

/// The case of an assignment.
proof fn lemma_assign_agrees(
    expression: Rc<Expr>,
    env: usize,
    state: State,
    round: spec_fn(Operation, u64, u64) -> u64,
    text: spec_fn(Seq<char>) -> String,
)
    requires
        bare(state),
        state.control == Control::Evaluate(expression, env),
        forall|characters: Seq<char>| (#[trigger] text(characters))@ == characters,
        *expression is Assign,
    ensures
        agrees(state, expression, round, text),
    decreases expression, 0nat,
{
    let assign = assign_of(expression);
    let below = state.stack;
    let frame = Frame::Assign(assign.name, env);
    let started = moved(state, below.push(frame), Control::Evaluate(assign.value, env));
    lemma_step_evaluates(state, expression, env, round, text);
    law_machine_agrees_with_reference(assign.value, env, started, round, text);
    lemma_operand_first(state, frame, assign.value, env, round, text);
    let steps = 1 + cost(assign.value, round, text);
    let end = ended(state, reference(expression, round, text));
    match reference(assign.value, round, text) {
        Err(_) => {},
        Ok(value) => {
            let arrived = moved(state, below.push(frame), Control::Value(value));
            let mid = Step { state: arrived, action: Action::Continue };
            lemma_assign_step(arrived, below, assign.name, env, value, round, text);
            lemma_reach_one(arrived, end, round, text);
            lemma_reach_then(state, steps, mid, 1, end, round, text);
        },
    }
}

/// The case of a property access.
proof fn lemma_get_agrees(
    expression: Rc<Expr>,
    env: usize,
    state: State,
    round: spec_fn(Operation, u64, u64) -> u64,
    text: spec_fn(Seq<char>) -> String,
)
    requires
        bare(state),
        state.control == Control::Evaluate(expression, env),
        forall|characters: Seq<char>| (#[trigger] text(characters))@ == characters,
        *expression is Get,
    ensures
        agrees(state, expression, round, text),
    decreases expression, 0nat,
{
    let get = get_of(expression);
    let below = state.stack;
    let frame = Frame::Get(get.name);
    let started = moved(state, below.push(frame), Control::Evaluate(get.object, env));
    lemma_step_evaluates(state, expression, env, round, text);
    law_machine_agrees_with_reference(get.object, env, started, round, text);
    lemma_operand_first(state, frame, get.object, env, round, text);
    let steps = 1 + cost(get.object, round, text);
    let end = ended(state, reference(expression, round, text));
    match reference(get.object, round, text) {
        Err(_) => {},
        Ok(value) => {
            let arrived = moved(state, below.push(frame), Control::Value(value));
            let mid = Step { state: arrived, action: Action::Continue };
            lemma_get_step(arrived, below, get.name, value, round, text);
            lemma_reach_one(arrived, end, round, text);
            lemma_reach_then(state, steps, mid, 1, end, round, text);
        },
    }
}

/// The case of a property assignment.
proof fn lemma_set_agrees(
    expression: Rc<Expr>,
    env: usize,
    state: State,
    round: spec_fn(Operation, u64, u64) -> u64,
    text: spec_fn(Seq<char>) -> String,
)
    requires
        bare(state),
        state.control == Control::Evaluate(expression, env),
        forall|characters: Seq<char>| (#[trigger] text(characters))@ == characters,
        *expression is SetField,
    ensures
        agrees(state, expression, round, text),
    decreases expression, 0nat,
{
    let set = set_of(expression);
    let below = state.stack;
    let frame = Frame::SetObject(set.name, set.value, env);
    let started = moved(state, below.push(frame), Control::Evaluate(set.object, env));
    lemma_step_evaluates(state, expression, env, round, text);
    law_machine_agrees_with_reference(set.object, env, started, round, text);
    lemma_operand_first(state, frame, set.object, env, round, text);
    let steps = 1 + cost(set.object, round, text);
    let end = ended(state, reference(expression, round, text));
    match reference(set.object, round, text) {
        Err(_) => {},
        Ok(object) => {
            let arrived = moved(state, below.push(frame), Control::Value(object));
            let mid = Step { state: arrived, action: Action::Continue };
            lemma_set_object_step(arrived, below, set.name, set.value, env, object, round, text);
            match object {
                Value::Instance(id) => {
                    let second = Frame::SetValue(set.name, id);
                    let restarted = moved(state, below.push(second), Control::Evaluate(set.value, env));
                    let again = Step { state: restarted, action: Action::Continue };
                    lemma_reach_one(arrived, again, round, text);
                    lemma_reach_then(state, steps, mid, 1, again, round, text);
                    law_machine_agrees_with_reference(set.value, env, restarted, round, text);
                    let more = cost(set.value, round, text);
                    let operand_end = ended(restarted, reference(set.value, round, text));
                    lemma_reach_then(state, steps + 1, again, more, operand_end, round, text);
                    match reference(set.value, round, text) {
                        Err(_) => {},
                        Ok(value) => {
                            let storing = moved(state, below.push(second), Control::Value(value));
                            lemma_set_value_step(storing, below, set.name, id, value, round, text);
                            lemma_reach_one(storing, end, round, text);
                            lemma_reach_then(state, steps + 1 + more, operand_end, 1, end, round, text);
                        },
                    }
                },
                _ => {
                    lemma_reach_one(arrived, end, round, text);
                    lemma_reach_then(state, steps, mid, 1, end, round, text);
                },
            }
        },
    }
}

/// The error that a call ends with where nothing can be called: the first
/// error among its arguments, or that its callee is no function.
pub open spec fn call_error(
    arguments: Rc<List<Rc<Expr>>>,
    paren: Token,
    round: spec_fn(Operation, u64, u64) -> u64,
    text: spec_fn(Seq<char>) -> String,
) -> RuntimeError {
    match reference_arguments(arguments, round, text) {
        Some(error) => error,
        None => error_at(RuntimeErrorKind::NotCallable, paren),
    }
}

/// The arguments of a call: started on the first of them, the machine ends
/// with the first error among them, or with the error that the callee cannot
/// be called.
proof fn lemma_arguments_agree(
    arguments: Rc<List<Rc<Expr>>>,
    below: Seq<Frame>,
    callee: Value,
    paren: Token,
    env: usize,
    base: usize,
    state: State,
    round: spec_fn(Operation, u64, u64) -> u64,
    text: spec_fn(Seq<char>) -> String,
)
    requires
        bare(state),
        *arguments is Cons,
        state.control == Control::Evaluate(arguments->Cons_0, env),
        state.stack == below.push(Frame::Arguments(callee, paren, arguments->Cons_1, env, base)),
        forall|characters: Seq<char>| (#[trigger] text(characters))@ == characters,
    ensures
        reaches(
            state,
            cost_arguments(arguments, round, text),
            state.fail_with(call_error(arguments, paren, round, text)),
            round,
            text,
        ),
    decreases arguments, 2nat,
{
    let first = head_of(arguments);
    let rest = tail_of(arguments);
    let error = call_error(arguments, paren, round, text);
    let end = state.fail_with(error);
    law_machine_agrees_with_reference(first, env, state, round, text);
    let steps = cost(first, round, text);
    match reference(first, round, text) {
        Err(_) => {},
        Ok(value) => {
            let arrived = State { control: Control::Value(value), ..state };
            let mid = Step { state: arrived, action: Action::Continue };
            lemma_argument_step(arrived, below, callee, paren, rest, env, base, value, round, text);
            match *rest {
                List::Nil => {
                    assert(reference_arguments(rest, round, text) is None);
                    assert(cost_arguments(rest, round, text) == 0);
                    lemma_reach_one(arrived, end, round, text);
                    lemma_reach_then(state, steps, mid, 1, end, round, text);
                },
                List::Cons(second, others) => {
                    let next = State {
                        stack: below.push(Frame::Arguments(callee, paren, others, env, base)),
                        values: state.values.push(value),
                        control: Control::Evaluate(second, env),
                        ..state
                    };
                    let again = Step { state: next, action: Action::Continue };
                    lemma_reach_one(arrived, again, round, text);
                    lemma_reach_then(state, steps, mid, 1, again, round, text);
                    lemma_arguments_agree(rest, below, callee, paren, env, base, next, round, text);
                    let rest_error = call_error(rest, paren, round, text);
                    assert(next.fail_with(rest_error) == end);
                    lemma_reach_then(
                        state,
                        steps + 1,
                        again,
                        cost_arguments(rest, round, text),
                        end,
                        round,
                        text,
                    );
                },
            }
        },
    }
}

/// The case of a call.
proof fn lemma_call_agrees(
    expression: Rc<Expr>,
    env: usize,
    state: State,
    round: spec_fn(Operation, u64, u64) -> u64,
    text: spec_fn(Seq<char>) -> String,
)
    requires
        bare(state),
        state.control == Control::Evaluate(expression, env),
        forall|characters: Seq<char>| (#[trigger] text(characters))@ == characters,
        *expression is Call,
    ensures
        agrees(state, expression, round, text),
    decreases expression, 0nat,
{
    let call = call_of(expression);
    let below = state.stack;
    let frame = Frame::Callee(call.parent, call.arguments, env);
    let started = moved(state, below.push(frame), Control::Evaluate(call.calling, env));
    lemma_step_evaluates(state, expression, env, round, text);
    law_machine_agrees_with_reference(call.calling, env, started, round, text);
    lemma_operand_first(state, frame, call.calling, env, round, text);
    let steps = 1 + cost(call.calling, round, text);
    let end = ended(state, reference(expression, round, text));
    match reference(call.calling, round, text) {
        Err(_) => {},
        Ok(callee) => {
            let arrived = moved(state, below.push(frame), Control::Value(callee));
            let mid = Step { state: arrived, action: Action::Continue };
            lemma_callee_step(arrived, below, call.parent, call.arguments, env, callee, round, text);
            match *call.arguments {
                List::Nil => {
                    assert(reference_arguments(call.arguments, round, text) is None);
                    assert(cost_arguments(call.arguments, round, text) == 0);
                    lemma_reach_one(arrived, end, round, text);
                    lemma_reach_then(state, steps, mid, 1, end, round, text);
                },
                List::Cons(head, tail) => {
                    let base = state.values.len() as usize;
                    let next = moved(
                        state,
                        below.push(Frame::Arguments(callee, call.parent, tail, env, base)),
                        Control::Evaluate(head, env),
                    );
                    let again = Step { state: next, action: Action::Continue };
                    lemma_reach_one(arrived, again, round, text);
                    lemma_reach_then(state, steps, mid, 1, again, round, text);
                    lemma_arguments_agree(
                        call.arguments,
                        below,
                        callee,
                        call.parent,
                        env,
                        base,
                        next,
                        round,
                        text,
                    );
                    let error = call_error(call.arguments, call.parent, round, text);
                    assert(next.fail_with(error) == end);
                    lemma_reach_then(
                        state,
                        steps + 1,
                        again,
                        cost_arguments(call.arguments, round, text),
                        end,
                        round,
                        text,
                    );
                },
            }
        },
    }
}

} // verus!
