//! Environments: the frames in which names are bound, and the chain that
//! lexical scoping looks them up in.
//!
//! Frames live in one arena and refer to the frame around them by its index.
//! A frame is always made after the frame around it, so following `enclosing`
//! leads to ever smaller indices and ends.

use vstd::prelude::*;
use crate::error::{error_at, RuntimeError, RuntimeErrorKind};
use crate::table::Table;
use crate::token::Token;
use crate::value::Value;

verus! {

/// One frame of bindings and the frame around it.
pub struct Environment {
    pub enclosing: Option<usize>,
    pub values: Table<Value>,
}

/// A frame as a map from names to values.
pub struct Scope {
    pub enclosing: Option<usize>,
    pub values: Map<Seq<char>, Value>,
}

impl View for Environment {
    type V = Scope;

    open spec fn view(&self) -> Scope {
        Scope { enclosing: self.enclosing, values: self.values@ }
    }
}

/// The frames of an arena, each as a map.
pub open spec fn scopes(environments: Seq<Environment>) -> Seq<Scope> {
    Seq::new(environments.len(), |i: int| environments[i]@)
}

/// The frame in which `name` is bound as seen from the frame `at`: the
/// nearest one along the chain that binds it.
pub open spec fn resolve(frames: Seq<Scope>, at: int, name: Seq<char>) -> Option<int>
    decreases at,
{
    if 0 <= at < frames.len() {
        if frames[at].values.contains_key(name) {
            Some(at)
        } else {
            match frames[at].enclosing {
                Some(outer) => if outer < at {
                    resolve(frames, outer as int, name)
                } else {
                    None
                },
                None => None,
            }
        }
    } else {
        None
    }
}

/// The value of `name` as seen from the frame `at`.
pub open spec fn lookup(frames: Seq<Scope>, at: int, name: Seq<char>) -> Option<Value> {
    match resolve(frames, at, name) {
        Some(frame) => Some(frames[frame].values[name]),
        None => None,
    }
}

/// The frames after `name` is bound to `value` in the frame `at`.
pub open spec fn defined(frames: Seq<Scope>, at: int, name: Seq<char>, value: Value) -> Seq<Scope> {
    if 0 <= at < frames.len() {
        frames.update(
            at,
            Scope { enclosing: frames[at].enclosing, values: frames[at].values.insert(name, value) },
        )
    } else {
        frames
    }
}

/// The frames after `value` is assigned to `name` as seen from the frame
/// `at`; `None` if no frame along the chain binds `name`.
pub open spec fn assigned(frames: Seq<Scope>, at: int, name: Seq<char>, value: Value) -> Option<
    Seq<Scope>,
> {
    match resolve(frames, at, name) {
        Some(frame) => Some(defined(frames, frame, name, value)),
        None => None,
    }
}

/// The frame that `resolve` finds is a frame of the arena, not behind `at`,
/// and binds the name.
pub proof fn lemma_resolve_bounds(frames: Seq<Scope>, at: int, name: Seq<char>)
    ensures
        resolve(frames, at, name) matches Some(frame) ==> 0 <= frame <= at && frame < frames.len()
            && frames[frame].values.contains_key(name),
    decreases at,
{
    if 0 <= at < frames.len() && !frames[at].values.contains_key(name) {
        match frames[at].enclosing {
            Some(outer) => {
                if outer < at {
                    lemma_resolve_bounds(frames, outer as int, name);
                }
            },
            None => {},
        }
    }
}

/// Defining a name twice leaves the later value: `var x = 1; var x = 2;`
/// makes `x` read as 2.
pub proof fn law_redefinition(frames: Seq<Scope>, at: int, name: Seq<char>, first: Value, second: Value)
    requires
        0 <= at < frames.len(),
    ensures
        lookup(defined(defined(frames, at, name, first), at, name, second), at, name) == Some(second),
        defined(defined(frames, at, name, first), at, name, second) == defined(frames, at, name, second),
{
    let once = defined(frames, at, name, first);
    let twice = defined(once, at, name, second);
    assert(twice =~= defined(frames, at, name, second)) by {
        assert(frames[at].values.insert(name, first).insert(name, second) =~= frames[at].values.insert(
            name,
            second,
        ));
    }
}

/// What a frame sees does not depend on frames made after it: a change to
/// the frame `inner` is invisible from any frame `outer` in front of it.
pub proof fn lemma_resolve_ignores_later(
    frames: Seq<Scope>,
    changed: Seq<Scope>,
    inner: int,
    outer: int,
    name: Seq<char>,
)
    requires
        outer < inner,
        changed.len() == frames.len(),
        forall|i: int| 0 <= i < inner && i < frames.len() ==> #[trigger] changed[i] == frames[i],
    ensures
        resolve(changed, outer, name) == resolve(frames, outer, name),
    decreases outer,
{
    if 0 <= outer < frames.len() {
        assert(changed[outer] == frames[outer]);
        if !frames[outer].values.contains_key(name) {
            match frames[outer].enclosing {
                Some(next) => {
                    if next < outer {
                        lemma_resolve_ignores_later(frames, changed, inner, next as int, name);
                    }
                },
                None => {},
            }
        }
    }
}

/// A variable defined inside a block is not visible outside it: binding a
/// name in the frame `inner` changes nothing that a frame made before it
/// sees.
pub proof fn law_inner_definition_is_local(
    frames: Seq<Scope>,
    inner: int,
    outer: int,
    defined_name: Seq<char>,
    value: Value,
    name: Seq<char>,
)
    requires
        0 <= outer < inner,
    ensures
        lookup(defined(frames, inner, defined_name, value), outer, name) == lookup(frames, outer, name),
{
    let changed = defined(frames, inner, defined_name, value);
    lemma_resolve_ignores_later(frames, changed, inner, outer, name);
    lemma_resolve_bounds(frames, outer, name);
}

/// A variable assigned inside a block changes the binding outside it: after
/// an assignment from the frame `inner` to a name that the frame `outer`
/// along its chain binds, `outer` itself reads the new value.
pub proof fn law_assignment_reaches_outside(
    frames: Seq<Scope>,
    inner: int,
    outer: int,
    name: Seq<char>,
    value: Value,
)
    requires
        resolve(frames, inner, name) == Some(outer),
    ensures
        assigned(frames, inner, name, value) matches Some(changed) && lookup(changed, outer, name)
            == Some(value) && lookup(changed, inner, name) == Some(value),
{
    lemma_resolve_bounds(frames, inner, name);
    let changed = defined(frames, outer, name, value);
    assert(changed[outer].values.contains_key(name));
    lemma_resolve_after_assignment(frames, inner, outer, name, value);
}

/// Assigning to a name where it is bound does not change where it is found.
pub proof fn lemma_resolve_after_assignment(
    frames: Seq<Scope>,
    at: int,
    target: int,
    name: Seq<char>,
    value: Value,
)
    requires
        resolve(frames, at, name) == Some(target),
    ensures
        resolve(defined(frames, target, name, value), at, name) == Some(target),
    decreases at,
{
    lemma_resolve_bounds(frames, at, name);
    let changed = defined(frames, target, name, value);
    if frames[at].values.contains_key(name) {
        assert(changed[at].values.contains_key(name));
    } else {
        assert(changed[at] == frames[at]);
        match frames[at].enclosing {
            Some(outer) => {
                lemma_resolve_after_assignment(frames, outer as int, target, name, value);
            },
            None => {},
        }
    }
}

/// Assigning to a name in a frame that binds it changes nothing about where
/// that name is found, from any frame.
pub proof fn lemma_resolve_same_after_assignment(
    frames: Seq<Scope>,
    target: int,
    name: Seq<char>,
    value: Value,
    at: int,
)
    requires
        0 <= target < frames.len(),
        frames[target].values.contains_key(name),
    ensures
        resolve(defined(frames, target, name, value), at, name) == resolve(frames, at, name),
    decreases at,
{
    let changed = defined(frames, target, name, value);
    if 0 <= at < frames.len() {
        if at == target {
            assert(changed[at].values.contains_key(name));
        } else {
            assert(changed[at] == frames[at]);
        }
        if !frames[at].values.contains_key(name) {
            match frames[at].enclosing {
                Some(outer) => {
                    if outer < at {
                        lemma_resolve_same_after_assignment(frames, target, name, value, outer as int);
                    }
                },
                None => {},
            }
        }
    }
}

/// An assignment changes one frame, the one in which the name is found, and
/// leaves every other frame as it was.
pub proof fn law_assignment_changes_one_frame(
    frames: Seq<Scope>,
    at: int,
    name: Seq<char>,
    value: Value,
    other: int,
)
    requires
        resolve(frames, at, name) is Some,
        0 <= other < frames.len(),
        resolve(frames, at, name) != Some(other),
    ensures
        assigned(frames, at, name, value) matches Some(changed) && changed.len() == frames.len()
            && changed[other] == frames[other],
{
    lemma_resolve_bounds(frames, at, name);
}

/// Two closures do not share a variable that each finds in a frame of its
/// own: where a name is found in one frame as seen from `first` and in
/// another as seen from `second`, an assignment from `first` is read back
/// from `first` and leaves what `second` reads as it was.
pub proof fn law_separate_frames_do_not_share(
    frames: Seq<Scope>,
    first: int,
    second: int,
    name: Seq<char>,
    value: Value,
)
    requires
        resolve(frames, first, name) is Some,
        resolve(frames, second, name) is Some,
        resolve(frames, first, name) != resolve(frames, second, name),
    ensures
        assigned(frames, first, name, value) matches Some(changed) && lookup(changed, first, name)
            == Some(value) && lookup(changed, second, name) == lookup(frames, second, name),
{
    lemma_resolve_bounds(frames, first, name);
    lemma_resolve_bounds(frames, second, name);
    let target = resolve(frames, first, name)->Some_0;
    let kept = resolve(frames, second, name)->Some_0;
    lemma_resolve_same_after_assignment(frames, target, name, value, first);
    lemma_resolve_same_after_assignment(frames, target, name, value, second);
    let changed = defined(frames, target, name, value);
    assert(changed[kept] == frames[kept]);
}

/// A closure reads and writes the variables of the call that made it, and
/// two closures made by two calls do not share them. Let `made_first` and
/// `made_second` be the frames of two calls, each binding `name`, and
/// `first` and `second` frames that lie directly inside them and do not bind
/// it, as the frames of the closures' own calls do. Then an assignment from
/// `first` lands in `made_first`: `first` reads the new value back, and
/// `second` still reads what `made_second` holds.
pub proof fn law_closures_keep_their_own_variables(
    frames: Seq<Scope>,
    first: int,
    made_first: usize,
    second: int,
    made_second: usize,
    name: Seq<char>,
    value: Value,
)
    requires
        made_first < first < frames.len(),
        made_second < second < frames.len(),
        frames[first].enclosing == Some(made_first),
        frames[second].enclosing == Some(made_second),
        !frames[first].values.contains_key(name),
        !frames[second].values.contains_key(name),
        frames[made_first as int].values.contains_key(name),
        frames[made_second as int].values.contains_key(name),
        made_first != made_second,
    ensures
        assigned(frames, first, name, value) matches Some(changed) && lookup(changed, first, name)
            == Some(value) && lookup(changed, made_first as int, name) == Some(value) && lookup(
            changed,
            second,
            name,
        ) == Some(frames[made_second as int].values[name]),
{
    assert(resolve(frames, made_first as int, name) == Some(made_first as int));
    assert(resolve(frames, made_second as int, name) == Some(made_second as int));
    assert(resolve(frames, first, name) == Some(made_first as int));
    assert(resolve(frames, second, name) == Some(made_second as int));
    law_separate_frames_do_not_share(frames, first, second, name, value);
    lemma_resolve_same_after_assignment(frames, made_first as int, name, value, made_first as int);
}

impl Environment {
    /// A frame with nothing around it.
    pub fn new() -> (environment: Self)
        ensures
            environment@ == (Scope { enclosing: None, values: Map::empty() }),
    {
        Environment { enclosing: None, values: Table::new() }
    }

    /// An empty frame inside the frame `env`.
    pub fn new_child(env: usize) -> (environment: Self)
        ensures
            environment@ == (Scope { enclosing: Some(env), values: Map::empty() }),
    {
        Environment { enclosing: Some(env), values: Table::new() }
    }

    /// Binds `key` to `value` in this frame, whether or not it was bound.
    pub fn define(&mut self, key: String, value: Value)
        ensures
            final(self)@ == (Scope {
                enclosing: old(self).enclosing,
                values: old(self)@.values.insert(key@, value),
            }),
    {
        self.values.insert(key, value);
    }

    /// The index of the frame that binds `name` as seen from the frame `at`.
    pub fn find(environments: &Vec<Environment>, at: usize, name: &String) -> (found: Option<usize>)
        ensures
            found matches Some(frame) ==> resolve(scopes(environments@), at as int, name@) == Some(
                frame as int,
            ) && frame < environments@.len(),
            found is None ==> resolve(scopes(environments@), at as int, name@) is None,
    {
        let mut frame = at;
        loop
            invariant
                frame <= at,
                resolve(scopes(environments@), frame as int, name@) == resolve(
                    scopes(environments@),
                    at as int,
                    name@,
                ),
            decreases frame,
        {
            if frame >= environments.len() {
                return None;
            }
            if environments[frame].values.contains_key(name) {
                return Some(frame);
            }
            match environments[frame].enclosing {
                Some(outer) => {
                    if outer < frame {
                        frame = outer;
                    } else {
                        return None;
                    }
                },
                None => {
                    return None;
                },
            }
        }
    }

    /// The value of `name` as seen from the frame `at`.
    pub fn get_by_string(environments: &Vec<Environment>, at: usize, name: &String) -> (value: Option<
        Value,
    >)
        ensures
            value == lookup(scopes(environments@), at as int, name@),
    {
        proof {
            lemma_resolve_bounds(scopes(environments@), at as int, name@);
        }
        match Self::find(environments, at, name) {
            Some(frame) => match environments[frame].values.get(name) {
                Some(value) => Some(value.clone()),
                None => None,
            },
            None => None,
        }
    }

    /// The value of the variable `name` as seen from the frame `at`, or the
    /// error that it is undefined.
    pub fn get(environments: &Vec<Environment>, at: usize, name: &Token) -> (value: Result<
        Value,
        RuntimeError,
    >)
        ensures
            value == match lookup(scopes(environments@), at as int, name.lexeme@) {
                Some(found) => Ok::<Value, RuntimeError>(found),
                None => Err(error_at(RuntimeErrorKind::UndefinedVariable, *name)),
            },
    {
        match Self::get_by_string(environments, at, &name.lexeme) {
            Some(found) => Ok(found),
            None => Err(RuntimeError::at(RuntimeErrorKind::UndefinedVariable, name.clone())),
        }
    }

    /// Assigns `value` to `name` as seen from the frame `at`: in the nearest
    /// frame that binds it. Returns whether there is one.
    pub fn assign(environments: &mut Vec<Environment>, at: usize, name: &Token, value: Value) -> (done:
        bool)
        ensures
            match assigned(scopes(old(environments)@), at as int, name.lexeme@, value) {
                Some(changed) => done && scopes(final(environments)@) == changed,
                None => !done && scopes(final(environments)@) == scopes(old(environments)@),
            },
            final(environments)@.len() == old(environments)@.len(),
    {
        match Self::find(environments, at, &name.lexeme) {
            Some(frame) => {
                proof {
                    lemma_resolve_bounds(scopes(environments@), at as int, name.lexeme@);
                }
                Self::define_in(environments, frame, name.lexeme.clone(), value);
                true
            },
            None => false,
        }
    }

    /// Binds `key` to `value` in the frame `at`; does nothing if there is no
    /// such frame.
    pub fn define_in(environments: &mut Vec<Environment>, at: usize, key: String, value: Value)
        ensures
            scopes(final(environments)@) == defined(scopes(old(environments)@), at as int, key@, value),
            final(environments)@.len() == old(environments)@.len(),
    {
        if at < environments.len() {
            let ghost before = environments@;
            let mut frame = Environment { enclosing: environments[at].enclosing, values: Table::new() };
            std::mem::swap(&mut frame.values, &mut environments[at].values);
            frame.define(key, value);
            environments.set(at, frame);
            assert(scopes(environments@) =~= defined(scopes(before), at as int, key@, value));
        }
    }
}

} // verus!
