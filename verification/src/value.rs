//! Runtime values, and number arithmetic that needs no rounding.

use vstd::prelude::*;
use vstd::std_specs::cmp::PartialEqSpecImpl;
use std::rc::Rc;
use crate::statements::Function;
use crate::table::Table;
use crate::token::Token;

verus! {

/// A runtime value.
///
/// A number is an IEEE-754 binary64 value, held as its bit pattern. Functions,
/// classes and instances are handles into the interpreter's heap; two such
/// values are the same object exactly when the handles are equal.
#[derive(Debug)]
pub enum Value {
    String(String),
    Number(u64),
    Bool(bool),
    Nil,
    Function(usize),
    Class(usize),
    Instance(usize),
}

/// The sign bit of a binary64 pattern.
pub const SIGN_BIT: u64 = 0x8000_0000_0000_0000;

/// The pattern of positive infinity; every larger magnitude is a NaN.
pub const INFINITY_BITS: u64 = 0x7ff0_0000_0000_0000;

/// The pattern without its sign bit.
pub open spec fn magnitude(bits: u64) -> u64 {
    if bits >= SIGN_BIT {
        (bits - SIGN_BIT) as u64
    } else {
        bits
    }
}

pub open spec fn is_negative(bits: u64) -> bool {
    bits >= SIGN_BIT
}

pub open spec fn is_nan(bits: u64) -> bool {
    magnitude(bits) > INFINITY_BITS
}

/// Positive or negative zero.
pub open spec fn is_zero(bits: u64) -> bool {
    magnitude(bits) == 0
}

/// IEEE equality: a NaN equals nothing, the two zeros equal each other.
pub open spec fn number_eq(a: u64, b: u64) -> bool {
    &&& !is_nan(a)
    &&& !is_nan(b)
    &&& (a == b || (is_zero(a) && is_zero(b)))
}

/// IEEE `<`: false when either side is a NaN.
pub open spec fn number_lt(a: u64, b: u64) -> bool {
    &&& !is_nan(a)
    &&& !is_nan(b)
    &&& !(is_zero(a) && is_zero(b))
    &&& if is_negative(a) {
        !is_negative(b) || magnitude(a) > magnitude(b)
    } else {
        !is_negative(b) && magnitude(a) < magnitude(b)
    }
}

/// IEEE `<=`.
pub open spec fn number_le(a: u64, b: u64) -> bool {
    number_lt(a, b) || number_eq(a, b)
}

/// IEEE negation: the sign bit flipped, of a NaN too.
pub open spec fn number_neg(a: u64) -> u64 {
    if a >= SIGN_BIT {
        (a - SIGN_BIT) as u64
    } else {
        (a + SIGN_BIT) as u64
    }
}

/// Equality of values: by content for strings, numbers, booleans and nil, by
/// identity for functions, classes and instances; values of different kinds
/// are never equal.
pub open spec fn values_equal(a: Value, b: Value) -> bool {
    match (a, b) {
        (Value::String(x), Value::String(y)) => x@ == y@,
        (Value::Number(x), Value::Number(y)) => number_eq(x, y),
        (Value::Bool(x), Value::Bool(y)) => x == y,
        (Value::Nil, Value::Nil) => true,
        (Value::Function(x), Value::Function(y)) => x == y,
        (Value::Class(x), Value::Class(y)) => x == y,
        (Value::Instance(x), Value::Instance(y)) => x == y,
        _ => false,
    }
}

/// `false` and nil are falsy; every other value is truthy.
pub open spec fn truthy(value: Value) -> bool {
    match value {
        Value::Bool(b) => b,
        Value::Nil => false,
        _ => true,
    }
}

fn bits_magnitude(bits: u64) -> (m: u64)
    ensures
        m == magnitude(bits),
{
    if bits >= SIGN_BIT {
        bits - SIGN_BIT
    } else {
        bits
    }
}

/// Whether the number is a zero of either sign.
pub fn bits_is_zero(bits: u64) -> (zero: bool)
    ensures
        zero == is_zero(bits),
{
    bits_magnitude(bits) == 0
}

/// Whether the number is a NaN.
pub fn bits_is_nan(bits: u64) -> (nan: bool)
    ensures
        nan == is_nan(bits),
{
    bits_magnitude(bits) > INFINITY_BITS
}

/// `a == b` on numbers.
pub fn bits_eq(a: u64, b: u64) -> (equal: bool)
    ensures
        equal == number_eq(a, b),
{
    !bits_is_nan(a) && !bits_is_nan(b) && (a == b || (bits_is_zero(a) && bits_is_zero(b)))
}

/// `a < b` on numbers.
pub fn bits_lt(a: u64, b: u64) -> (less: bool)
    ensures
        less == number_lt(a, b),
{
    if bits_is_nan(a) || bits_is_nan(b) || (bits_is_zero(a) && bits_is_zero(b)) {
        false
    } else if a >= SIGN_BIT {
        b < SIGN_BIT || bits_magnitude(a) > bits_magnitude(b)
    } else {
        b < SIGN_BIT && bits_magnitude(a) < bits_magnitude(b)
    }
}

/// `a <= b` on numbers.
pub fn bits_le(a: u64, b: u64) -> (at_most: bool)
    ensures
        at_most == number_le(a, b),
{
    bits_lt(a, b) || bits_eq(a, b)
}

/// `-a` on numbers.
pub fn bits_neg(a: u64) -> (negated: u64)
    ensures
        negated == number_neg(a),
{
    if a >= SIGN_BIT {
        a - SIGN_BIT
    } else {
        a + SIGN_BIT
    }
}

impl Clone for Value {
    fn clone(&self) -> (copy: Self)
        ensures
            copy == *self,
    {
        match self {
            Value::String(text) => Value::String(text.clone()),
            Value::Number(bits) => Value::Number(*bits),
            Value::Bool(b) => Value::Bool(*b),
            Value::Nil => Value::Nil,
            Value::Function(id) => Value::Function(*id),
            Value::Class(id) => Value::Class(*id),
            Value::Instance(id) => Value::Instance(*id),
        }
    }
}

impl PartialEq for Value {
    fn eq(&self, other: &Self) -> (equal: bool) {
        match (self, other) {
            (Value::String(x), Value::String(y)) => *x == *y,
            (Value::Number(x), Value::Number(y)) => bits_eq(*x, *y),
            (Value::Bool(x), Value::Bool(y)) => *x == *y,
            (Value::Nil, Value::Nil) => true,
            (Value::Function(x), Value::Function(y)) => *x == *y,
            (Value::Class(x), Value::Class(y)) => *x == *y,
            (Value::Instance(x), Value::Instance(y)) => *x == *y,
            _ => false,
        }
    }
}

impl PartialEqSpecImpl for Value {
    open spec fn obeys_eq_spec() -> bool {
        true
    }

    open spec fn eq_spec(&self, other: &Self) -> bool {
        values_equal(*self, *other)
    }
}

impl Value {
    /// Whether a condition holding this value takes the true branch.
    pub fn is_truthy(&self) -> (yes: bool)
        ensures
            yes == truthy(*self),
    {
        match self {
            Value::Bool(b) => *b,
            Value::Nil => false,
            _ => true,
        }
    }
}

/// A function value: a declaration together with the frame it was made in.
pub struct Callable {
    /// The number of arguments that a call must bring.
    pub arity: usize,
    /// The declaration; `None` for the built-in `clock`.
    pub declaration: Option<Rc<Function>>,
    /// The frame that the body's frame is made inside of on each call.
    pub environment: usize,
    /// Whether this is the `init` method of a class.
    pub is_initializer: bool,
}

/// A class.
pub struct Class {
    pub name: String,
    /// The arity of `init` where the class or a class above it has one, else 0.
    pub arity: usize,
    /// The class's own methods, each by the handle of its function.
    pub methods: Table<usize>,
    pub super_class: Option<usize>,
}

/// A class as a map from method names to functions.
pub struct ClassView {
    pub name: Seq<char>,
    pub arity: usize,
    pub methods: Map<Seq<char>, usize>,
    pub super_class: Option<usize>,
}

impl View for Class {
    type V = ClassView;

    open spec fn view(&self) -> ClassView {
        ClassView {
            name: self.name@,
            arity: self.arity,
            methods: self.methods@,
            super_class: self.super_class,
        }
    }
}

/// An instance of a class.
pub struct InstanceValue {
    pub class: usize,
    pub fields: Table<Value>,
}

/// An instance as a map from field names to values.
pub struct InstanceView {
    pub class: usize,
    pub fields: Map<Seq<char>, Value>,
}

impl View for InstanceValue {
    type V = InstanceView;

    open spec fn view(&self) -> InstanceView {
        InstanceView { class: self.class, fields: self.fields@ }
    }
}

/// The classes of an arena, each as a map.
pub open spec fn class_views(classes: Seq<Class>) -> Seq<ClassView> {
    Seq::new(classes.len(), |i: int| classes[i]@)
}

/// The instances of an arena, each as a map.
pub open spec fn instance_views(instances: Seq<InstanceValue>) -> Seq<InstanceView> {
    Seq::new(instances.len(), |i: int| instances[i]@)
}

/// The function that `name` names on the class `class`: its own method, or
/// else that of the nearest class above that has one.
pub open spec fn find_method(classes: Seq<ClassView>, class: int, name: Seq<char>) -> Option<usize>
    decreases class,
{
    if 0 <= class < classes.len() {
        if classes[class].methods.contains_key(name) {
            Some(classes[class].methods[name])
        } else {
            match classes[class].super_class {
                Some(above) => if above < class {
                    find_method(classes, above as int, name)
                } else {
                    None
                },
                None => None,
            }
        }
    } else {
        None
    }
}

impl Class {
    /// The function that `name` names on the class `class`.
    pub fn find_method(classes: &Vec<Class>, class: usize, name: &String) -> (found: Option<usize>)
        ensures
            found == find_method(class_views(classes@), class as int, name@),
    {
        let mut at = class;
        loop
            invariant
                at <= class,
                find_method(class_views(classes@), at as int, name@) == find_method(
                    class_views(classes@),
                    class as int,
                    name@,
                ),
            decreases at,
        {
            if at >= classes.len() {
                return None;
            }
            match classes[at].methods.get(name) {
                Some(function) => {
                    return Some(*function);
                },
                None => {},
            }
            match classes[at].super_class {
                Some(above) => {
                    if above < at {
                        at = above;
                    } else {
                        return None;
                    }
                },
                None => {
                    return None;
                },
            }
        }
    }
}

impl InstanceValue {
    /// The value of the field `name`, if the instance has one.
    pub fn get_value(&self, name: &Token) -> (value: Option<Value>)
        ensures
            value == if self@.fields.contains_key(name.lexeme@) {
                Some(self@.fields[name.lexeme@])
            } else {
                None
            },
    {
        match self.fields.get(&name.lexeme) {
            Some(value) => Some(value.clone()),
            None => None,
        }
    }

    /// Sets the field `name` to `value`, making the field if need be.
    pub fn set_value(&mut self, name: String, value: Value)
        ensures
            final(self)@ == (InstanceView {
                class: old(self).class,
                fields: old(self)@.fields.insert(name@, value),
            }),
    {
        self.fields.insert(name, value);
    }
}

} // verus!
