//! Runtime values.
use vstd::prelude::*;

use crate::chunk::Chunk;
use crate::compiler::type_safety::TypeTag;

verus! {

/// A built-in function of the standard library.
#[derive(Debug, Clone, Copy, PartialEq, Eq, Structural)]
pub enum Native {
    Print,
    Input,
    Floor,
    Sqrt,
    Round,
    Ceil,
    Pow,
    Trim,
    IsEmpty,
}

/// A value of the language. A float is held as the bits of its IEEE-754 binary64
/// encoding: the arithmetic on floats happens outside this library.
#[derive(Debug)]
pub enum Value {
    Bool(bool),
    Float(u64),
    Int(i64),
    Str(String),
    Char(char),
    Unt(u64),
    Array(Vec<Value>),
    Opt(OptWrapper),
    Function(Box<Function>),
    NativeFunction(Native),
    Void,
}

/// An optional value.
#[derive(Debug)]
pub enum OptWrapper {
    SomeValue(Box<Value>),
    NoValue,
}

/// A compiled function: its arity, its code and its name.
#[derive(Debug)]
pub struct Function {
    pub arity: usize,
    pub chunk: Chunk,
    pub name: String,
}

impl Function {
    /// A function of no parameters, with empty code and an empty name.
    pub fn new() -> (f: Function)
        ensures
            f.arity == 0,
            f.chunk.code@.len() == 0,
            f.chunk.line@.len() == 0,
            f.chunk.constants.values@.len() == 0,
            f.name@.len() == 0,
    {
        Function { arity: 0, chunk: Chunk::new(), name: String::new() }
    }
}

/// Whether `a` and `b` hold the same value: strings with the same characters, arrays
/// and functions with the same contents, and otherwise equal.
pub open spec fn same_value(a: Value, b: Value) -> bool
    decreases a, 0nat,
{
    match (a, b) {
        (Value::Str(x), Value::Str(y)) => x@ == y@,
        (Value::Array(x), Value::Array(y)) => same_values(x@, y@),
        (Value::Opt(OptWrapper::SomeValue(x)), Value::Opt(OptWrapper::SomeValue(y))) => same_value(
            *x,
            *y,
        ),
        (Value::Function(f), Value::Function(g)) => same_function(*f, *g),
        _ => a == b,
    }
}

/// Whether two sequences of values hold the same values, position by position.
pub open spec fn same_values(xs: Seq<Value>, ys: Seq<Value>) -> bool
    decreases xs, 1nat,
{
    &&& xs.len() == ys.len()
    &&& forall|i: int| 0 <= i < xs.len() ==> same_value(#[trigger] xs[i], ys[i])
}

/// Whether two functions have the same arity, code, lines, constants and name.
pub open spec fn same_function(f: Function, g: Function) -> bool
    decreases f, 0nat,
{
    &&& f.arity == g.arity
    &&& f.chunk.code@ == g.chunk.code@
    &&& f.chunk.line@ == g.chunk.line@
    &&& f.name@ == g.name@
    &&& same_values(f.chunk.constants.values@, g.chunk.constants.values@)
}

impl Clone for Value {
    fn clone(&self) -> (r: Self)
        ensures
            same_value(r, *self),
        decreases self, 0nat,
    {
        match self {
            Value::Bool(x) => Value::Bool(*x),
            Value::Float(x) => Value::Float(*x),
            Value::Int(x) => Value::Int(*x),
            Value::Str(x) => Value::Str(x.clone()),
            Value::Char(x) => Value::Char(*x),
            Value::Unt(x) => Value::Unt(*x),
            Value::Array(xs) => Value::Array(clone_values(xs)),
            Value::Opt(OptWrapper::SomeValue(x)) => Value::Opt(
                OptWrapper::SomeValue(Box::new((**x).clone())),
            ),
            Value::Opt(OptWrapper::NoValue) => Value::Opt(OptWrapper::NoValue),
            Value::Function(f) => Value::Function(Box::new(clone_function(&**f))),
            Value::NativeFunction(n) => Value::NativeFunction(*n),
            Value::Void => Value::Void,
        }
    }
}

impl Clone for OptWrapper {
    fn clone(&self) -> (r: Self)
        ensures
            same_value(Value::Opt(r), Value::Opt(*self)),
    {
        match self {
            OptWrapper::SomeValue(x) => OptWrapper::SomeValue(Box::new((**x).clone())),
            OptWrapper::NoValue => OptWrapper::NoValue,
        }
    }
}

impl Clone for Function {
    fn clone(&self) -> (r: Self)
        ensures
            same_function(r, *self),
    {
        clone_function(self)
    }
}

/// A copy of the values `xs`.
pub fn clone_values(xs: &Vec<Value>) -> (r: Vec<Value>)
    ensures
        same_values(r@, xs@),
    decreases xs, 1nat,
{
    let mut r: Vec<Value> = Vec::new();
    let mut i: usize = 0;
    while i < xs.len()
        invariant
            0 <= i <= xs.len(),
            same_values(r@, xs@.subrange(0, i as int)),
        decreases xs.len() - i,
    {
        assert(decreases_to!(xs => xs@[i as int]));
        let v = xs[i].clone();
        r.push(v);
        assert(same_values(r@, xs@.subrange(0, i + 1))) by {
            assert forall|k: int| 0 <= k < r@.len() implies same_value(#[trigger] r@[k], xs@.subrange(0, i + 1)[k]) by {
                if k < i {
                    assert(xs@.subrange(0, i as int)[k] == xs@.subrange(0, i + 1)[k]);
                }
            }
        }
        i = i + 1;
    }
    assert(xs@.subrange(0, xs@.len() as int) =~= xs@);
    r
}

/// A copy of the function `f`.
pub fn clone_function(f: &Function) -> (r: Function)
    ensures
        same_function(r, *f),
    decreases f, 2nat,
{
    Function {
        arity: f.arity,
        chunk: Chunk {
            code: f.chunk.code.clone(),
            constants: crate::value::ValueArray { values: clone_values(&f.chunk.constants.values) },
            line: f.chunk.line.clone(),
        },
        name: f.name.clone(),
    }
}

impl Value {
    /// Whether the value is a float.
    pub fn is_float(&self) -> (r: bool)
        ensures
            r == (*self is Float),
    {
        match self {
            Value::Float(_) => true,
            _ => false,
        }
    }

    /// Whether the value is an int.
    pub fn is_int(&self) -> (r: bool)
        ensures
            r == (*self is Int),
    {
        match self {
            Value::Int(_) => true,
            _ => false,
        }
    }

    /// Whether the value is a string.
    pub fn is_str(&self) -> (r: bool)
        ensures
            r == (*self is Str),
    {
        match self {
            Value::Str(_) => true,
            _ => false,
        }
    }

    /// Whether the value is a bool.
    pub fn is_bool(&self) -> (r: bool)
        ensures
            r == (*self is Bool),
    {
        match self {
            Value::Bool(_) => true,
            _ => false,
        }
    }

    /// Whether the value is an array.
    pub fn is_array(&self) -> (r: bool)
        ensures
            r == (*self is Array),
    {
        match self {
            Value::Array(_) => true,
            _ => false,
        }
    }

    /// Whether the value is a compiled function.
    pub fn is_fn(&self) -> (r: bool)
        ensures
            r == (*self is Function),
    {
        match self {
            Value::Function(_) => true,
            _ => false,
        }
    }

    /// Whether the value is a built-in function.
    pub fn is_native(&self) -> (r: bool)
        ensures
            r == (*self is NativeFunction),
    {
        match self {
            Value::NativeFunction(_) => true,
            _ => false,
        }
    }

    /// The bits of the float; for any other value, the bits of `0.0`, which are 0.
    pub fn as_float(&self) -> (r: u64)
        ensures
            r == (match *self {
                Value::Float(x) => x,
                _ => 0,
            }),
    {
        match self {
            Value::Float(x) => *x,
            _ => 0,
        }
    }

    /// The int; 0 for any other value.
    pub fn as_int(&self) -> (r: i64)
        ensures
            r == (match *self {
                Value::Int(x) => x,
                _ => 0,
            }),
    {
        match self {
            Value::Int(x) => *x,
            _ => 0,
        }
    }

    /// The string; the empty string for any other value.
    pub fn as_str(&self) -> (r: String)
        ensures
            r@ == (match *self {
                Value::Str(x) => x@,
                _ => Seq::empty(),
            }),
    {
        match self {
            Value::Str(x) => x.clone(),
            _ => String::new(),
        }
    }

    /// The bool; `false` for any other value.
    pub fn as_bool(&self) -> (r: bool)
        ensures
            r == (match *self {
                Value::Bool(x) => x,
                _ => false,
            }),
    {
        match self {
            Value::Bool(x) => *x,
            _ => false,
        }
    }

    /// The unsigned int; 0 for any other value.
    pub fn as_unt(&self) -> (r: u64)
        ensures
            r == (match *self {
                Value::Unt(x) => x,
                _ => 0,
            }),
    {
        match self {
            Value::Unt(x) => *x,
            _ => 0,
        }
    }

    /// The char; `'\0'` for any other value.
    pub fn as_char(&self) -> (r: char)
        ensures
            r == (match *self {
                Value::Char(x) => x,
                _ => '\0',
            }),
    {
        match self {
            Value::Char(x) => *x,
            _ => '\0',
        }
    }

    /// The elements of an array value.
    pub fn as_array(self) -> (r: Option<Vec<Value>>)
        ensures
            r == (match self {
                Value::Array(x) => Option::Some(x),
                _ => Option::None,
            }),
    {
        match self {
            Value::Array(x) => Some(x),
            _ => None,
        }
    }

    /// The optional value inside an `Opt`; `NoValue` for any other value.
    pub fn as_opt(self) -> (r: OptWrapper)
        ensures
            r == (match self {
                Value::Opt(x) => x,
                _ => OptWrapper::NoValue,
            }),
    {
        match self {
            Value::Opt(x) => x,
            _ => OptWrapper::NoValue,
        }
    }

    /// The compiled function of a function value.
    pub fn as_fn(self) -> (r: Option<Box<Function>>)
        ensures
            r == (match self {
                Value::Function(x) => Option::Some(x),
                _ => Option::None,
            }),
    {
        match self {
            Value::Function(x) => Some(x),
            _ => None,
        }
    }

    /// The built-in function of a native value.
    pub fn as_native(self) -> (r: Option<Native>)
        ensures
            r == (match self {
                Value::NativeFunction(x) => Option::Some(x),
                _ => Option::None,
            }),
    {
        match self {
            Value::NativeFunction(x) => Some(x),
            _ => None,
        }
    }
}

/// A growable list of values: the constants of a chunk.
#[derive(Debug)]
pub struct ValueArray {
    pub values: Vec<Value>,
}

impl Clone for ValueArray {
    fn clone(&self) -> (r: Self)
        ensures
            same_values(r.values@, self.values@),
    {
        ValueArray { values: clone_values(&self.values) }
    }
}

impl ValueArray {
    /// An empty list.
    pub fn new() -> (a: ValueArray)
        ensures
            a.values@.len() == 0,
    {
        ValueArray { values: Vec::new() }
    }

    /// Appends `value`.
    pub fn write_valuearray(&mut self, value: Value)
        ensures
            final(self).values@ == old(self).values@.push(value),
    {
        self.values.push(value);
    }
}

/// The result of converting a value to a number: the number itself, or, for a
/// float, the bits of the float, which the caller converts (with `as`) outside
/// this library.
#[derive(Debug, Clone, Copy, PartialEq, Eq, Structural)]
pub enum Converted<T> {
    Number(T),
    FromFloat(u64),
}

/// The operand of a conversion to a float, which the caller performs with `as`
/// outside this library: a float's bits (kept as they are), an int, or an unsigned
/// int.
#[derive(Debug, Clone, Copy, PartialEq, Eq, Structural)]
pub enum FloatSource {
    Bits(u64),
    FromInt(i64),
    FromUnt(u64),
}

impl Value {
    /// The value as an int, as `as` converts it (a bool is 0 or 1, a char its code
    /// point, an unsigned int wraps); `None` for a value that is not a number, a
    /// bool or a char.
    pub fn cast_int(&self) -> (r: Option<Converted<i64>>)
        ensures
            r == match *self {
                Value::Int(x) => Option::Some(Converted::Number(x)),
                Value::Float(b) => Option::Some(Converted::FromFloat(b)),
                Value::Unt(x) => Option::Some(Converted::Number(x as i64)),
                Value::Bool(b) => Option::Some(
                    Converted::Number(
                        if b {
                            1i64
                        } else {
                            0i64
                        },
                    ),
                ),
                Value::Char(c) => Option::Some(Converted::Number(c as i64)),
                _ => Option::None,
            },
    {
        match self {
            Value::Int(x) => Some(Converted::Number(*x)),
            Value::Float(b) => Some(Converted::FromFloat(*b)),
            Value::Unt(x) => Some(Converted::Number(*x as i64)),
            Value::Bool(b) => Some(Converted::Number(if *b { 1 } else { 0 })),
            Value::Char(c) => Some(Converted::Number(*c as u32 as i64)),
            _ => None,
        }
    }

    /// The value as an unsigned int, as `as` converts it (an int wraps, a bool is 0
    /// or 1, a char its code point); `None` for a value that is not a number, a bool
    /// or a char.
    pub fn cast_unt(&self) -> (r: Option<Converted<u64>>)
        ensures
            r == match *self {
                Value::Int(x) => Option::Some(Converted::Number(x as u64)),
                Value::Float(b) => Option::Some(Converted::FromFloat(b)),
                Value::Unt(x) => Option::Some(Converted::Number(x)),
                Value::Bool(b) => Option::Some(
                    Converted::Number(
                        if b {
                            1u64
                        } else {
                            0u64
                        },
                    ),
                ),
                Value::Char(c) => Option::Some(Converted::Number(c as u64)),
                _ => Option::None,
            },
    {
        match self {
            Value::Int(x) => Some(Converted::Number(*x as u64)),
            Value::Float(b) => Some(Converted::FromFloat(*b)),
            Value::Unt(x) => Some(Converted::Number(*x)),
            Value::Bool(b) => Some(Converted::Number(if *b { 1 } else { 0 })),
            Value::Char(c) => Some(Converted::Number(*c as u32 as u64)),
            _ => None,
        }
    }

    /// What the value converts to a float from (a bool is 0 or 1, a char its code
    /// point); `None` for a value that is not a number, a bool or a char.
    pub fn cast_float(&self) -> (r: Option<FloatSource>)
        ensures
            r == match *self {
                Value::Int(x) => Option::Some(FloatSource::FromInt(x)),
                Value::Float(b) => Option::Some(FloatSource::Bits(b)),
                Value::Unt(x) => Option::Some(FloatSource::FromUnt(x)),
                Value::Bool(b) => Option::Some(
                    FloatSource::FromInt(
                        if b {
                            1i64
                        } else {
                            0i64
                        },
                    ),
                ),
                Value::Char(c) => Option::Some(FloatSource::FromInt(c as i64)),
                _ => Option::None,
            },
    {
        match self {
            Value::Int(x) => Some(FloatSource::FromInt(*x)),
            Value::Float(b) => Some(FloatSource::Bits(*b)),
            Value::Unt(x) => Some(FloatSource::FromUnt(*x)),
            Value::Bool(b) => Some(FloatSource::FromInt(if *b { 1 } else { 0 })),
            Value::Char(c) => Some(FloatSource::FromInt(*c as u32 as i64)),
            _ => None,
        }
    }

    /// The negation of a number: a float with its sign bit flipped, an int negated;
    /// `Void` for any other value.
    pub fn neg(self) -> (r: Value)
        requires
            self != Value::Int(i64::MIN),
        ensures
            r == match self {
                Value::Float(b) => Value::Float(b ^ 0x8000_0000_0000_0000u64),
                Value::Int(x) => Value::Int((-x) as i64),
                _ => Value::Void,
            },
    {
        match self {
            Value::Float(b) => Value::Float(b ^ 0x8000_0000_0000_0000u64),
            Value::Int(x) => Value::Int(-x),
            _ => Value::Void,
        }
    }
}

} // verus!
