//! The built-in string functions.
use vstd::prelude::*;

use crate::compiler::type_safety::TypeTag;
use crate::value::Value;

verus! {

/// `trim`: the string value of its argument, unchanged (the empty string for a
/// value that is not a string). It takes one argument and no generic argument.
pub fn trim(arg_count: usize, args: &[Value], generic: Option<&TypeTag>) -> (r: Value)
    requires
        arg_count <= 1,
        generic is None,
        args@.len() >= 1,
    ensures
        r is Str,
        r->Str_0@ == (match args@[0] {
            Value::Str(s) => s@,
            _ => Seq::empty(),
        }),
{
    Value::Str(args[0].as_str())
}

/// `is_empty`: whether the string value of its argument is empty (a value that
/// is not a string counts as empty). It takes one argument and no generic argument.
pub fn is_empty(arg_count: usize, args: &[Value], generic: Option<&TypeTag>) -> (r: Value)
    requires
        arg_count <= 1,
        generic is None,
        args@.len() >= 1,
    ensures
        r == Value::Bool(
            match args@[0] {
                Value::Str(s) => s@.len() == 0,
                _ => true,
            },
        ),
{
    let s = args[0].as_str();
    Value::Bool(s.as_str().is_empty())
}

} // verus!
