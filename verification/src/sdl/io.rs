//! Reading a value of a requested type from a line of input.
use vstd::prelude::*;

use crate::compiler::type_safety::TypeTag;
use crate::text::{chars_of, parse_i64, parse_u64, parsed_i64, parsed_u64, string_from};
use crate::value::Value;
use crate::vm::{trim_str, trimmed};

verus! {

/// Whether `r` is what `input::[generic]` makes of the trimmed input `t`: an
/// `int` or `unt` as `str::parse` reads it (`None` when it fails), the text
/// itself for a `str`, its one character for a `char` (`None` unless there is
/// exactly one), and `void` for any other type.
pub open spec fn input_result(t: Seq<char>, generic: TypeTag, r: Option<Value>) -> bool {
    match generic {
        TypeTag::Int => r == match parsed_i64(t) {
            Option::Some(x) => Option::Some(Value::Int(x)),
            Option::None => Option::None,
        },
        TypeTag::Unt => r == match parsed_u64(t) {
            Option::Some(x) => Option::Some(Value::Unt(x)),
            Option::None => Option::None,
        },
        TypeTag::Str => r matches Option::Some(Value::Str(s)) && s@ == t,
        TypeTag::Char => if t.len() == 1 {
            r == Option::Some(Value::Char(t[0]))
        } else {
            r is None
        },
        _ => r == Option::Some(Value::Void),
    }
}

/// The value that `input::[generic]` reads from the line `line` once it is
/// typed: the line without its surrounding whitespace, read as `input_result`
/// says. `None` where the input cannot be read as that type. A `float` is read
/// by the caller.
pub fn input_value(line: &str, generic: &TypeTag) -> (r: Option<Value>)
    requires
        *generic != TypeTag::Float,
    ensures
        exists|t: Seq<char>| #![trigger trimmed(line@, t)] trimmed(line@, t) && input_result(t, *generic, r),
{
    let t = trim_str(line);
    let r = match generic {
        TypeTag::Int => match parse_i64(t) {
            Some(x) => Some(Value::Int(x)),
            None => None,
        },
        TypeTag::Unt => match parse_u64(t) {
            Some(x) => Some(Value::Unt(x)),
            None => None,
        },
        TypeTag::Str => Some(Value::Str(string_from(t))),
        TypeTag::Char => {
            let cs = chars_of(t);
            if cs.len() == 1 {
                Some(Value::Char(cs[0]))
            } else {
                None
            }
        },
        _ => Some(Value::Void),
    };
    assert(trimmed(line@, t@) && input_result(t@, *generic, r));
    r
}

} // verus!
