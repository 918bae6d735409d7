//! The type rules of the built-in methods (`x.trim()`, `x.len()`, ...): each
//! checks the type of its receiver on the stack of types, replaces it by the type
//! of the result, and emits the method's instruction.
use vstd::prelude::*;

use std::sync::Arc;

use crate::chunk::{spec_op_byte, OpCode};
use crate::compiler::parser::Parser;
use crate::compiler::type_safety::{spec_tag_name, TypeTag};
use crate::text::join3;

verus! {

/// The type on top of the stack `s`; `Void` when it is empty.
pub open spec fn top_tag(s: Seq<TypeTag>) -> TypeTag {
    if s.len() > 0 {
        s.last()
    } else {
        TypeTag::Void
    }
}

/// The stack `s` without its top.
pub open spec fn below_top(s: Seq<TypeTag>) -> Seq<TypeTag> {
    if s.len() > 0 {
        s.drop_last()
    } else {
        s
    }
}

/// The message for a receiver of type `t` that the method `method` does not
/// take, which takes `allowed` values.
pub open spec fn receiver_message(t: TypeTag, method: Seq<char>, allowed: Seq<char>) -> Seq<char> {
    "cannot use "@ + spec_tag_name(t) + " for "@ + method + ", only "@ + allowed
        + " values that are allowed"@
}

impl Parser {
    /// Whether `self` is `o` after a method's rule: the instruction `op` appended,
    /// the receiver's type popped and `result` pushed in its place, or, when the
    /// receiver is refused (`result` is `None`), nothing pushed and `message`
    /// reported at the previous token.
    pub open spec fn method_applied(
        &self,
        o: &Parser,
        op: OpCode,
        result: Option<TypeTag>,
        message: Seq<char>,
    ) -> bool {
        &&& self.chunk().code@ == o.chunk().code@.push(spec_op_byte(op))
        &&& self.chunk().line@ == o.chunk().line@.push(o.previous.line as u32)
        &&& self.chunk().constants == o.chunk().constants
        &&& self.type_tag@ == match result {
            Option::Some(t) => below_top(o.type_tag@).push(t),
            Option::None => below_top(o.type_tag@),
        }
        &&& result is Some ==> self.same_errors(o)
        &&& result is None ==> self.reported(o, o.previous@, message)
        &&& self.with_chunk(o.chunk()).with_type_tags_of(o).same_but_errors(o)
    }

    /// Pops the type on top of the stack; `Void` when it is empty.
    fn pop_type_tag(&mut self) -> (t: TypeTag)
        ensures
            t == top_tag(old(self).type_tag@),
            final(self).type_tag@ == below_top(old(self).type_tag@),
            final(self).with_type_tags_of(old(self)) == *old(self),
    {
        match self.type_tag.pop() {
            Some(t) => t,
            None => TypeTag::Void,
        }
    }

    /// Reports that a receiver of type `t` is refused by `method`, which takes
    /// `allowed` values (see `receiver_message`).
    fn refuse_receiver(&mut self, t: &TypeTag, method: &str, allowed: &str)
        ensures
            final(self).same_but_errors(old(self)),
            final(self).reported(
                old(self),
                old(self).previous@,
                receiver_message(*t, method@, allowed@),
            ),
    {
        let name = t.to_string();
        let head = join3("cannot use ", name.as_str(), " for ");
        let tail = join3(method, ", only ", allowed);
        let message = join3(head.as_str(), tail.as_str(), " values that are allowed");
        proof {
            assert(message@ =~= receiver_message(*t, method@, allowed@));
        }
        self.error(message.as_str());
    }

    /// `trim()`: takes a `str`, gives a `str`.
    pub fn trim_methode(&mut self)
        ensures
            ({
                let t = top_tag(old(self).type_tag@);
                final(self).method_applied(
                    old(self),
                    OpCode::Trim,
                    if t is Str {
                        Option::Some(TypeTag::Str)
                    } else {
                        Option::None
                    },
                    receiver_message(t, "trim"@, "str"@),
                )
            }),
    {
        let type_tag = self.pop_type_tag();
        match type_tag {
            TypeTag::Str => {
                self.type_tag.push(TypeTag::Str);
            },
            _ => {
                self.refuse_receiver(&type_tag, "trim", "str");
            },
        }
        self.emit_byte(OpCode::Trim.to_byte());
    }

    /// `is_empty()`: takes a `str`, gives a `bool`.`
    pub fn isempty_methode(&mut self)
        ensures
            ({
                let t = top_tag(old(self).type_tag@);
                final(self).method_applied(
                    old(self),
                    OpCode::IsEmpty,
                    if t is Str {
                        Option::Some(TypeTag::Bool)
                    } else {
                        Option::None
                    },
                    receiver_message(t, "is_empty"@, "str"@),
                )
            }),
    {
        let type_tag = self.pop_type_tag();
        match type_tag {
            TypeTag::Str => {
                self.type_tag.push(TypeTag::Bool);
            },
            _ => {
                self.refuse_receiver(&type_tag, "is_empty", "str");
            },
        }
        self.emit_byte(OpCode::IsEmpty.to_byte());
    }

    /// `sqrt()`: takes a `float`, gives a `float`; the refusal names `round`.`
    pub fn sqrt_methode(&mut self)
        ensures
            ({
                let t = top_tag(old(self).type_tag@);
                final(self).method_applied(
                    old(self),
                    OpCode::SquareRoot,
                    if t is Float {
                        Option::Some(TypeTag::Float)
                    } else {
                        Option::None
                    },
                    receiver_message(t, "round"@, "float"@),
                )
            }),
    {
        let type_tag = self.pop_type_tag();
        match type_tag {
            TypeTag::Float => {
                self.type_tag.push(TypeTag::Float);
            },
            _ => {
                self.refuse_receiver(&type_tag, "round", "float");
            },
        }
        self.emit_byte(OpCode::SquareRoot.to_byte());
    }

    /// `round()`: takes a `float`, gives a `float`.`
    pub fn round_methode(&mut self)
        ensures
            ({
                let t = top_tag(old(self).type_tag@);
                final(self).method_applied(
                    old(self),
                    OpCode::Round,
                    if t is Float {
                        Option::Some(TypeTag::Float)
                    } else {
                        Option::None
                    },
                    receiver_message(t, "round"@, "float"@),
                )
            }),
    {
        let type_tag = self.pop_type_tag();
        match type_tag {
            TypeTag::Float => {
                self.type_tag.push(TypeTag::Float);
            },
            _ => {
                self.refuse_receiver(&type_tag, "round", "float");
            },
        }
        self.emit_byte(OpCode::Round.to_byte());
    }

    /// `ceil()`: takes a `float`, gives a `float`.`
    pub fn celi_methode(&mut self)
        ensures
            ({
                let t = top_tag(old(self).type_tag@);
                final(self).method_applied(
                    old(self),
                    OpCode::Ceil,
                    if t is Float {
                        Option::Some(TypeTag::Float)
                    } else {
                        Option::None
                    },
                    receiver_message(t, "ceil"@, "float"@),
                )
            }),
    {
        let type_tag = self.pop_type_tag();
        match type_tag {
            TypeTag::Float => {
                self.type_tag.push(TypeTag::Float);
            },
            _ => {
                self.refuse_receiver(&type_tag, "ceil", "float");
            },
        }
        self.emit_byte(OpCode::Ceil.to_byte());
    }

    /// `floor()`: takes a `float`, gives a `float`.`
    pub fn floor_methode(&mut self)
        ensures
            ({
                let t = top_tag(old(self).type_tag@);
                final(self).method_applied(
                    old(self),
                    OpCode::Floor,
                    if t is Float {
                        Option::Some(TypeTag::Float)
                    } else {
                        Option::None
                    },
                    receiver_message(t, "floor"@, "float"@),
                )
            }),
    {
        let type_tag = self.pop_type_tag();
        match type_tag {
            TypeTag::Float => {
                self.type_tag.push(TypeTag::Float);
            },
            _ => {
                self.refuse_receiver(&type_tag, "floor", "float");
            },
        }
        self.emit_byte(OpCode::Floor.to_byte());
    }

    /// `abs()`: takes an `int` or a `float`, gives the same type.
    pub fn abs_methode(&mut self)
        ensures
            ({
                let t = top_tag(old(self).type_tag@);
                final(self).method_applied(
                    old(self),
                    OpCode::Abs,
                    if t is Int || t is Float {
                        Option::Some(t)
                    } else {
                        Option::None
                    },
                    receiver_message(t, "abs"@, "float/int"@),
                )
            }),
    {
        let type_tag = self.pop_type_tag();
        match type_tag {
            TypeTag::Int => {
                self.type_tag.push(TypeTag::Int);
            },
            TypeTag::Float => {
                self.type_tag.push(TypeTag::Float);
            },
            _ => {
                self.refuse_receiver(&type_tag, "abs", "float/int");
            },
        }
        self.emit_byte(OpCode::Abs.to_byte());
    }

    /// Pops whether the receiver is mutable; `false` when nothing is recorded.
    pub(crate) fn pop_is_mut(&mut self) -> (m: bool)
        ensures
            m == (old(self).info.is_mut@.len() > 0 && old(self).info.is_mut@.last()),
            final(self).info.is_mut@ == if old(self).info.is_mut@.len() > 0 {
                old(self).info.is_mut@.drop_last()
            } else {
                old(self).info.is_mut@
            },
            final(self).info.last_local_slot == old(self).info.last_local_slot,
            final(self).with_info_of(old(self)) == *old(self),
    {
        match self.info.is_mut.pop() {
            Some(m) => m,
            None => false,
        }
    }

    /// `rev()`: the receiver must be mutable; takes a `str` or an array, gives the
    /// same type. Of the two errors only the first is reported.
    pub fn rev_methode(&mut self)
        ensures
            ({
                let m = old(self).info.is_mut@.len() > 0 && old(self).info.is_mut@.last();
                let t = top_tag(old(self).type_tag@);
                let ok = t is Str || t is Array;
                &&& final(self).chunk().code@ == old(self).chunk().code@.push(
                    spec_op_byte(OpCode::Reverse),
                )
                &&& final(self).chunk().line@ == old(self).chunk().line@.push(
                    old(self).previous.line as u32,
                )
                &&& final(self).chunk().constants == old(self).chunk().constants
                &&& final(self).type_tag@ == if ok {
                    below_top(old(self).type_tag@).push(t)
                } else {
                    below_top(old(self).type_tag@)
                }
                &&& final(self).info.is_mut@ == if old(self).info.is_mut@.len() > 0 {
                    old(self).info.is_mut@.drop_last()
                } else {
                    old(self).info.is_mut@
                }
                &&& final(self).info.last_local_slot == old(self).info.last_local_slot
                &&& !m ==> final(self).reported(
                    old(self),
                    old(self).previous@,
                    "Value must be mutated in order to use rev on it!"@,
                )
                &&& m && !ok ==> final(self).reported(
                    old(self),
                    old(self).previous@,
                    receiver_message(t, "rev"@, "str/arrays"@),
                )
                &&& m && ok ==> final(self).same_errors(old(self))
                &&& final(self).with_chunk(old(self).chunk()).with_type_tags_of(
                    old(self),
                ).with_info_of(old(self)).same_but_errors(old(self))
            }),
    {
        if !self.pop_is_mut() {
            self.error("Value must be mutated in order to use rev on it!");
        }
        let type_tag = self.pop_type_tag();
        match type_tag {
            TypeTag::Str => {
                self.type_tag.push(TypeTag::Str);
            },
            TypeTag::Array(x) => {
                self.type_tag.push(TypeTag::Array(x));
            },
            _ => {
                self.refuse_receiver(&type_tag, "rev", "str/arrays");
            },
        }
        self.emit_byte(OpCode::Reverse.to_byte());
    }

    /// `pop()`: the receiver must be mutable; gives an `Opt` of the receiver's
    /// type (an `Array` of `Void` when the stack is empty).
    pub fn pop_methode(&mut self)
        ensures
            ({
                let m = old(self).info.is_mut@.len() > 0 && old(self).info.is_mut@.last();
                let t = if old(self).type_tag@.len() > 0 {
                    old(self).type_tag@.last()
                } else {
                    TypeTag::Array(Arc::new(TypeTag::Void))
                };
                &&& final(self).chunk().code@ == old(self).chunk().code@.push(
                    spec_op_byte(OpCode::PopArray),
                )
                &&& final(self).chunk().line@ == old(self).chunk().line@.push(
                    old(self).previous.line as u32,
                )
                &&& final(self).chunk().constants == old(self).chunk().constants
                &&& final(self).type_tag@ == below_top(old(self).type_tag@).push(
                    TypeTag::Opt(Arc::new(t)),
                )
                &&& final(self).info.is_mut@ == if old(self).info.is_mut@.len() > 0 {
                    old(self).info.is_mut@.drop_last()
                } else {
                    old(self).info.is_mut@
                }
                &&& final(self).info.last_local_slot == old(self).info.last_local_slot
                &&& !m ==> final(self).reported(
                    old(self),
                    old(self).previous@,
                    "Value must be mutated in order to use push() on it!"@,
                )
                &&& m ==> final(self).same_errors(old(self))
                &&& final(self).with_chunk(old(self).chunk()).with_type_tags_of(
                    old(self),
                ).with_info_of(old(self)).same_but_errors(old(self))
            }),
    {
        if !self.pop_is_mut() {
            self.error("Value must be mutated in order to use push() on it!");
        }
        let type_tag = match self.type_tag.pop() {
            Some(t) => t,
            None => TypeTag::Array(Arc::new(TypeTag::Void)),
        };
        self.type_tag.push(TypeTag::Opt(Arc::new(type_tag)));
        self.emit_byte(OpCode::PopArray.to_byte());
    }

    /// `len()`: takes an array or a `str`, gives an `unt`; another receiver is
    /// reported and still gives an `unt`.
    pub fn len_methode(&mut self)
        requires
            old(self).type_tag@.len() > 0,
        ensures
            ({
                let t = old(self).type_tag@.last();
                &&& final(self).chunk().code@ == old(self).chunk().code@.push(
                    spec_op_byte(OpCode::Len),
                )
                &&& final(self).chunk().line@ == old(self).chunk().line@.push(
                    old(self).previous.line as u32,
                )
                &&& final(self).chunk().constants == old(self).chunk().constants
                &&& final(self).type_tag@ == old(self).type_tag@.drop_last().push(TypeTag::Unt)
                &&& (t is Array || t is Str) ==> final(self).same_errors(old(self))
                &&& !(t is Array || t is Str) ==> final(self).reported(
                    old(self),
                    old(self).previous@,
                    "Can not use len() on ["@ + spec_tag_name(t) + "]"@,
                )
                &&& final(self).with_chunk(old(self).chunk()).with_type_tags_of(
                    old(self),
                ).same_but_errors(old(self))
            }),
    {
        let type_tag = self.pop_type_tag();
        match type_tag {
            TypeTag::Array(_) => {},
            TypeTag::Str => {},
            _ => {
                let name = type_tag.to_string();
                let message = join3("Can not use len() on [", name.as_str(), "]");
                self.error(message.as_str());
            },
        }
        self.emit_byte(OpCode::Len.to_byte());
        self.type_tag.push(TypeTag::Unt);
    }

    /// `grab()`: takes an `Opt`, gives the type it wraps.
    pub fn grab_methode(&mut self)
        requires
            old(self).type_tag@.len() > 0,
        ensures
            ({
                let t = old(self).type_tag@.last();
                final(self).method_applied(
                    old(self),
                    OpCode::Grab,
                    match t {
                        TypeTag::Opt(x) => Option::Some(*x),
                        _ => Option::None,
                    },
                    "Expect 'Opt' type wrapper to use 'grab()' one"@,
                )
            }),
    {
        let type_tag = self.pop_type_tag();
        match type_tag {
            TypeTag::Opt(x) => {
                self.type_tag.push((*x).clone());
            },
            _ => {
                self.error("Expect 'Opt' type wrapper to use 'grab()' one");
            },
        }
        self.emit_byte(OpCode::Grab.to_byte());
    }
}

} // verus!
