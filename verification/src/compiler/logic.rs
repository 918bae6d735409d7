//! The short-circuiting `or` and `and`, and indexing into an array.
use vstd::prelude::*;

use crate::chunk::{spec_op_byte, OpCode};
use crate::compiler::expr::{expr_kept, mismatch_operands};
use crate::compiler::parser::{cursor_measure, Parser};
use crate::compiler::rules::Precedence;
use crate::compiler::type_safety::TypeTag;
use crate::scanner::{scan_safe, Scanner};
use crate::scanner::TokenType;
use crate::text::join3;

verus! {

impl Parser {
    /// Pops the type on top of the stack; `Void` when it is empty.
    fn pop_tag_or_void(&mut self) -> (t: TypeTag)
        ensures
            final(self).with_type_tags_of(old(self)) == *old(self),
            old(self).type_tag@.len() > 0 ==> t == old(self).type_tag@.last()
                && final(self).type_tag@ == old(self).type_tag@.drop_last(),
            old(self).type_tag@.len() == 0 ==> t == TypeTag::Void && final(self).type_tag@
                == old(self).type_tag@,
    {
        match self.type_tag.pop() {
            Some(t) => t,
            None => TypeTag::Void,
        }
    }

    /// Reports operands of `or` and `and` that are not both `bool`, and pushes
    /// `bool`.
    fn logic_types(&mut self, t1: TypeTag, t2: TypeTag)
        ensures
            final(self).type_tag@ == old(self).type_tag@.push(TypeTag::Bool),
            t1 == TypeTag::Bool && t2 == TypeTag::Bool ==> final(self).same_errors(old(self)),
            !(t1 == TypeTag::Bool && t2 == TypeTag::Bool) ==> final(self).reported(
                old(self),
                old(self).previous@,
                mismatch_operands(t1, t2),
            ),
            final(self).with_type_tags_of(old(self)).same_but_errors(old(self)),
    {
        let both_bool = match (&t1, &t2) {
            (TypeTag::Bool, TypeTag::Bool) => true,
            _ => false,
        };
        if !both_bool {
            let n1 = t1.to_string();
            let n2 = t2.to_string();
            let head = join3("mismatched types cannot use [", n1.as_str(), "] with [");
            let message = join3(head.as_str(), n2.as_str(), "]");
            proof {
                assert(message@ =~= mismatch_operands(t1, t2));
            }
            self.error(message.as_str());
        }
        self.type_tag.push(TypeTag::Bool);
    }

    /// `a or b`, its `or` just read: when `a` is false the code goes on to `b`,
    /// else it jumps past `b` with `a` as the value. Both must be `bool`; the
    /// result is `bool`.
    pub fn or_expr(&mut self, scanner: &mut Scanner)
        requires
            old(scanner).wf(),
            scan_safe(old(scanner)@),
            old(self).wf(),
        ensures
            expr_kept(*final(self), *final(scanner), *old(self), old(scanner)@),
            final(self).type_tag@.len() >= 1,
            final(self).type_tag@.last() == TypeTag::Bool,
        decreases cursor_measure(old(self).at(old(scanner)@)), 3nat,
    {
        let type_tag = self.pop_tag_or_void();
        let else_jump = self.emit_jump(OpCode::JumpIfFalse.to_byte() as usize);
        let end_jump = self.emit_jump(OpCode::Jump.to_byte() as usize);
        self.patch_jump(else_jump);
        self.emit_byte(OpCode::Pop.to_byte());
        self.parse_precedence(Precedence::Or, scanner);
        let type_tag2 = self.pop_tag_or_void();
        self.logic_types(type_tag, type_tag2);
        self.patch_if_within(end_jump);
    }

    /// `a and b`, its `and` just read: when `a` is false the code jumps past `b`
    /// with `a` as the value, else goes on to `b`. Both must be `bool`; the
    /// result is `bool`.
    pub fn and_expr(&mut self, scanner: &mut Scanner)
        requires
            old(scanner).wf(),
            scan_safe(old(scanner)@),
            old(self).wf(),
        ensures
            expr_kept(*final(self), *final(scanner), *old(self), old(scanner)@),
            final(self).type_tag@.len() >= 1,
            final(self).type_tag@.last() == TypeTag::Bool,
        decreases cursor_measure(old(self).at(old(scanner)@)), 3nat,
    {
        let type_tag = self.pop_tag_or_void();
        let end_jump = self.emit_jump(OpCode::JumpIfFalse.to_byte() as usize);
        self.emit_byte(OpCode::Pop.to_byte());
        self.parse_precedence(Precedence::And, scanner);
        let type_tag2 = self.pop_tag_or_void();
        self.logic_types(type_tag, type_tag2);
        self.patch_if_within(end_jump);
    }

    /// `a[i]`, its `[` just read: the index, which must be an `unt` (its type
    /// stays on the stack), then `]`; emits `IndexArray`.
    pub fn index_array(&mut self, scanner: &mut Scanner)
        requires
            old(scanner).wf(),
            scan_safe(old(scanner)@),
            old(self).wf(),
        ensures
            expr_kept(*final(self), *final(scanner), *old(self), old(scanner)@),
            final(self).chunk().code@.len() >= 1,
            final(self).chunk().code@.last() == spec_op_byte(OpCode::IndexArray),
        decreases cursor_measure(old(self).at(old(scanner)@)), 3nat,
    {
        self.expression(scanner);
        let n = self.type_tag.len();
        if n == 0 {
            self.error("TypeTag stack underflow — compiler emitted unbalanced typetags");
        } else {
            let index_type = self.type_tag[n - 1].clone();
            if index_type != TypeTag::Unt {
                let name = index_type.to_string();
                let message = join3("Expected unt type in indexing found [", name.as_str(), "]");
                self.error(message.as_str());
            }
        }
        self.consume(TokenType::RightBracket, "Expected ']' at the end of array", scanner);
        self.emit_byte(OpCode::IndexArray.to_byte());
    }
}

} // verus!
