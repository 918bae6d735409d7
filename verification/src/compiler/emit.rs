//! Writing bytecode into the chunk of the function being compiled.
use vstd::prelude::*;

use crate::chunk::{spec_op_byte, Chunk, OpCode};
use crate::debug::{spec_disassemble, Shown};
use crate::compiler::parser::Parser;
use crate::scanner::Token;
use crate::value::Value;

verus! {

/// `code` with the two bytes at `offset` holding the distance from after them to
/// the end of the code, high byte first (what `patch_jump` writes).
pub open spec fn patched_code(code: Seq<u8>, offset: int) -> Seq<u8> {
    let jump = (code.len() - offset - 2) as usize;
    code.update(offset, ((jump >> 8u64) & 0xff) as u8).update(offset + 1, (jump & 0xff) as u8)
}

/// A forward jump whose operand `patch_jump` wrote lands at the end of the code as it
/// was when patched: disassembling it shows that target.
pub proof fn lemma_patched_jump_target(chunk: Chunk, code: Seq<u8>, offset: int)
    requires
        1 <= offset,
        offset + 2 <= code.len() <= usize::MAX,
        code[offset - 1] == spec_op_byte(OpCode::JumpIfFalse) || code[offset - 1] == spec_op_byte(
            OpCode::Jump,
        ),
        code.len() - offset - 2 <= 0xffff,
        chunk.code@ == patched_code(code, offset),
    ensures
        spec_disassemble(chunk, offset - 1).shown == Shown::Jump(
            OpCode::JumpIfFalse,
            code.len() as i64,
        ),
        spec_disassemble(chunk, offset - 1).next == offset + 2,
{
    let jump = (code.len() - offset - 2) as usize;
    let hi = ((jump >> 8u64) & 0xff) as u8;
    let lo = (jump & 0xff) as u8;
    assert(hi * 256 + lo == jump) by (bit_vector)
        requires
            jump <= 0xffff,
            hi == ((jump >> 8u64) & 0xff) as u8,
            lo == (jump & 0xff) as u8,
    ;
    assert(chunk.code@[offset - 1] == code[offset - 1]);
    assert(chunk.code@[offset] == hi);
    assert(chunk.code@[offset + 1] == lo);
}

/// Where the forward jump at `at` lands: after its two operand bytes, by the
/// distance they hold (high byte first).
pub open spec fn jump_dest(code: Seq<u8>, at: int) -> int {
    at + 3 + code[at + 1] * 256 + code[at + 2]
}

/// Where the `Loop` at `at` lands: back from after its operand bytes, by the
/// distance they hold.
pub open spec fn loop_dest(code: Seq<u8>, at: int) -> int {
    at + 3 - (code[at + 1] * 256 + code[at + 2])
}

/// The two bytes of a distance that fits in 16 bits give it back.
pub proof fn lemma_two_bytes(d: usize)
    requires
        d <= 0xffff,
    ensures
        (((d >> 8u64) & 0xff) as u8) * 256 + ((d & 0xff) as u8) == d,
{
    let hi = ((d >> 8u64) & 0xff) as u8;
    let lo = (d & 0xff) as u8;
    assert(hi * 256 + lo == d) by (bit_vector)
        requires
            d <= 0xffff,
            hi == ((d >> 8u64) & 0xff) as u8,
            lo == (d & 0xff) as u8,
    ;
}

/// After `patch_jump` at `offset`, the jump whose operand starts there lands at
/// the end of the code, when the distance fits in 16 bits.
pub proof fn lemma_patched_dest(code: Seq<u8>, offset: int)
    requires
        1 <= offset,
        offset + 2 <= code.len(),
        code.len() - offset - 2 <= 0xffff,
    ensures
        jump_dest(patched_code(code, offset), offset - 1) == code.len(),
        patched_code(code, offset).len() == code.len(),
        forall|i: int|
            0 <= i < code.len() && i != offset && i != offset + 1 ==> #[trigger] patched_code(
                code,
                offset,
            )[i] == code[i],
{
    lemma_two_bytes((code.len() - offset - 2) as usize);
}

impl Parser {
    /// Appends `byte` to the code, marked with the line of the previous token.
    pub fn emit_byte(&mut self, byte: u8)
        ensures
            final(self).chunk().code@ == old(self).chunk().code@.push(byte),
            final(self).chunk().line@ == old(self).chunk().line@.push(
                old(self).previous.line as u32,
            ),
            final(self).chunk().constants == old(self).chunk().constants,
            final(self).same_but_chunk(old(self)),
    {
        let line = self.previous.line as u32;
        self.compiler.function.function.chunk.write_chunk(byte, line);
    }

    /// Appends `byte1` and then `byte2` to the code (see `emit_byte`).
    pub fn emit_bytes(&mut self, byte1: u8, byte2: u8)
        ensures
            final(self).chunk().code@ == old(self).chunk().code@.push(byte1).push(byte2),
            final(self).chunk().line@ == old(self).chunk().line@.push(
                old(self).previous.line as u32,
            ).push(old(self).previous.line as u32),
            final(self).chunk().constants == old(self).chunk().constants,
            final(self).same_but_chunk(old(self)),
    {
        self.emit_byte(byte1);
        self.emit_byte(byte2);
    }

    /// Appends `value` to the constants of the chunk and returns its index as a
    /// byte: an index past 255 keeps only its low byte.
    pub fn make_constant(&mut self, value: Value) -> (r: u8)
        requires
            old(self).chunk().constants.values@.len() < usize::MAX,
        ensures
            final(self).chunk().constants.values@ == old(self).chunk().constants.values@.push(
                value,
            ),
            final(self).chunk().code == old(self).chunk().code,
            final(self).chunk().line == old(self).chunk().line,
            final(self).same_but_chunk(old(self)),
            r == old(self).chunk().constants.values@.len() as u8,
    {
        let index = self.compiler.function.function.chunk.add_const(value);
        index as u8
    }

    /// Appends `value` to the constants and the instruction that loads it to the
    /// code (see `make_constant`).
    pub fn emit_constant(&mut self, value: Value)
        requires
            old(self).chunk().constants.values@.len() < usize::MAX,
        ensures
            final(self).chunk().constants.values@ == old(self).chunk().constants.values@.push(
                value,
            ),
            final(self).chunk().code@ == old(self).chunk().code@.push(
                spec_op_byte(OpCode::Constant),
            ).push(old(self).chunk().constants.values@.len() as u8),
            final(self).chunk().line@ == old(self).chunk().line@.push(
                old(self).previous.line as u32,
            ).push(old(self).previous.line as u32),
            final(self).same_but_chunk(old(self)),
    {
        let constant = self.make_constant(value);
        self.emit_bytes(OpCode::Constant.to_byte(), constant);
    }

    /// Appends a `Return` instruction.
    pub fn emit_return(&mut self)
        ensures
            final(self).chunk().code@ == old(self).chunk().code@.push(
                spec_op_byte(OpCode::Return),
            ),
            final(self).chunk().line@ == old(self).chunk().line@.push(
                old(self).previous.line as u32,
            ),
            final(self).chunk().constants == old(self).chunk().constants,
            final(self).same_but_chunk(old(self)),
    {
        self.emit_byte(OpCode::Return.to_byte());
    }

    /// Ends the function being compiled: appends two `Return` instructions.
    pub fn end_compiler(&mut self)
        ensures
            final(self).chunk().code@ == old(self).chunk().code@.push(
                spec_op_byte(OpCode::Return),
            ).push(spec_op_byte(OpCode::Return)),
            final(self).chunk().line@ == old(self).chunk().line@.push(
                old(self).previous.line as u32,
            ).push(old(self).previous.line as u32),
            final(self).chunk().constants == old(self).chunk().constants,
            final(self).same_but_chunk(old(self)),
    {
        self.emit_byte(OpCode::Return.to_byte());
        self.emit_return();
    }

    /// Appends the text of `name` to the constants as a string (see `make_constant`).
    pub fn identifier_constant(&mut self, name: &Token) -> (r: u8)
        requires
            old(self).chunk().constants.values@.len() < usize::MAX,
        ensures
            final(self).chunk().constants.values@.len() == old(
                self,
            ).chunk().constants.values@.len() + 1,
            final(self).chunk().constants.values@.drop_last() == old(
                self,
            ).chunk().constants.values@,
            final(self).chunk().constants.values@.last() matches Value::Str(text) && text@
                == name.start@,
            final(self).chunk().code == old(self).chunk().code,
            final(self).chunk().line == old(self).chunk().line,
            final(self).same_but_chunk(old(self)),
            r == old(self).chunk().constants.values@.len() as u8,
    {
        let r = self.make_constant(Value::Str(name.start.clone()));
        proof {
            assert(self.chunk().constants.values@.drop_last() =~= old(
                self,
            ).chunk().constants.values@);
        }
        r
    }

    /// Appends the jump instruction `instruction` (its low byte) with a placeholder
    /// offset of two `0xff` bytes, and returns the position of the offset.
    pub fn emit_jump(&mut self, instruction: usize) -> (r: usize)
        ensures
            final(self).chunk().code@ == old(self).chunk().code@.push(instruction as u8).push(
                0xffu8,
            ).push(0xffu8),
            final(self).chunk().line@ == old(self).chunk().line@.push(
                old(self).previous.line as u32,
            ).push(old(self).previous.line as u32).push(old(self).previous.line as u32),
            final(self).chunk().constants == old(self).chunk().constants,
            final(self).same_but_chunk(old(self)),
            r == old(self).chunk().code@.len() + 1,
    {
        self.emit_byte(instruction as u8);
        self.emit_byte(0xff);
        self.emit_byte(0xff);
        self.compiler.function.function.chunk.code.len() - 2
    }

    /// Writes into the two bytes at `offset` the distance from after them to the
    /// end of the code, high byte first.
    pub fn patch_jump(&mut self, offset: usize)
        requires
            offset + 2 <= old(self).chunk().code@.len(),
        ensures
            final(self).chunk().code@ == patched_code(old(self).chunk().code@, offset as int),
            final(self).chunk().line == old(self).chunk().line,
            final(self).chunk().constants == old(self).chunk().constants,
            final(self).same_but_chunk(old(self)),
    {
        let jump = self.compiler.function.function.chunk.code.len() - offset - 2;
        self.compiler.function.function.chunk.code.set(offset, ((jump >> 8u64) & 0xff) as u8);
        self.compiler.function.function.chunk.code.set(offset + 1, (jump & 0xff) as u8);
    }

    /// Appends a `Loop` instruction back to `loop_start`: its offset is the
    /// distance from `loop_start` to after the instruction, high byte first.
    /// Reports "Loop body too large." when the offset does not fit in two bytes.
    pub fn emit_loop(&mut self, loop_start: usize)
        requires
            loop_start <= old(self).chunk().code@.len() + 1,
            old(self).chunk().code@.len() + 3 <= usize::MAX,
        ensures
            ({
                let offset = (old(self).chunk().code@.len() + 1 - loop_start + 2) as usize;
                &&& final(self).chunk().code@ == old(self).chunk().code@.push(
                    spec_op_byte(OpCode::Loop),
                ).push(((offset >> 8u64) & 0xff) as u8).push((offset & 0xff) as u8)
                &&& offset > 0xffff ==> final(self).reported(
                    old(self),
                    old(self).previous@,
                    "Loop body too large."@,
                )
                &&& offset <= 0xffff ==> final(self).same_errors(old(self))
            }),
            final(self).chunk().line@ == old(self).chunk().line@.push(
                old(self).previous.line as u32,
            ).push(old(self).previous.line as u32).push(old(self).previous.line as u32),
            final(self).chunk().constants == old(self).chunk().constants,
            final(self).with_chunk(old(self).chunk()).same_but_errors(old(self)),
    {
        self.emit_byte(OpCode::Loop.to_byte());
        let offset = self.compiler.function.function.chunk.code.len() - loop_start + 2;
        if offset > 0xffff {
            self.error("Loop body too large.");
        }
        self.emit_byte(((offset >> 8u64) & 0xff) as u8);
        self.emit_byte((offset & 0xff) as u8);
    }
}

} // verus!
