//! Disassembly of bytecode: what each instruction of a chunk shows, and where the
//! next one starts. (Printing the result is left to the caller.)
use vstd::prelude::*;

use crate::chunk::{spec_op_byte, Chunk, OpCode};
use crate::vm::{step_post, step_panics, Step, VmState};

verus! {

/// How an instruction shows.
#[derive(Debug, Clone, Copy, PartialEq, Eq, Structural)]
pub enum Shown {
    /// `{offset:04}<->{name}`; `None` shows as "Unknown opcode".
    Simple(Option<OpCode>),
    /// `{name}<->{index}<->{constant}`.
    Constant(OpCode, u8),
    /// `{name}<->{slot}`.
    Byte(OpCode, u8),
    /// `{name:<16} {offset:4} -> {target}`.
    Jump(OpCode, i64),
}

/// One disassembled instruction: the source line to show before it (`None` when it
/// is the line of the previous byte, which shows as `    | `), how it shows, and the
/// offset of the next instruction.
#[derive(Debug, Clone, Copy, PartialEq, Eq, Structural)]
pub struct Disassembly {
    pub offset: usize,
    pub line: Option<u32>,
    pub shown: Shown,
    pub next: usize,
}

/// The name under which a simple instruction shows, for the bytes that have one.
pub open spec fn simple_name(b: u8) -> Option<OpCode> {
    if b == spec_op_byte(OpCode::Return) {
        Option::Some(OpCode::Return)
    } else if b == spec_op_byte(OpCode::Negate) {
        Option::Some(OpCode::Negate)
    } else if b == spec_op_byte(OpCode::Add) {
        Option::Some(OpCode::Add)
    } else if b == spec_op_byte(OpCode::Subtract) {
        Option::Some(OpCode::Subtract)
    } else if b == spec_op_byte(OpCode::Multiply) {
        Option::Some(OpCode::Multiply)
    } else if b == spec_op_byte(OpCode::Divide) {
        Option::Some(OpCode::Divide)
    } else if b == spec_op_byte(OpCode::GreaterThan) {
        Option::Some(OpCode::GreaterThan)
    } else if b == spec_op_byte(OpCode::LessThan) {
        Option::Some(OpCode::LessThan)
    } else if b == spec_op_byte(OpCode::GreaterThanEq) {
        Option::Some(OpCode::GreaterThanEq)
    } else if b == spec_op_byte(OpCode::LessThanEq) {
        Option::Some(OpCode::LessThanEq)
    } else if b == spec_op_byte(OpCode::EqualTo) {
        Option::Some(OpCode::EqualTo)
    } else if b == spec_op_byte(OpCode::NotEqualTo) {
        Option::Some(OpCode::NotEqualTo)
    } else if b == spec_op_byte(OpCode::Abs) {
        Option::Some(OpCode::Abs)
    } else if b == spec_op_byte(OpCode::Reverse) {
        Option::Some(OpCode::Reverse)
    } else if b == spec_op_byte(OpCode::True) {
        Option::Some(OpCode::True)
    } else if b == spec_op_byte(OpCode::False) {
        Option::Some(OpCode::False)
    } else if b == spec_op_byte(OpCode::Void) {
        Option::Some(OpCode::Void)
    } else if b == spec_op_byte(OpCode::Not) {
        Option::Some(OpCode::Not)
    } else if b == spec_op_byte(OpCode::Pop) {
        Option::Some(OpCode::Pop)
    } else if b == spec_op_byte(OpCode::Cast) {
        Option::Some(OpCode::Cast)
    } else if b == spec_op_byte(OpCode::Println) {
        Option::Some(OpCode::Println)
    } else {
        Option::None
    }
}

/// The operation whose one-byte operand an instruction shows, for the bytes that have one.
pub open spec fn byte_name(b: u8) -> Option<OpCode> {
    if b == spec_op_byte(OpCode::GetLocal) {
        Option::Some(OpCode::GetLocal)
    } else if b == spec_op_byte(OpCode::SetLocal) {
        Option::Some(OpCode::SetLocal)
    } else if b == spec_op_byte(OpCode::Call) {
        Option::Some(OpCode::Call)
    } else {
        Option::None
    }
}

/// For jumps: the name they show under and the direction (`Jump` shows as `JumpIfFalse`).
pub open spec fn jump_name(b: u8) -> Option<(OpCode, int)> {
    if b == spec_op_byte(OpCode::JumpIfFalse) {
        Option::Some((OpCode::JumpIfFalse, 1))
    } else if b == spec_op_byte(OpCode::Jump) {
        Option::Some((OpCode::JumpIfFalse, 1))
    } else if b == spec_op_byte(OpCode::Loop) {
        Option::Some((OpCode::Loop, -1))
    } else {
        Option::None
    }
}

/// How many bytes the instruction `b` and its operands take.
pub open spec fn instruction_len(b: u8) -> int {
    if b == spec_op_byte(OpCode::Constant) || byte_name(b) is Some {
        2
    } else if jump_name(b) is Some {
        3
    } else {
        1
    }
}

/// Whether disassembling the instruction at `offset` panics: it or its line lies past
/// the end, a constant operand lies past the constants, a jump's operand lies past
/// the end, or a one-byte-operand instruction stands at offset 0 (it reads the byte
/// before it).
pub open spec fn instruction_panics(chunk: Chunk, offset: int) -> bool {
    let code = chunk.code@;
    if offset < 0 || offset >= code.len() || offset >= chunk.line@.len() {
        true
    } else {
        let b = code[offset];
        if b == spec_op_byte(OpCode::Constant) {
            offset + 1 >= code.len() || code[offset + 1] >= chunk.constants.values@.len()
        } else if byte_name(b) is Some {
            offset == 0
        } else if jump_name(b) is Some {
            offset + 2 >= code.len()
        } else {
            false
        }
    }
}

/// What the instruction at `offset` shows, and where the next one starts.
pub open spec fn spec_disassemble(chunk: Chunk, offset: int) -> Disassembly {
    let code = chunk.code@;
    let lines = chunk.line@;
    let b = code[offset];
    let line = if offset > 0 && lines[offset] == lines[offset - 1] {
        Option::None
    } else {
        Option::Some(lines[offset])
    };
    let (shown, next) = if b == spec_op_byte(OpCode::Constant) {
        (Shown::Constant(OpCode::Constant, code[offset + 1]), offset + 2)
    } else if byte_name(b) is Some {
        (Shown::Byte(byte_name(b)->0, code[offset - 1]), offset + 2)
    } else if jump_name(b) is Some {
        let (name, sign) = jump_name(b)->0;
        let jump = code[offset + 1] * 256 + code[offset + 2];
        let target = if sign == 1 {
            offset + 3 + jump
        } else {
            offset + 3 - jump
        };
        (Shown::Jump(name, target as i64), offset + 3)
    } else {
        (Shown::Simple(simple_name(b)), offset + 1)
    };
    Disassembly { offset: offset as usize, line, shown, next: next as usize }
}

/// Whether disassembling a whole chunk from `offset` on panics at some instruction.
pub open spec fn chunk_panics(chunk: Chunk, offset: int) -> bool
    decreases chunk.code@.len() + 3 - offset,
{
    if offset < 0 || offset >= chunk.code@.len() {
        false
    } else if instruction_panics(chunk, offset) {
        true
    } else {
        chunk_panics(chunk, offset + instruction_len(chunk.code@[offset]))
    }
}

/// The instructions of a chunk from `offset` on, each starting where the one
/// before it ends.
pub open spec fn spec_disassemble_from(chunk: Chunk, offset: int) -> Seq<Disassembly>
    decreases chunk.code@.len() + 3 - offset,
{
    if offset < 0 || offset >= chunk.code@.len() || instruction_panics(chunk, offset) {
        Seq::empty()
    } else {
        seq![spec_disassemble(chunk, offset)] + spec_disassemble_from(
            chunk,
            offset + instruction_len(chunk.code@[offset]),
        )
    }
}

/// Disassembles the instruction at `offset` (see `spec_disassemble`).
pub fn disassemble_instruction(chunk: &Chunk, offset: usize) -> (d: Disassembly)
    requires
        !instruction_panics(*chunk, offset as int),
        chunk.code@.len() <= isize::MAX - 65540,
    ensures
        d == spec_disassemble(*chunk, offset as int),
        d.next == offset + instruction_len(chunk.code@[offset as int]),
{
    let _ = chunk.code.len();
    let instruction = chunk.code[offset];
    let line = if offset > 0 && chunk.line[offset] == chunk.line[offset - 1] {
        None
    } else {
        Some(chunk.line[offset])
    };
    let (shown, next) = if instruction == OpCode::Constant.to_byte() {
        constant_instruction(chunk, OpCode::Constant, offset)
    } else if instruction == OpCode::GetLocal.to_byte() {
        byte_instruction(chunk, OpCode::GetLocal, offset)
    } else if instruction == OpCode::SetLocal.to_byte() {
        byte_instruction(chunk, OpCode::SetLocal, offset)
    } else if instruction == OpCode::Call.to_byte() {
        byte_instruction(chunk, OpCode::Call, offset)
    } else if instruction == OpCode::JumpIfFalse.to_byte() {
        jump_instruction(chunk, OpCode::JumpIfFalse, 1, offset)
    } else if instruction == OpCode::Jump.to_byte() {
        jump_instruction(chunk, OpCode::JumpIfFalse, 1, offset)
    } else if instruction == OpCode::Loop.to_byte() {
        jump_instruction(chunk, OpCode::Loop, -1, offset)
    } else {
        simple_instruction(simple_name_of(instruction), offset)
    };
    Disassembly { offset, line, shown, next }
}

/// The machine steps over an instruction as the disassembler does: the next
/// instruction starts `instruction_len` bytes on. Jumps and calls are the
/// exception: the machine does not run them and moves one byte on.
pub proof fn lemma_step_matches_disassembly(o: VmState, n: VmState, out: Step)
    requires
        !step_panics(o),
        step_post(o, n, out),
        jump_name(o.code[o.ip]) is None,
        o.code[o.ip] != spec_op_byte(OpCode::Call),
    ensures
        n.ip == o.ip + instruction_len(o.code[o.ip]),
{
}

/// Whether disassembling the instruction at `offset` would panic (see
/// `instruction_panics`), and otherwise where the next instruction starts.
fn instruction_check(chunk: &Chunk, offset: usize) -> (r: Option<usize>)
    requires
        chunk.code@.len() <= isize::MAX - 65540,
        offset < chunk.code@.len(),
    ensures
        r is None <==> instruction_panics(*chunk, offset as int),
        r matches Option::Some(next) ==> next == offset + instruction_len(chunk.code@[offset as int]),
{
    if offset >= chunk.line.len() {
        return None;
    }
    let b = chunk.code[offset];
    if b == OpCode::Constant.to_byte() {
        if offset + 1 >= chunk.code.len() || chunk.code[offset + 1] as usize
            >= chunk.constants.values.len() {
            None
        } else {
            Some(offset + 2)
        }
    } else if b == OpCode::GetLocal.to_byte() || b == OpCode::SetLocal.to_byte() || b
        == OpCode::Call.to_byte() {
        if offset == 0 {
            None
        } else {
            Some(offset + 2)
        }
    } else if b == OpCode::JumpIfFalse.to_byte() || b == OpCode::Jump.to_byte() || b
        == OpCode::Loop.to_byte() {
        if offset + 2 >= chunk.code.len() {
            None
        } else {
            Some(offset + 3)
        }
    } else {
        Some(offset + 1)
    }
}

/// Whether disassembling the whole chunk would panic (see `chunk_panics`).
pub fn chunk_would_panic(chunk: &Chunk) -> (r: bool)
    requires
        chunk.code@.len() <= isize::MAX - 65540,
    ensures
        r == chunk_panics(*chunk, 0),
{
    let mut offset: usize = 0;
    while offset < chunk.code.len()
        invariant
            chunk.code@.len() <= isize::MAX - 65540,
            chunk_panics(*chunk, offset as int) == chunk_panics(*chunk, 0),
            offset <= chunk.code@.len() + 3,
        decreases chunk.code@.len() + 3 - offset,
    {
        match instruction_check(chunk, offset) {
            None => {
                return true;
            },
            Some(next) => {
                offset = next;
            },
        }
    }
    false
}

/// Disassembles a whole chunk, instruction after instruction (see `spec_disassemble_from`).
pub fn disassemble_chunk(chunk: &Chunk) -> (r: Vec<Disassembly>)
    requires
        !chunk_panics(*chunk, 0),
        chunk.code@.len() <= isize::MAX - 65540,
    ensures
        r@ == spec_disassemble_from(*chunk, 0),
{
    let mut r: Vec<Disassembly> = Vec::new();
    let mut offset: usize = 0;
    while offset < chunk.code.len()
        invariant
            !chunk_panics(*chunk, offset as int),
            chunk.code@.len() <= isize::MAX - 65540,
            r@ + spec_disassemble_from(*chunk, offset as int) == spec_disassemble_from(*chunk, 0),
        decreases chunk.code@.len() + 3 - offset,
    {
        let d = disassemble_instruction(chunk, offset);
        r.push(d);
        proof {
            assert(spec_disassemble_from(*chunk, offset as int) == seq![d]
                + spec_disassemble_from(*chunk, d.next as int));
            assert(r@ + spec_disassemble_from(*chunk, d.next as int) =~= spec_disassemble_from(
                *chunk,
                0,
            ));
        }
        offset = d.next;
    }
    assert(r@ =~= spec_disassemble_from(*chunk, 0));
    r
}

/// An instruction of no operand: shows its name; the next one follows it.
pub fn simple_instruction(name: Option<OpCode>, offset: usize) -> (r: (Shown, usize))
    requires
        offset < usize::MAX,
    ensures
        r == (Shown::Simple(name), (offset + 1) as usize),
{
    (Shown::Simple(name), offset + 1)
}

/// An instruction with a constant operand: shows the constant's index; the next
/// instruction follows the operand.
pub fn constant_instruction(chunk: &Chunk, name: OpCode, offset: usize) -> (r: (Shown, usize))
    requires
        offset + 1 < chunk.code@.len(),
        chunk.code@.len() <= isize::MAX - 65540,
    ensures
        r == (Shown::Constant(name, chunk.code@[offset + 1]), (offset + 2) as usize),
{
    let _ = chunk.code.len();
    let constant = chunk.code[offset + 1];
    (Shown::Constant(name, constant), offset + 2)
}

/// An instruction with a one-byte operand: shows the byte before the instruction;
/// the next instruction follows the operand.
pub fn byte_instruction(chunk: &Chunk, name: OpCode, offset: usize) -> (r: (Shown, usize))
    requires
        0 < offset < chunk.code@.len(),
        chunk.code@.len() <= isize::MAX - 65540,
    ensures
        r == (Shown::Byte(name, chunk.code@[offset - 1]), (offset + 2) as usize),
{
    let _ = chunk.code.len();
    let slot = chunk.code[offset - 1];
    (Shown::Byte(name, slot), offset + 2)
}

/// A jump: shows where it lands, `offset + 3 + sign * jump` for the two operand
/// bytes `jump` (high byte first); the next instruction follows the operands.
pub fn jump_instruction(chunk: &Chunk, name: OpCode, sign: i64, offset: usize) -> (r: (Shown, usize))
    requires
        offset + 2 < chunk.code@.len(),
        chunk.code@.len() <= isize::MAX - 65540,
        sign == 1 || sign == -1,
    ensures
        r == (Shown::Jump(
            name,
            (if sign == 1 {
                offset + 3 + (chunk.code@[offset + 1] * 256 + chunk.code@[offset + 2])
            } else {
                offset + 3 - (chunk.code@[offset + 1] * 256 + chunk.code@[offset + 2])
            }) as i64,
        ), (offset + 3) as usize),
{
    let _ = chunk.code.len();
    let high = chunk.code[offset + 1] as u16;
    let low = chunk.code[offset + 2] as u16;
    let jump: u16 = high * 256 + low;
    let target = if sign == 1 {
        offset as i64 + 3 + jump as i64
    } else {
        offset as i64 + 3 - jump as i64
    };
    (Shown::Jump(name, target), offset + 3)
}

/// The name of a simple instruction (see `simple_name`).
fn simple_name_of(b: u8) -> (r: Option<OpCode>)
    ensures
        r == simple_name(b),
{
    if b == OpCode::Return.to_byte() {
        Some(OpCode::Return)
    } else if b == OpCode::Negate.to_byte() {
        Some(OpCode::Negate)
    } else if b == OpCode::Add.to_byte() {
        Some(OpCode::Add)
    } else if b == OpCode::Subtract.to_byte() {
        Some(OpCode::Subtract)
    } else if b == OpCode::Multiply.to_byte() {
        Some(OpCode::Multiply)
    } else if b == OpCode::Divide.to_byte() {
        Some(OpCode::Divide)
    } else if b == OpCode::GreaterThan.to_byte() {
        Some(OpCode::GreaterThan)
    } else if b == OpCode::LessThan.to_byte() {
        Some(OpCode::LessThan)
    } else if b == OpCode::GreaterThanEq.to_byte() {
        Some(OpCode::GreaterThanEq)
    } else if b == OpCode::LessThanEq.to_byte() {
        Some(OpCode::LessThanEq)
    } else if b == OpCode::EqualTo.to_byte() {
        Some(OpCode::EqualTo)
    } else if b == OpCode::NotEqualTo.to_byte() {
        Some(OpCode::NotEqualTo)
    } else if b == OpCode::Abs.to_byte() {
        Some(OpCode::Abs)
    } else if b == OpCode::Reverse.to_byte() {
        Some(OpCode::Reverse)
    } else if b == OpCode::True.to_byte() {
        Some(OpCode::True)
    } else if b == OpCode::False.to_byte() {
        Some(OpCode::False)
    } else if b == OpCode::Void.to_byte() {
        Some(OpCode::Void)
    } else if b == OpCode::Not.to_byte() {
        Some(OpCode::Not)
    } else if b == OpCode::Pop.to_byte() {
        Some(OpCode::Pop)
    } else if b == OpCode::Cast.to_byte() {
        Some(OpCode::Cast)
    } else if b == OpCode::Println.to_byte() {
        Some(OpCode::Println)
    } else {
        None
    }
}

} // verus!
