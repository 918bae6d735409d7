//! Bytecode: operation codes and chunks of code with their constants and lines.
use vstd::prelude::*;

use crate::value::{same_values, Value, ValueArray};

verus! {

/// The operations of the virtual machine. An operation is encoded as one byte, its
/// position in this list (see `OpCode::to_byte`).
#[derive(Debug, Clone, Copy, PartialEq, Eq, Structural)]
pub enum OpCode {
    Return,
    Constant,
    // Unary operations
    Negate,
    // Binary operations
    Add,
    Subtract,
    Multiply,
    Divide,
    Modulo,
    // Comparison operations
    GreaterThan,
    LessThan,
    GreaterThanEq,
    LessThanEq,
    EqualTo,
    NotEqualTo,
    // Normal functions
    Print,
    Println,
    // Number functions
    Abs,
    Floor,
    Ceil,
    Round,
    SquareRoot,
    // String functions
    IsEmpty,
    Trim,
    Reverse,
    // Values of the boolean type
    True,
    False,
    Not,
    // Variables
    GetLocal,
    SetLocal,
    // Other
    Void,
    Pop,
    // Control flow and data, emitted by the compiler
    JumpIfFalse,
    Jump,
    Loop,
    Cast,
    Call,
    DefineGlobal,
    GetGlobal,
    Dup,
    OptSome,
    OptNone,
    Array,
    NewArray,
    IndexArray,
    Push,
    PopArray,
    Len,
    Grab,
    Input,
    AddAdd,
    MinusMinus,
}

/// The byte of each operation: its position in the list of operations.
pub open spec fn spec_op_byte(op: OpCode) -> u8 {
    match op {
        OpCode::Return => 0,
        OpCode::Constant => 1,
        OpCode::Negate => 2,
        OpCode::Add => 3,
        OpCode::Subtract => 4,
        OpCode::Multiply => 5,
        OpCode::Divide => 6,
        OpCode::Modulo => 7,
        OpCode::GreaterThan => 8,
        OpCode::LessThan => 9,
        OpCode::GreaterThanEq => 10,
        OpCode::LessThanEq => 11,
        OpCode::EqualTo => 12,
        OpCode::NotEqualTo => 13,
        OpCode::Print => 14,
        OpCode::Println => 15,
        OpCode::Abs => 16,
        OpCode::Floor => 17,
        OpCode::Ceil => 18,
        OpCode::Round => 19,
        OpCode::SquareRoot => 20,
        OpCode::IsEmpty => 21,
        OpCode::Trim => 22,
        OpCode::Reverse => 23,
        OpCode::True => 24,
        OpCode::False => 25,
        OpCode::Not => 26,
        OpCode::GetLocal => 27,
        OpCode::SetLocal => 28,
        OpCode::Void => 29,
        OpCode::Pop => 30,
        OpCode::JumpIfFalse => 31,
        OpCode::Jump => 32,
        OpCode::Loop => 33,
        OpCode::Cast => 34,
        OpCode::Call => 35,
        OpCode::DefineGlobal => 36,
        OpCode::GetGlobal => 37,
        OpCode::Dup => 38,
        OpCode::OptSome => 39,
        OpCode::OptNone => 40,
        OpCode::Array => 41,
        OpCode::NewArray => 42,
        OpCode::IndexArray => 43,
        OpCode::Push => 44,
        OpCode::PopArray => 45,
        OpCode::Len => 46,
        OpCode::Grab => 47,
        OpCode::Input => 48,
        OpCode::AddAdd => 49,
        OpCode::MinusMinus => 50,
    }
}

/// The number of operations.
pub open spec fn op_count() -> u8 {
    51
}

impl OpCode {
    /// The byte that encodes the operation.
    pub fn to_byte(self) -> (b: u8)
        ensures
            b == spec_op_byte(self),
    {
        match self {
            OpCode::Return => 0,
            OpCode::Constant => 1,
            OpCode::Negate => 2,
            OpCode::Add => 3,
            OpCode::Subtract => 4,
            OpCode::Multiply => 5,
            OpCode::Divide => 6,
            OpCode::Modulo => 7,
            OpCode::GreaterThan => 8,
            OpCode::LessThan => 9,
            OpCode::GreaterThanEq => 10,
            OpCode::LessThanEq => 11,
            OpCode::EqualTo => 12,
            OpCode::NotEqualTo => 13,
            OpCode::Print => 14,
            OpCode::Println => 15,
            OpCode::Abs => 16,
            OpCode::Floor => 17,
            OpCode::Ceil => 18,
            OpCode::Round => 19,
            OpCode::SquareRoot => 20,
            OpCode::IsEmpty => 21,
            OpCode::Trim => 22,
            OpCode::Reverse => 23,
            OpCode::True => 24,
            OpCode::False => 25,
            OpCode::Not => 26,
            OpCode::GetLocal => 27,
            OpCode::SetLocal => 28,
            OpCode::Void => 29,
            OpCode::Pop => 30,
            OpCode::JumpIfFalse => 31,
            OpCode::Jump => 32,
            OpCode::Loop => 33,
            OpCode::Cast => 34,
            OpCode::Call => 35,
            OpCode::DefineGlobal => 36,
            OpCode::GetGlobal => 37,
            OpCode::Dup => 38,
            OpCode::OptSome => 39,
            OpCode::OptNone => 40,
            OpCode::Array => 41,
            OpCode::NewArray => 42,
            OpCode::IndexArray => 43,
            OpCode::Push => 44,
            OpCode::PopArray => 45,
            OpCode::Len => 46,
            OpCode::Grab => 47,
            OpCode::Input => 48,
            OpCode::AddAdd => 49,
            OpCode::MinusMinus => 50,
        }
    }
}

/// A chunk of bytecode: the code, the constants it refers to, and for each byte
/// of code the source line it came from.
#[derive(Debug)]
pub struct Chunk {
    pub code: Vec<u8>,
    pub constants: ValueArray,
    pub line: Vec<u32>,
}

impl Clone for Chunk {
    fn clone(&self) -> (r: Self)
        ensures
            r.code@ == self.code@,
            r.line@ == self.line@,
            same_values(r.constants.values@, self.constants.values@),
    {
        Chunk { code: self.code.clone(), constants: self.constants.clone(), line: self.line.clone() }
    }
}

impl Chunk {
    /// An empty chunk.
    pub fn new() -> (c: Chunk)
        ensures
            c.code@.len() == 0,
            c.constants.values@.len() == 0,
            c.line@.len() == 0,
    {
        Chunk { code: Vec::new(), constants: ValueArray::new(), line: Vec::new() }
    }

    /// Appends one byte of code, from source line `line`.
    pub fn write_chunk(&mut self, byte: u8, line: u32)
        ensures
            final(self).code@ == old(self).code@.push(byte),
            final(self).line@ == old(self).line@.push(line),
            final(self).constants == old(self).constants,
    {
        self.code.push(byte);
        self.line.push(line);
    }

    /// Appends `value` to the constants and returns its index.
    pub fn add_const(&mut self, value: Value) -> (i: usize)
        requires
            old(self).constants.values@.len() < usize::MAX,
        ensures
            final(self).constants.values@ == old(self).constants.values@.push(value),
            final(self).code == old(self).code,
            final(self).line == old(self).line,
            i == old(self).constants.values@.len(),
    {
        self.constants.write_valuearray(value);
        self.constants.values.len() - 1
    }
}

} // verus!
