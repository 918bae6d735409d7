//! The virtual machine: executes a chunk of bytecode on a stack of values.
//!
//! The machine runs one instruction per call of `Vm::step`. What it cannot do itself
//! it hands to its caller in the step's outcome: printing, reporting errors, and the
//! arithmetic of floats, whose result the caller gives back with `Vm::resume`.
use vstd::prelude::*;

use crate::chunk::{spec_op_byte, Chunk, OpCode};
use crate::text::{char_is_whitespace, push_char, string_from};
use crate::value::{same_value, Value};

verus! {

/// How a run of the machine ended.
#[derive(Debug, Clone, Copy, PartialEq, Eq, Structural)]
pub enum InterpretResult {
    Success,
    CompileError,
    RuntimeError,
}

/// A comparison between two numbers.
#[derive(Debug, Clone, Copy, PartialEq, Eq, Structural)]
pub enum CompareOp {
    Greater,
    Less,
    GreaterEq,
    LessEq,
    Equal,
    NotEqual,
}

/// An operand of a float operation: the bits of a float, or an int to be
/// converted to a float first.
#[derive(Debug, Clone, Copy, PartialEq, Eq, Structural)]
pub enum FloatOperand {
    Bits(u64),
    FromInt(i64),
}

/// A float operation that the caller of `step` computes.
///
/// `Arith(op, a, b)` is `a op b` for `op` one of `+ - * / %`; a division by zero
/// (of either sign) prints "Can not divide by zero!" and gives `0.0`.
/// `Compare` gives a bool; `Floor`, `Ceil`, `Round` and `Sqrt` give a float.
#[derive(Debug, Clone, Copy, PartialEq, Eq, Structural)]
pub enum FloatOp {
    Arith(char, FloatOperand, FloatOperand),
    Compare(CompareOp, u64, u64),
    Floor(u64),
    Ceil(u64),
    Round(u64),
    Sqrt(u64),
}

/// The operation whose operand had the wrong type, for a runtime error.
#[derive(Debug, Clone, Copy, PartialEq, Eq, Structural)]
pub enum RuntimeErrorKind {
    Abs,
    Floor,
    Ceil,
    Round,
    Sqrt,
    IsEmpty,
    Trim,
    Reverse,
    Not,
}

/// What one step of the machine asks of its caller.
#[derive(Debug)]
pub enum Step {
    /// Nothing: go on.
    Continue,
    /// The program returned with this result.
    Finished(InterpretResult),
    /// Print the value, then go on.
    Print(Value),
    /// Print the value and a new line, then go on.
    PrintLine(Value),
    /// Report that the operation cannot take the value, at the line; the value is
    /// back on the stack. Then go on.
    RuntimeError { kind: RuntimeErrorKind, value: Value, line: u32 },
    /// Report "Can not divide by zero!"; an int 0 was pushed. Then go on.
    DivideByZero,
    /// Compute the float operation and give the result to `resume`.
    Float(FloatOp),
}

/// The virtual machine.
pub struct Vm {
    chunk: Chunk,
    ip: usize,
    stack: Vec<Value>,
    awaiting: bool,
}

/// The state of the machine: the chunk it runs, the position of the next
/// instruction, the stack, and whether it waits for the result of a float operation.
pub struct VmState {
    pub code: Seq<u8>,
    pub constants: Seq<Value>,
    pub lines: Seq<u32>,
    pub ip: int,
    pub stack: Seq<Value>,
    pub awaiting: bool,
}

impl View for Vm {
    type V = VmState;

    closed spec fn view(&self) -> VmState {
        VmState {
            code: self.chunk.code@,
            constants: self.chunk.constants.values@,
            lines: self.chunk.line@,
            ip: self.ip as int,
            stack: self.stack@,
            awaiting: self.awaiting,
        }
    }
}

/// The sign bit of a float's encoding.
pub open spec fn sign_bit() -> u64 {
    0x8000_0000_0000_0000u64
}

/// The stack after popping, and the value popped (`Void` from an empty stack).
pub open spec fn popped(s: Seq<Value>) -> (Seq<Value>, Value) {
    if s.len() == 0 {
        (s, Value::Void)
    } else {
        (s.drop_last(), s.last())
    }
}

/// The top of the stack, or `Void` for an empty stack.
pub open spec fn top_or_void(s: Seq<Value>) -> Value {
    if s.len() == 0 {
        Value::Void
    } else {
        s.last()
    }
}

/// The character of an arithmetic operation, for the bytes of `Add` .. `Modulo`.
pub open spec fn arith_char(b: u8) -> Option<char> {
    if b == spec_op_byte(OpCode::Add) {
        Option::Some('+')
    } else if b == spec_op_byte(OpCode::Subtract) {
        Option::Some('-')
    } else if b == spec_op_byte(OpCode::Multiply) {
        Option::Some('*')
    } else if b == spec_op_byte(OpCode::Divide) {
        Option::Some('/')
    } else if b == spec_op_byte(OpCode::Modulo) {
        Option::Some('%')
    } else {
        Option::None
    }
}

/// The comparison of the bytes of `GreaterThan` .. `NotEqualTo`.
pub open spec fn compare_of(b: u8) -> Option<CompareOp> {
    if b == spec_op_byte(OpCode::GreaterThan) {
        Option::Some(CompareOp::Greater)
    } else if b == spec_op_byte(OpCode::LessThan) {
        Option::Some(CompareOp::Less)
    } else if b == spec_op_byte(OpCode::GreaterThanEq) {
        Option::Some(CompareOp::GreaterEq)
    } else if b == spec_op_byte(OpCode::LessThanEq) {
        Option::Some(CompareOp::LessEq)
    } else if b == spec_op_byte(OpCode::EqualTo) {
        Option::Some(CompareOp::Equal)
    } else if b == spec_op_byte(OpCode::NotEqualTo) {
        Option::Some(CompareOp::NotEqual)
    } else {
        Option::None
    }
}

/// Whether the int operation `op` on `a` and `b` panics: it overflows, or it is a
/// remainder by zero.
pub open spec fn int_op_panics(op: char, a: i64, b: i64) -> bool {
    if op == '+' {
        a + b < i64::MIN || a + b > i64::MAX
    } else if op == '-' {
        a - b < i64::MIN || a - b > i64::MAX
    } else if op == '*' {
        a * b < i64::MIN || a * b > i64::MAX
    } else if op == '/' {
        b != 0 && a == i64::MIN && b == -1
    } else if op == '%' {
        b == 0 || (a == i64::MIN && b == -1)
    } else {
        false
    }
}

/// The result of the int operation `op`, as Rust computes it (`/` rounds toward
/// zero, `%` takes the sign of the dividend): `None` for a division by zero or an
/// unknown operation, and for the operations that panic.
pub open spec fn spec_int_op(op: char, a: i64, b: i64) -> Option<i64> {
    if op == '+' {
        i64::checked_add(a, b)
    } else if op == '-' {
        i64::checked_sub(a, b)
    } else if op == '*' {
        i64::checked_mul(a, b)
    } else if op == '/' {
        i64::checked_div(a, b)
    } else if op == '%' {
        i64::checked_rem(a, b)
    } else {
        Option::None
    }
}

/// The comparison `op` of two ints.
pub open spec fn spec_compare(op: CompareOp, a: i64, b: i64) -> bool {
    match op {
        CompareOp::Greater => a > b,
        CompareOp::Less => a < b,
        CompareOp::GreaterEq => a >= b,
        CompareOp::LessEq => a <= b,
        CompareOp::NotEqual => a != b,
        CompareOp::Equal => a == b,
    }
}

/// Whether `r` is `s` without its leading and trailing whitespace.
pub open spec fn is_trim_of(r: Seq<char>, s: Seq<char>) -> bool {
    exists|i: int, j: int|
        #![trigger s.subrange(i, j)]
        {
            &&& 0 <= i <= j <= s.len()
            &&& r == s.subrange(i, j)
            &&& forall|k: int| 0 <= k < i ==> char_is_whitespace(#[trigger] s[k])
            &&& forall|k: int| j <= k < s.len() ==> char_is_whitespace(#[trigger] s[k])
            &&& i < j ==> !char_is_whitespace(s[i]) && !char_is_whitespace(s[j - 1])
        }
}

/// The operation that reports a runtime error when the top of the stack is `v`
/// and the instruction is `b`, if it does.
pub open spec fn error_kind(b: u8, v: Value) -> Option<RuntimeErrorKind> {
    if b == spec_op_byte(OpCode::Abs) && !(v is Float) && !(v is Int) {
        Option::Some(RuntimeErrorKind::Abs)
    } else if b == spec_op_byte(OpCode::Floor) && !(v is Float) {
        Option::Some(RuntimeErrorKind::Floor)
    } else if b == spec_op_byte(OpCode::Ceil) && !(v is Float) {
        Option::Some(RuntimeErrorKind::Ceil)
    } else if b == spec_op_byte(OpCode::Round) && !(v is Float) {
        Option::Some(RuntimeErrorKind::Round)
    } else if b == spec_op_byte(OpCode::SquareRoot) && !(v is Float) && !(v is Int) {
        Option::Some(RuntimeErrorKind::Sqrt)
    } else if b == spec_op_byte(OpCode::IsEmpty) && !(v is Str) {
        Option::Some(RuntimeErrorKind::IsEmpty)
    } else if b == spec_op_byte(OpCode::Trim) && !(v is Str) {
        Option::Some(RuntimeErrorKind::Trim)
    } else if b == spec_op_byte(OpCode::Reverse) && !(v is Str) {
        Option::Some(RuntimeErrorKind::Reverse)
    } else if b == spec_op_byte(OpCode::Not) && !(v is Bool) {
        Option::Some(RuntimeErrorKind::Not)
    } else {
        Option::None
    }
}

/// Whether executing the next instruction from `st` panics: the code runs out, an
/// operand indexes past the constants or the stack, int arithmetic overflows or
/// takes a remainder by zero, or a runtime error has no line to report.
pub open spec fn step_panics(st: VmState) -> bool {
    if st.ip < 0 || st.ip >= st.code.len() {
        true
    } else {
        let b = st.code[st.ip];
        let (s1, top) = popped(st.stack);
        let (s2, below) = popped(s1);
        ||| b == spec_op_byte(OpCode::Constant) && (st.ip + 1 >= st.code.len() || st.code[st.ip
            + 1] >= st.constants.len())
        ||| (b == spec_op_byte(OpCode::GetLocal) || b == spec_op_byte(OpCode::SetLocal)) && (st.ip
            + 1 >= st.code.len() || st.code[st.ip + 1] >= st.stack.len())
        ||| (b == spec_op_byte(OpCode::Negate) || b == spec_op_byte(OpCode::Abs)) && top
            == Value::Int(i64::MIN)
        ||| arith_char(b) is Some && below is Int && top is Int && int_op_panics(
            arith_char(b)->0,
            below->Int_0,
            top->Int_0,
        )
        ||| error_kind(b, top) is Some && st.ip >= st.lines.len()
    }
}

/// The stack `n` is `s` with one more value on top, which satisfies `p`.
pub open spec fn pushed_one(n: Seq<Value>, s: Seq<Value>, p: spec_fn(Value) -> bool) -> bool {
    &&& n.len() == s.len() + 1
    &&& n == s.push(n.last())
    &&& p(n.last())
}

/// What executing the next instruction from `o` does: the state `n` after it, and
/// the outcome `out` handed to the caller.
pub open spec fn step_post(o: VmState, n: VmState, out: Step) -> bool {
    let b = o.code[o.ip];
    let ip1 = o.ip + 1;
    let (s1, top) = popped(o.stack);
    let (s2, below) = popped(s1);
    let cont = out is Continue && !n.awaiting;
    let waits_for = |f: FloatOp| out == Step::Float(f) && n.awaiting;
    let reports = |kind: RuntimeErrorKind|
        {
            &&& out matches Step::RuntimeError { kind: k, value: v, line: l } && k == kind
                && same_value(v, top) && l == o.lines[o.ip]
            &&& n.stack == s1.push(top)
            &&& !n.awaiting
        };
    &&& n.code == o.code
    &&& n.constants == o.constants
    &&& n.lines == o.lines
    &&& if b == spec_op_byte(OpCode::Return) {
        &&& n.ip == ip1
        &&& n.stack == o.stack
        &&& out == Step::Finished(InterpretResult::Success)
        &&& !n.awaiting
    } else if b == spec_op_byte(OpCode::Constant) {
        &&& n.ip == ip1 + 1
        &&& pushed_one(n.stack, o.stack, |v: Value| same_value(v, o.constants[o.code[ip1] as int]))
        &&& cont
    } else if b == spec_op_byte(OpCode::GetLocal) {
        &&& n.ip == ip1 + 1
        &&& pushed_one(n.stack, o.stack, |v: Value| same_value(v, o.stack[o.code[ip1] as int]))
        &&& cont
    } else if b == spec_op_byte(OpCode::SetLocal) {
        &&& n.ip == ip1 + 1
        &&& n.stack.len() == o.stack.len()
        &&& forall|i: int|
            0 <= i < o.stack.len() && i != o.code[ip1] ==> n.stack[i] == #[trigger] o.stack[i]
        &&& same_value(n.stack[o.code[ip1] as int], top_or_void(o.stack))
        &&& cont
    } else {
        &&& n.ip == ip1
        &&& if b == spec_op_byte(OpCode::Negate) {
            &&& n.stack == s1.push(
                match top {
                    Value::Float(x) => Value::Float(x ^ sign_bit()),
                    Value::Int(x) => Value::Int((-x) as i64),
                    _ => Value::Void,
                },
            )
            &&& cont
        } else if arith_char(b) is Some {
            let c = arith_char(b)->0;
            match (below, top) {
                (Value::Float(x), Value::Float(y)) => n.stack == s2 && waits_for(
                    FloatOp::Arith(c, FloatOperand::Bits(x), FloatOperand::Bits(y)),
                ),
                (Value::Int(x), Value::Int(y)) => if c == '/' && y == 0 {
                    n.stack == s2.push(Value::Int(0)) && out is DivideByZero && !n.awaiting
                } else {
                    n.stack == s2.push(Value::Int(spec_int_op(c, x, y)->0)) && cont
                },
                (Value::Float(x), Value::Int(y)) => n.stack == s2 && waits_for(
                    FloatOp::Arith(c, FloatOperand::Bits(x), FloatOperand::FromInt(y)),
                ),
                (Value::Int(x), Value::Float(y)) => n.stack == s2 && waits_for(
                    FloatOp::Arith(c, FloatOperand::FromInt(x), FloatOperand::Bits(y)),
                ),
                (Value::Str(x), Value::Str(y)) => pushed_one(
                    n.stack,
                    s2,
                    |v: Value| v is Str && v->Str_0@ == x@ + y@,
                ) && cont,
                _ => n.stack == s2 && cont,
            }
        } else if compare_of(b) is Some {
            let c = compare_of(b)->0;
            match (below, top) {
                (Value::Float(x), Value::Float(y)) => n.stack == s2 && waits_for(
                    FloatOp::Compare(c, x, y),
                ),
                (Value::Int(x), Value::Int(y)) => n.stack == s2.push(
                    Value::Bool(spec_compare(c, x, y)),
                ) && cont,
                _ => n.stack == s2 && cont,
            }
        } else if b == spec_op_byte(OpCode::Print) {
            n.stack == s1 && out == Step::Print(top) && !n.awaiting
        } else if b == spec_op_byte(OpCode::Println) {
            n.stack == s1 && out == Step::PrintLine(top) && !n.awaiting
        } else if error_kind(b, top) is Some {
            reports(error_kind(b, top)->0)
        } else if b == spec_op_byte(OpCode::Abs) {
            n.stack == s1.push(
                match top {
                    Value::Float(x) => Value::Float(x & !sign_bit()),
                    Value::Int(x) => Value::Int(if x < 0 {
                        (-x) as i64
                    } else {
                        x
                    }),
                    _ => Value::Void,
                },
            ) && cont
        } else if b == spec_op_byte(OpCode::Floor) {
            n.stack == s1 && waits_for(FloatOp::Floor(top->Float_0))
        } else if b == spec_op_byte(OpCode::Ceil) {
            n.stack == s1 && waits_for(FloatOp::Ceil(top->Float_0))
        } else if b == spec_op_byte(OpCode::Round) {
            n.stack == s1 && waits_for(FloatOp::Round(top->Float_0))
        } else if b == spec_op_byte(OpCode::SquareRoot) {
            if top is Float {
                n.stack == s1 && waits_for(FloatOp::Sqrt(top->Float_0))
            } else {
                n.stack == s1.push(Value::Float(0)) && cont
            }
        } else if b == spec_op_byte(OpCode::IsEmpty) {
            n.stack == s1.push(Value::Bool(top->Str_0@.len() == 0)) && cont
        } else if b == spec_op_byte(OpCode::Trim) {
            pushed_one(n.stack, s1, |v: Value| v is Str && is_trim_of(v->Str_0@, top->Str_0@))
                && cont
        } else if b == spec_op_byte(OpCode::Reverse) {
            pushed_one(n.stack, s1, |v: Value| v is Str && v->Str_0@ == top->Str_0@.reverse())
                && cont
        } else if b == spec_op_byte(OpCode::True) {
            n.stack == o.stack.push(Value::Bool(true)) && cont
        } else if b == spec_op_byte(OpCode::False) {
            n.stack == o.stack.push(Value::Bool(false)) && cont
        } else if b == spec_op_byte(OpCode::Void) {
            n.stack == o.stack.push(Value::Void) && cont
        } else if b == spec_op_byte(OpCode::Not) {
            n.stack == s1.push(Value::Bool(!top->Bool_0)) && cont
        } else if b == spec_op_byte(OpCode::Pop) {
            n.stack == s1 && cont
        } else {
            n.stack == o.stack && cont
        }
    }
}

/// Reversing a string twice gives it back: two `Reverse` instructions in a row
/// leave the stack as it was, up to the string's identity.
pub proof fn lemma_reverse_twice(o: VmState, n: VmState, m: VmState, out1: Step, out2: Step)
    requires
        !step_panics(o),
        o.code[o.ip] == spec_op_byte(OpCode::Reverse),
        o.code[o.ip + 1] == spec_op_byte(OpCode::Reverse),
        o.stack.len() > 0,
        o.stack.last() is Str,
        step_post(o, n, out1),
        !step_panics(n),
        step_post(n, m, out2),
    ensures
        m.ip == o.ip + 2,
        m.stack.len() == o.stack.len(),
        m.stack.drop_last() == o.stack.drop_last(),
        m.stack.last() is Str,
        m.stack.last()->Str_0@ == o.stack.last()->Str_0@,
        out1 is Continue && out2 is Continue,
{
    assert(n.stack.drop_last() == o.stack.drop_last());
    assert(o.stack.last()->Str_0@.reverse().reverse() =~= o.stack.last()->Str_0@);
}

/// Negating twice gives the value back: two `Negate` instructions in a row leave
/// an int (other than the least, whose negation overflows) or a float as it was.
pub proof fn lemma_negate_twice(o: VmState, n: VmState, m: VmState, out1: Step, out2: Step)
    requires
        !step_panics(o),
        o.code[o.ip] == spec_op_byte(OpCode::Negate),
        o.code[o.ip + 1] == spec_op_byte(OpCode::Negate),
        o.stack.len() > 0,
        o.stack.last() is Int || o.stack.last() is Float,
        step_post(o, n, out1),
        !step_panics(n),
        step_post(n, m, out2),
    ensures
        m.ip == o.ip + 2,
        m.stack == o.stack,
        out1 is Continue && out2 is Continue,
{
    assert(n.stack.drop_last() == o.stack.drop_last());
    if let Value::Float(x) = o.stack.last() {
        assert((x ^ sign_bit()) ^ sign_bit() == x) by (bit_vector);
    }
    assert(m.stack =~= o.stack);
}

/// Logical negation twice gives the bool back.
pub proof fn lemma_not_twice(o: VmState, n: VmState, m: VmState, out1: Step, out2: Step)
    requires
        !step_panics(o),
        o.code[o.ip] == spec_op_byte(OpCode::Not),
        o.code[o.ip + 1] == spec_op_byte(OpCode::Not),
        o.stack.len() > 0,
        o.stack.last() is Bool,
        step_post(o, n, out1),
        !step_panics(n),
        step_post(n, m, out2),
    ensures
        m.ip == o.ip + 2,
        m.stack == o.stack,
        out1 is Continue && out2 is Continue,
{
    assert(n.stack.drop_last() == o.stack.drop_last());
    assert(m.stack =~= o.stack);
}

/// Loading a constant and popping it leaves the stack as it was.
pub proof fn lemma_constant_then_pop(o: VmState, n: VmState, m: VmState, out1: Step, out2: Step)
    requires
        !step_panics(o),
        o.code[o.ip] == spec_op_byte(OpCode::Constant),
        o.code[o.ip + 2] == spec_op_byte(OpCode::Pop),
        step_post(o, n, out1),
        !step_panics(n),
        step_post(n, m, out2),
    ensures
        m.ip == o.ip + 3,
        m.stack == o.stack,
        out1 is Continue && out2 is Continue,
{
    assert(n.stack.drop_last() =~= o.stack);
}

/// Whether `r` is `s` without its leading and trailing whitespace (the
/// `White_Space` property, `char_is_whitespace`).
pub open spec fn trimmed(s: Seq<char>, r: Seq<char>) -> bool {
    exists|i: int, j: int|
        #![trigger s.subrange(i, j)]
        {
            &&& 0 <= i <= j <= s.len()
            &&& r == s.subrange(i, j)
            &&& forall|k: int| 0 <= k < i ==> char_is_whitespace(#[trigger] s[k])
            &&& forall|k: int| j <= k < s.len() ==> char_is_whitespace(#[trigger] s[k])
            &&& i < j ==> !char_is_whitespace(s[i]) && !char_is_whitespace(s[j - 1])
        }
}

/// Calls `str::trim`: `s` without leading and trailing whitespace, where
/// whitespace is the Unicode `White_Space` property (`char_is_whitespace`).
#[verifier::external_body]
pub(crate) fn trim_str(s: &str) -> (r: &str)
    ensures
        trimmed(s@, r@),
{
    s.trim()
}

/// The characters of `s` in reverse order.
fn reversed(s: &String) -> (r: String)
    ensures
        r@ == s@.reverse(),
{
    let chars = crate::text::chars_of(s.as_str());
    let mut r = String::new();
    let mut i = chars.len();
    while i > 0
        invariant
            i <= chars.len(),
            chars@ == s@,
            r@ == s@.subrange(i as int, s@.len() as int).reverse(),
        decreases i,
    {
        i = i - 1;
        push_char(&mut r, chars[i]);
        assert(r@ =~= s@.subrange(i as int, s@.len() as int).reverse());
    }
    assert(s@.subrange(0, s@.len() as int) =~= s@);
    r
}

/// The int operation `op` (one of `+ - * / %`) on `v1` and `v2`; `None` for a
/// division by zero or an unknown operation. (The caller reports the division by
/// zero.)
pub fn op(operator: char, v1: i64, v2: i64) -> (r: Option<i64>)
    requires
        !int_op_panics(operator, v1, v2),
    ensures
        r == spec_int_op(operator, v1, v2),
        r is None ==> operator == '/' && v2 == 0 || !(operator == '+' || operator == '-' || operator
            == '*' || operator == '/' || operator == '%'),
{
    if operator == '+' {
        Some(v1 + v2)
    } else if operator == '-' {
        Some(v1 - v2)
    } else if operator == '*' {
        Some(v1 * v2)
    } else if operator == '/' {
        if v2 == 0 {
            None
        } else {
            proof {
                lemma_int_division_defined(v1, v2);
            }
            v1.checked_div(v2)
        }
    } else if operator == '%' {
        proof {
            lemma_int_division_defined(v1, v2);
        }
        v1.checked_rem(v2)
    } else {
        None
    }
}

/// Rust's int division and remainder are defined, and fit, whenever the divisor is
/// not zero and the division is not `i64::MIN / -1`.
pub proof fn lemma_int_division_defined(a: i64, b: i64)
    requires
        b != 0,
        !(a == i64::MIN && b == -1),
    ensures
        i64::checked_div(a, b) is Some,
        i64::checked_rem(a, b) is Some,
{
    let x = a as int;
    let d = b as int;
    if x > 0 && d > 0 {
        assert(0 <= x / d <= x) by (nonlinear_arith)
            requires
                x > 0,
                d > 0,
        ;
        assert(0 <= x % d < d) by (nonlinear_arith)
            requires
                x > 0,
                d > 0,
        ;
    } else if x < 0 && d < 0 {
        if d == -1 {
            assert((x * -1) / (d * -1) == x * -1 && (x * -1) % (d * -1) == 0) by (nonlinear_arith)
                requires
                    d == -1,
            ;
        } else {
            assert(0 <= (x * -1) / (d * -1) <= (x * -1) / 2) by (nonlinear_arith)
                requires
                    x < 0,
                    d < -1,
            ;
            assert(0 <= (x * -1) % (d * -1) < d * -1) by (nonlinear_arith)
                requires
                    x < 0,
                    d < 0,
            ;
        }
    } else if x < 0 {
        assert(0 <= (x * -1) / d <= x * -1) by (nonlinear_arith)
            requires
                x < 0,
                d > 0,
        ;
        assert(0 <= (x * -1) % d < d) by (nonlinear_arith)
            requires
                x < 0,
                d > 0,
        ;
    } else if x > 0 {
        assert(0 <= x / (d * -1) <= x) by (nonlinear_arith)
            requires
                x > 0,
                d < 0,
        ;
        assert(0 <= x % (d * -1) < d * -1) by (nonlinear_arith)
            requires
                x > 0,
                d < 0,
        ;
    }
}

/// The comparison `op` of two ints.
pub fn cmp_op(op: CompareOp, v1: i64, v2: i64) -> (r: bool)
    ensures
        r == spec_compare(op, v1, v2),
{
    match op {
        CompareOp::Greater => v1 > v2,
        CompareOp::Less => v1 < v2,
        CompareOp::GreaterEq => v1 >= v2,
        CompareOp::LessEq => v1 <= v2,
        CompareOp::NotEqual => v1 != v2,
        CompareOp::Equal => v1 == v2,
    }
}

impl Vm {
    /// A machine with an empty chunk and an empty stack.
    pub fn new() -> (vm: Vm)
        ensures
            vm@.code.len() == 0,
            vm@.constants.len() == 0,
            vm@.lines.len() == 0,
            vm@.ip == 0,
            vm@.stack.len() == 0,
            !vm@.awaiting,
    {
        Vm { chunk: Chunk::new(), ip: 0, stack: Vec::new(), awaiting: false }
    }

    /// Loads `chunk` to run from its first instruction, keeping the stack.
    pub fn load_chunk(&mut self, chunk: Chunk)
        ensures
            final(self)@ == (VmState {
                code: chunk.code@,
                constants: chunk.constants.values@,
                lines: chunk.line@,
                ip: 0,
                stack: old(self)@.stack,
                awaiting: false,
            }),
    {
        self.chunk = chunk;
        self.ip = 0;
        self.awaiting = false;
    }

    /// The values on the stack, bottom first.
    pub fn stack(&self) -> (s: &Vec<Value>)
        ensures
            s@ == self@.stack,
    {
        &self.stack
    }

    /// Whether executing the next instruction would panic (see `step_panics`).
    pub fn step_would_panic(&self) -> (r: bool)
        ensures
            r == step_panics(self@),
    {
        if self.ip >= self.chunk.code.len() {
            return true;
        }
        let b = self.chunk.code[self.ip];
        let n = self.stack.len();
        let has_operand = self.ip + 1 < self.chunk.code.len();
        if b == OpCode::Constant.to_byte() {
            return !has_operand || self.chunk.code[self.ip + 1] as usize
                >= self.chunk.constants.values.len();
        }
        if b == OpCode::GetLocal.to_byte() || b == OpCode::SetLocal.to_byte() {
            return !has_operand || self.chunk.code[self.ip + 1] as usize >= n;
        }
        let top = if n >= 1 {
            &self.stack[n - 1]
        } else {
            &Value::Void
        };
        let below = if n >= 2 {
            &self.stack[n - 2]
        } else {
            &Value::Void
        };
        if b == OpCode::Negate.to_byte() || b == OpCode::Abs.to_byte() {
            if let Value::Int(x) = top {
                if *x == i64::MIN {
                    return true;
                }
            }
        }
        if let Some(c) = arith_of(b) {
            if let (Value::Int(x), Value::Int(y)) = (below, top) {
                if int_op_would_panic(c, *x, *y) {
                    return true;
                }
            }
        }
        if error_kind_of(b, top).is_some() && self.ip >= self.chunk.line.len() {
            return true;
        }
        false
    }

    /// Gives the machine the result of the float operation it waits for.
    pub fn resume(&mut self, value: Value)
        requires
            old(self)@.awaiting,
        ensures
            final(self)@ == (VmState {
                stack: old(self)@.stack.push(value),
                awaiting: false,
                ..old(self)@
            }),
    {
        self.stack.push(value);
        self.awaiting = false;
    }

    /// Executes the next instruction (see `step_post`).
    pub fn step(&mut self) -> (out: Step)
        requires
            !old(self)@.awaiting,
            !step_panics(old(self)@),
        ensures
            step_post(old(self)@, final(self)@, out),
    {
        let instruction = self.read_byte();
        if instruction == OpCode::Return.to_byte() {
            Step::Finished(InterpretResult::Success)
        } else if instruction == OpCode::Constant.to_byte() {
            let constant = self.read_constant();
            self.stack.push(constant);
            Step::Continue
        } else if instruction == OpCode::Negate.to_byte() {
            let value = self.pop_or_void();
            let r = match value {
                Value::Float(x) => Value::Float(x ^ 0x8000_0000_0000_0000u64),
                Value::Int(x) => Value::Int(-x),
                _ => Value::Void,
            };
            self.stack.push(r);
            Step::Continue
        } else if let Some(c) = arith_of(instruction) {
            self.binary_operations(c)
        } else if let Some(c) = compare_of_byte(instruction) {
            self.comparison_operations(c)
        } else if instruction == OpCode::Print.to_byte() {
            let value = self.pop_or_void();
            Step::Print(value)
        } else if instruction == OpCode::Println.to_byte() {
            let value = self.pop_or_void();
            Step::PrintLine(value)
        } else if instruction == OpCode::Abs.to_byte() {
            let value = self.pop_or_void();
            match value {
                Value::Float(x) => {
                    self.stack.push(Value::Float(x & 0x7fff_ffff_ffff_ffffu64));
                    proof {
                        assert(0x7fff_ffff_ffff_ffffu64 == !sign_bit()) by (bit_vector);
                    }
                    Step::Continue
                },
                Value::Int(x) => {
                    self.stack.push(Value::Int(if x < 0 { -x } else { x }));
                    Step::Continue
                },
                _ => self.runtime_err(RuntimeErrorKind::Abs, value),
            }
        } else if instruction == OpCode::Floor.to_byte() {
            let value = self.pop_or_void();
            match value {
                Value::Float(x) => self.await_float(FloatOp::Floor(x)),
                _ => self.runtime_err(RuntimeErrorKind::Floor, value),
            }
        } else if instruction == OpCode::Ceil.to_byte() {
            let value = self.pop_or_void();
            match value {
                Value::Float(x) => self.await_float(FloatOp::Ceil(x)),
                _ => self.runtime_err(RuntimeErrorKind::Ceil, value),
            }
        } else if instruction == OpCode::Round.to_byte() {
            let value = self.pop_or_void();
            match value {
                Value::Float(x) => self.await_float(FloatOp::Round(x)),
                _ => self.runtime_err(RuntimeErrorKind::Round, value),
            }
        } else if instruction == OpCode::SquareRoot.to_byte() {
            let value = self.pop_or_void();
            match value {
                Value::Float(x) => self.await_float(FloatOp::Sqrt(x)),
                Value::Int(_) => {
                    // The square root of the int's float reading, 0.0, is 0.0.
                    self.stack.push(Value::Float(0));
                    Step::Continue
                },
                _ => self.runtime_err(RuntimeErrorKind::Sqrt, value),
            }
        } else if instruction == OpCode::IsEmpty.to_byte() {
            let value = self.pop_or_void();
            match value {
                Value::Str(s) => {
                    self.stack.push(Value::Bool(s.as_str().is_empty()));
                    Step::Continue
                },
                _ => self.runtime_err(RuntimeErrorKind::IsEmpty, value),
            }
        } else if instruction == OpCode::Trim.to_byte() {
            let value = self.pop_or_void();
            match value {
                Value::Str(s) => {
                    let t = string_from(trim_str(s.as_str()));
                    self.stack.push(Value::Str(t));
                    Step::Continue
                },
                _ => self.runtime_err(RuntimeErrorKind::Trim, value),
            }
        } else if instruction == OpCode::Reverse.to_byte() {
            let value = self.pop_or_void();
            match value {
                Value::Str(s) => {
                    let r = reversed(&s);
                    self.stack.push(Value::Str(r));
                    Step::Continue
                },
                _ => self.runtime_err(RuntimeErrorKind::Reverse, value),
            }
        } else if instruction == OpCode::True.to_byte() {
            self.stack.push(Value::Bool(true));
            Step::Continue
        } else if instruction == OpCode::False.to_byte() {
            self.stack.push(Value::Bool(false));
            Step::Continue
        } else if instruction == OpCode::Void.to_byte() {
            self.stack.push(Value::Void);
            Step::Continue
        } else if instruction == OpCode::Not.to_byte() {
            let value = self.pop_or_void();
            match value {
                Value::Bool(x) => {
                    self.stack.push(Value::Bool(!x));
                    Step::Continue
                },
                _ => self.runtime_err(RuntimeErrorKind::Not, value),
            }
        } else if instruction == OpCode::Pop.to_byte() {
            self.pop_or_void();
            Step::Continue
        } else if instruction == OpCode::GetLocal.to_byte() {
            let slot = self.read_byte();
            let value = self.stack[slot as usize].clone();
            self.stack.push(value);
            Step::Continue
        } else if instruction == OpCode::SetLocal.to_byte() {
            let slot = self.read_byte();
            let value = self.peek();
            self.stack.set(slot as usize, value);
            Step::Continue
        } else {
            Step::Continue
        }
    }

    fn read_byte(&mut self) -> (b: u8)
        requires
            0 <= old(self).ip < old(self).chunk.code.len(),
        ensures
            b == old(self)@.code[old(self)@.ip],
            final(self)@ == (VmState { ip: old(self)@.ip + 1, ..old(self)@ }),
    {
        let byte = self.chunk.code[self.ip];
        self.ip = self.ip + 1;
        byte
    }

    fn read_constant(&mut self) -> (v: Value)
        requires
            0 <= old(self).ip < old(self).chunk.code.len(),
            old(self).chunk.code@[old(self).ip as int] < old(self).chunk.constants.values@.len(),
        ensures
            same_value(v, old(self)@.constants[old(self)@.code[old(self)@.ip] as int]),
            final(self)@ == (VmState { ip: old(self)@.ip + 1, ..old(self)@ }),
    {
        let index = self.read_byte() as usize;
        self.chunk.constants.values[index].clone()
    }

    fn peek(&self) -> (v: Value)
        ensures
            same_value(v, top_or_void(self@.stack)),
    {
        let n = self.stack.len();
        if n == 0 {
            Value::Void
        } else {
            self.stack[n - 1].clone()
        }
    }

    fn pop_or_void(&mut self) -> (v: Value)
        ensures
            (final(self)@.stack, v) == popped(old(self)@.stack),
            final(self)@ == (VmState { stack: popped(old(self)@.stack).0, ..old(self)@ }),
    {
        match self.stack.pop() {
            Some(v) => v,
            None => Value::Void,
        }
    }

    fn await_float(&mut self, f: FloatOp) -> (out: Step)
        ensures
            out == Step::Float(f),
            final(self)@ == (VmState { awaiting: true, ..old(self)@ }),
    {
        self.awaiting = true;
        Step::Float(f)
    }

    fn runtime_err(&mut self, kind: RuntimeErrorKind, value: Value) -> (out: Step)
        requires
            0 < old(self).ip <= old(self).chunk.line.len(),
        ensures
            out matches Step::RuntimeError { kind: k, value: v, line: l } && k == kind && same_value(
                v,
                value,
            ) && l == old(self)@.lines[old(self)@.ip - 1],
            final(self)@ == (VmState { stack: old(self)@.stack.push(value), ..old(self)@ }),
    {
        let line = self.chunk.line[self.ip - 1];
        let reported = value.clone();
        self.stack.push(value);
        Step::RuntimeError { kind, value: reported, line }
    }

    fn binary_operations(&mut self, op: char) -> (out: Step)
        requires
            !old(self)@.awaiting,
            ({
                let (s1, top) = popped(old(self)@.stack);
                let (s2, below) = popped(s1);
                !(below is Int && top is Int && int_op_panics(op, below->Int_0, top->Int_0))
            }),
            op == '+' || op == '-' || op == '*' || op == '/' || op == '%',
        ensures
            ({
                let o = old(self)@;
                let n = final(self)@;
                let (s1, top) = popped(o.stack);
                let (s2, below) = popped(s1);
                &&& n.code == o.code && n.constants == o.constants && n.lines == o.lines
                &&& n.ip == o.ip
                &&& match (below, top) {
                    (Value::Float(x), Value::Float(y)) => n.stack == s2 && out == Step::Float(
                        FloatOp::Arith(op, FloatOperand::Bits(x), FloatOperand::Bits(y)),
                    ) && n.awaiting,
                    (Value::Int(x), Value::Int(y)) => if op == '/' && y == 0 {
                        n.stack == s2.push(Value::Int(0)) && out is DivideByZero && !n.awaiting
                    } else {
                        n.stack == s2.push(Value::Int(spec_int_op(op, x, y)->0))
                            && out is Continue && !n.awaiting
                    },
                    (Value::Float(x), Value::Int(y)) => n.stack == s2 && out == Step::Float(
                        FloatOp::Arith(op, FloatOperand::Bits(x), FloatOperand::FromInt(y)),
                    ) && n.awaiting,
                    (Value::Int(x), Value::Float(y)) => n.stack == s2 && out == Step::Float(
                        FloatOp::Arith(op, FloatOperand::FromInt(x), FloatOperand::Bits(y)),
                    ) && n.awaiting,
                    (Value::Str(x), Value::Str(y)) => pushed_one(
                        n.stack,
                        s2,
                        |v: Value| v is Str && v->Str_0@ == x@ + y@,
                    ) && out is Continue && !n.awaiting,
                    _ => n.stack == s2 && out is Continue && !n.awaiting,
                }
            }),
    {
        let v2 = self.pop_or_void();
        let v1 = self.pop_or_void();
        match (v1, v2) {
            (Value::Float(x), Value::Float(y)) => self.await_float(
                FloatOp::Arith(op, FloatOperand::Bits(x), FloatOperand::Bits(y)),
            ),
            (Value::Int(x), Value::Int(y)) => {
                match self::op(op, x, y) {
                    Some(r) => {
                        self.stack.push(Value::Int(r));
                        Step::Continue
                    },
                    None => {
                        self.stack.push(Value::Int(0));
                        Step::DivideByZero
                    },
                }
            },
            (Value::Float(x), Value::Int(y)) => self.await_float(
                FloatOp::Arith(op, FloatOperand::Bits(x), FloatOperand::FromInt(y)),
            ),
            (Value::Int(x), Value::Float(y)) => self.await_float(
                FloatOp::Arith(op, FloatOperand::FromInt(x), FloatOperand::Bits(y)),
            ),
            (Value::Str(x), Value::Str(y)) => {
                let mut s = x;
                s.append(y.as_str());
                self.stack.push(Value::Str(s));
                Step::Continue
            },
            _ => Step::Continue,
        }
    }

    fn comparison_operations(&mut self, op: CompareOp) -> (out: Step)
        requires
            !old(self)@.awaiting,
        ensures
            ({
                let o = old(self)@;
                let n = final(self)@;
                let (s1, top) = popped(o.stack);
                let (s2, below) = popped(s1);
                &&& n.code == o.code && n.constants == o.constants && n.lines == o.lines
                &&& n.ip == o.ip
                &&& match (below, top) {
                    (Value::Float(x), Value::Float(y)) => n.stack == s2 && out == Step::Float(
                        FloatOp::Compare(op, x, y),
                    ) && n.awaiting,
                    (Value::Int(x), Value::Int(y)) => n.stack == s2.push(
                        Value::Bool(spec_compare(op, x, y)),
                    ) && out is Continue && !n.awaiting,
                    _ => n.stack == s2 && out is Continue && !n.awaiting,
                }
            }),
    {
        let v2 = self.pop_or_void();
        let v1 = self.pop_or_void();
        match (v1, v2) {
            (Value::Float(x), Value::Float(y)) => self.await_float(FloatOp::Compare(op, x, y)),
            (Value::Int(x), Value::Int(y)) => {
                self.stack.push(Value::Bool(cmp_op(op, x, y)));
                Step::Continue
            },
            _ => Step::Continue,
        }
    }
}

/// The arithmetic operation of an instruction byte.
fn arith_of(b: u8) -> (r: Option<char>)
    ensures
        r == arith_char(b),
{
    if b == OpCode::Add.to_byte() {
        Some('+')
    } else if b == OpCode::Subtract.to_byte() {
        Some('-')
    } else if b == OpCode::Multiply.to_byte() {
        Some('*')
    } else if b == OpCode::Divide.to_byte() {
        Some('/')
    } else if b == OpCode::Modulo.to_byte() {
        Some('%')
    } else {
        None
    }
}

/// The comparison of an instruction byte.
fn compare_of_byte(b: u8) -> (r: Option<CompareOp>)
    ensures
        r == compare_of(b),
{
    if b == OpCode::GreaterThan.to_byte() {
        Some(CompareOp::Greater)
    } else if b == OpCode::LessThan.to_byte() {
        Some(CompareOp::Less)
    } else if b == OpCode::GreaterThanEq.to_byte() {
        Some(CompareOp::GreaterEq)
    } else if b == OpCode::LessThanEq.to_byte() {
        Some(CompareOp::LessEq)
    } else if b == OpCode::EqualTo.to_byte() {
        Some(CompareOp::Equal)
    } else if b == OpCode::NotEqualTo.to_byte() {
        Some(CompareOp::NotEqual)
    } else {
        None
    }
}

/// Whether the int operation panics (see `int_op_panics`).
fn int_op_would_panic(op: char, a: i64, b: i64) -> (r: bool)
    ensures
        r == int_op_panics(op, a, b),
{
    if op == '+' {
        a.checked_add(b).is_none()
    } else if op == '-' {
        a.checked_sub(b).is_none()
    } else if op == '*' {
        a.checked_mul(b).is_none()
    } else if op == '/' {
        b != 0 && a == i64::MIN && b == -1
    } else if op == '%' {
        b == 0 || (a == i64::MIN && b == -1)
    } else {
        false
    }
}

/// The runtime error that instruction `b` reports for the value `v` on top of the stack.
fn error_kind_of(b: u8, v: &Value) -> (r: Option<RuntimeErrorKind>)
    ensures
        r == error_kind(b, *v),
{
    let is_float = v.is_float();
    let is_int = v.is_int();
    if b == OpCode::Abs.to_byte() && !is_float && !is_int {
        Some(RuntimeErrorKind::Abs)
    } else if b == OpCode::Floor.to_byte() && !is_float {
        Some(RuntimeErrorKind::Floor)
    } else if b == OpCode::Ceil.to_byte() && !is_float {
        Some(RuntimeErrorKind::Ceil)
    } else if b == OpCode::Round.to_byte() && !is_float {
        Some(RuntimeErrorKind::Round)
    } else if b == OpCode::SquareRoot.to_byte() && !is_float && !is_int {
        Some(RuntimeErrorKind::Sqrt)
    } else if b == OpCode::IsEmpty.to_byte() && !v.is_str() {
        Some(RuntimeErrorKind::IsEmpty)
    } else if b == OpCode::Trim.to_byte() && !v.is_str() {
        Some(RuntimeErrorKind::Trim)
    } else if b == OpCode::Reverse.to_byte() && !v.is_str() {
        Some(RuntimeErrorKind::Reverse)
    } else if b == OpCode::Not.to_byte() && !v.is_bool() {
        Some(RuntimeErrorKind::Not)
    } else {
        None
    }
}

} // verus!
