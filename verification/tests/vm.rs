use ax_lang::chunk::{Chunk, OpCode};
use ax_lang::value::Value;
use ax_lang::vm::{cmp_op, op, CompareOp, FloatOp, FloatOperand, InterpretResult, RuntimeErrorKind, Step, Vm};

fn chunk_of(constants: Vec<Value>, code: &[u8]) -> Chunk {
    let mut chunk = Chunk::new();
    for c in constants {
        chunk.add_const(c);
    }
    for b in code {
        chunk.write_chunk(*b, 123);
    }
    chunk
}

fn b(op: OpCode) -> u8 {
    op.to_byte()
}

#[test]
fn test_rev_opcode() {
    let mut chunk = Chunk::new();
    let constant = chunk.add_const(Value::Str("67".to_string()));
    chunk.write_chunk(OpCode::Constant.to_byte(), 123);
    chunk.write_chunk(constant as u8, 123);
    chunk.write_chunk(OpCode::Reverse.to_byte(), 123);
    chunk.write_chunk(OpCode::Print.to_byte(), 123);
    chunk.write_chunk(OpCode::Return.to_byte(), 123);
    let mut vm = Vm::new();
    vm.load_chunk(chunk);
    assert!(matches!(vm.step(), Step::Continue));
    assert!(matches!(vm.step(), Step::Continue));
    match vm.step() {
        Step::Print(Value::Str(s)) => assert_eq!(s, "76"),
        other => panic!("unexpected {:?}", other),
    }
    assert!(matches!(vm.step(), Step::Finished(InterpretResult::Success)));
}

#[test]
fn reverse_twice_gives_the_string_back() {
    let chunk = chunk_of(
        vec![Value::Str("abc".to_string())],
        &[b(OpCode::Constant), 0, b(OpCode::Reverse), b(OpCode::Reverse)],
    );
    let mut vm = Vm::new();
    vm.load_chunk(chunk);
    for _ in 0..3 {
        assert!(matches!(vm.step(), Step::Continue));
    }
    assert!(matches!(&vm.stack()[..], [Value::Str(s)] if s == "abc"));
}

#[test]
fn constant_then_pop_restores_the_stack() {
    let chunk = chunk_of(vec![Value::Int(5)], &[b(OpCode::True), b(OpCode::Constant), 0, b(OpCode::Pop)]);
    let mut vm = Vm::new();
    vm.load_chunk(chunk);
    assert!(matches!(vm.step(), Step::Continue));
    assert_eq!(vm.stack().len(), 1);
    assert!(matches!(vm.step(), Step::Continue));
    assert!(matches!(vm.stack().last(), Some(Value::Int(5))));
    assert!(matches!(vm.step(), Step::Continue));
    assert!(matches!(&vm.stack()[..], [Value::Bool(true)]));
}

#[test]
fn negate_and_not_twice_give_the_value_back() {
    let chunk = chunk_of(
        vec![Value::Int(-7), Value::Float(2.5f64.to_bits())],
        &[
            b(OpCode::Constant), 0, b(OpCode::Negate), b(OpCode::Negate),
            b(OpCode::Constant), 1, b(OpCode::Negate), b(OpCode::Negate),
            b(OpCode::False), b(OpCode::Not), b(OpCode::Not),
        ],
    );
    let mut vm = Vm::new();
    vm.load_chunk(chunk);
    for _ in 0..3 {
        assert!(matches!(vm.step(), Step::Continue));
    }
    assert!(matches!(vm.stack().last(), Some(Value::Int(-7))));
    assert!(matches!(vm.step(), Step::Continue));
    assert!(matches!(vm.step(), Step::Continue));
    assert!(matches!(vm.stack().last(), Some(Value::Float(x)) if f64::from_bits(*x) == -2.5));
    assert!(matches!(vm.step(), Step::Continue));
    assert!(matches!(vm.stack().last(), Some(Value::Float(x)) if f64::from_bits(*x) == 2.5));
    for _ in 0..3 {
        assert!(matches!(vm.step(), Step::Continue));
    }
    assert!(matches!(vm.stack().last(), Some(Value::Bool(false))));
}

#[test]
fn int_arithmetic_and_comparison() {
    assert_eq!(op('+', 2, 3), Some(5));
    assert_eq!(op('-', 2, 3), Some(-1));
    assert_eq!(op('*', -4, 3), Some(-12));
    assert_eq!(op('/', 7, 2), Some(3));
    assert_eq!(op('/', -7, 2), Some(-3));
    assert_eq!(op('%', -7, 2), Some(-1));
    assert_eq!(op('/', 1, 0), None);
    assert_eq!(op('^', 1, 2), None);
    assert!(cmp_op(CompareOp::Greater, 3, 2));
    assert!(!cmp_op(CompareOp::Less, 3, 2));
    assert!(cmp_op(CompareOp::GreaterEq, 2, 2));
    assert!(cmp_op(CompareOp::LessEq, 2, 2));
    assert!(cmp_op(CompareOp::Equal, 2, 2));
    assert!(cmp_op(CompareOp::NotEqual, 2, 3));
}

#[test]
fn int_division_by_zero_pushes_zero() {
    let chunk = chunk_of(vec![Value::Int(9), Value::Int(0)], &[b(OpCode::Constant), 0, b(OpCode::Constant), 1, b(OpCode::Divide)]);
    let mut vm = Vm::new();
    vm.load_chunk(chunk);
    vm.step();
    vm.step();
    assert!(matches!(vm.step(), Step::DivideByZero));
    assert!(matches!(&vm.stack()[..], [Value::Int(0)]));
}

#[test]
fn strings_concatenate_and_ints_compare() {
    let chunk = chunk_of(
        vec![Value::Str("ab".to_string()), Value::Str("cd".to_string()), Value::Int(1), Value::Int(2)],
        &[
            b(OpCode::Constant), 0, b(OpCode::Constant), 1, b(OpCode::Add),
            b(OpCode::Constant), 2, b(OpCode::Constant), 3, b(OpCode::LessThan),
        ],
    );
    let mut vm = Vm::new();
    vm.load_chunk(chunk);
    for _ in 0..6 {
        assert!(matches!(vm.step(), Step::Continue));
    }
    assert!(matches!(&vm.stack()[..], [Value::Str(s), Value::Bool(true)] if s == "abcd"));
}

#[test]
fn float_operations_are_handed_out() {
    let chunk = chunk_of(
        vec![Value::Float(1.5f64.to_bits()), Value::Int(2)],
        &[b(OpCode::Constant), 0, b(OpCode::Constant), 1, b(OpCode::Multiply)],
    );
    let mut vm = Vm::new();
    vm.load_chunk(chunk);
    vm.step();
    vm.step();
    match vm.step() {
        Step::Float(FloatOp::Arith('*', FloatOperand::Bits(x), FloatOperand::FromInt(2))) => {
            assert_eq!(f64::from_bits(x), 1.5)
        }
        other => panic!("unexpected {:?}", other),
    }
    vm.resume(Value::Float(3.0f64.to_bits()));
    assert!(matches!(&vm.stack()[..], [Value::Float(x)] if f64::from_bits(*x) == 3.0));
}

#[test]
fn wrong_operand_is_a_runtime_error() {
    let chunk = chunk_of(vec![Value::Int(4)], &[b(OpCode::Constant), 0, b(OpCode::Not)]);
    let mut vm = Vm::new();
    vm.load_chunk(chunk);
    vm.step();
    match vm.step() {
        Step::RuntimeError { kind, value: Value::Int(4), line } => {
            assert_eq!(kind, RuntimeErrorKind::Not);
            assert_eq!(line, 123);
        }
        other => panic!("unexpected {:?}", other),
    }
    assert!(matches!(&vm.stack()[..], [Value::Int(4)]));
}

#[test]
fn abs_trim_and_is_empty() {
    let chunk = chunk_of(
        vec![Value::Int(-3), Value::Str("  hi ".to_string()), Value::Str(String::new())],
        &[
            b(OpCode::Constant), 0, b(OpCode::Abs),
            b(OpCode::Constant), 1, b(OpCode::Trim),
            b(OpCode::Constant), 2, b(OpCode::IsEmpty),
        ],
    );
    let mut vm = Vm::new();
    vm.load_chunk(chunk);
    for _ in 0..6 {
        assert!(matches!(vm.step(), Step::Continue));
    }
    assert!(matches!(&vm.stack()[..], [Value::Int(3), Value::Str(s), Value::Bool(true)] if s == "hi"));
}

#[test]
fn step_would_panic_past_the_end() {
    let mut vm = Vm::new();
    assert!(vm.step_would_panic());
    vm.load_chunk(chunk_of(vec![], &[b(OpCode::Return)]));
    assert!(!vm.step_would_panic());
    assert!(matches!(vm.step(), Step::Finished(InterpretResult::Success)));
    assert!(vm.step_would_panic());
}
