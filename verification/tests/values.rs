use std::sync::Arc;

use ax_lang::chunk::{Chunk, OpCode};
use ax_lang::compiler::type_safety::TypeTag;
use ax_lang::debug::{chunk_would_panic, disassemble_chunk, disassemble_instruction, Shown};
use ax_lang::scanner::TokenType;
use ax_lang::table::Table;
use ax_lang::sdl::string::{is_empty, trim};
use ax_lang::value::{Converted, FloatSource, Function, OptWrapper, Value, ValueArray};

#[test]
fn type_tags_of_annotations() {
    assert_eq!(TokenType::Int.as_typetag(), Some(TypeTag::Int));
    assert_eq!(TokenType::Unt.as_typetag(), Some(TypeTag::Unt));
    assert_eq!(TokenType::Float.as_typetag(), Some(TypeTag::Float));
    assert_eq!(TokenType::Str.as_typetag(), Some(TypeTag::Str));
    assert_eq!(TokenType::Char.as_typetag(), Some(TypeTag::Char));
    assert_eq!(TokenType::Void.as_typetag(), Some(TypeTag::NoneType));
    assert_eq!(TokenType::Bool.as_typetag(), None);
    assert_eq!(TokenType::Identifier.as_typetag(), None);
}

#[test]
fn type_tag_bytes_names_and_wrappers() {
    assert_eq!(TypeTag::Int.as_bytes(), 0);
    assert_eq!(TypeTag::Unt.as_bytes(), 1);
    assert_eq!(TypeTag::Float.as_bytes(), 2);
    assert_eq!(TypeTag::Str.as_bytes(), 3);
    assert_eq!(TypeTag::Char.as_bytes(), 4);
    assert_eq!(TypeTag::Bool.as_bytes(), 5);
    assert_eq!(TypeTag::Void.as_bytes(), 6);
    assert_eq!(TypeTag::NoneType.as_bytes(), 7);
    let nested = TypeTag::Opt(Arc::new(TypeTag::Array(Arc::new(TypeTag::Char))));
    assert_eq!(nested.as_bytes(), 4);
    assert!(nested.is_opt());
    assert!(!TypeTag::Int.is_opt());
    assert_eq!(nested.to_string(), "char");
    assert_eq!(TypeTag::NoneType.to_string(), "None");
    assert_eq!(*nested.clone().extract(), TypeTag::Array(Arc::new(TypeTag::Char)));
    assert_eq!(*TypeTag::Array(Arc::new(TypeTag::Int)).extract(), TypeTag::Int);
    assert_eq!(*TypeTag::Str.extract(), TypeTag::Void);
    assert_eq!(nested.clone(), nested);
    assert_ne!(TypeTag::Array(Arc::new(TypeTag::Int)), TypeTag::Opt(Arc::new(TypeTag::Int)));
}

#[test]
fn table_read_after_write() {
    let mut t = Table::new();
    assert!(t.add("a", Value::Int(1)));
    assert!(!t.add("a", Value::Int(2)));
    assert!(matches!(t.get("a"), Some(Value::Int(2))));
    assert!(t.get("b").is_none());
    let mut u = Table::new();
    u.add("a", Value::Int(3));
    u.add("b", Value::Bool(true));
    t.add_table(u);
    assert!(matches!(t.get("a"), Some(Value::Int(3))));
    assert!(matches!(t.get("b"), Some(Value::Bool(true))));
    assert!(t.remove("a"));
    assert!(!t.remove("a"));
    assert!(t.get("a").is_none());
}

#[test]
fn chunks_grow_in_step() {
    let mut c = Chunk::new();
    assert_eq!(c.add_const(Value::Int(1)), 0);
    assert_eq!(c.add_const(Value::Void), 1);
    c.write_chunk(OpCode::Return.to_byte(), 4);
    assert_eq!(c.code.len(), c.line.len());
    assert_eq!(c.line, vec![4]);
    let d = c.clone();
    assert_eq!(d.code, c.code);
    assert_eq!(d.constants.values.len(), 2);
    assert_eq!(OpCode::Return.to_byte(), 0);
    assert_eq!(OpCode::Constant.to_byte(), 1);
    assert_eq!(OpCode::Pop.to_byte(), 30);
    assert_eq!(OpCode::Loop.to_byte(), 33);
}

#[test]
fn disassembly() {
    let mut c = Chunk::new();
    c.add_const(Value::Int(1));
    for (b, line) in [
        (OpCode::Constant.to_byte(), 1),
        (0, 1),
        (OpCode::GetLocal.to_byte(), 2),
        (3, 2),
        (OpCode::Loop.to_byte(), 2),
        (0, 2),
        (2, 2),
        (200, 3),
    ] {
        c.write_chunk(b, line);
    }
    assert!(!chunk_would_panic(&c));
    let all = disassemble_chunk(&c);
    assert_eq!(all.len(), 4);
    assert!(matches!(all[0].shown, Shown::Constant(OpCode::Constant, 0)));
    assert_eq!(all[0].line, Some(1));
    assert!(matches!(all[1].shown, Shown::Byte(OpCode::GetLocal, 0)));
    assert_eq!(all[1].line, Some(2));
    assert!(matches!(all[2].shown, Shown::Jump(OpCode::Loop, 5)));
    assert_eq!(all[2].line, None);
    assert!(matches!(all[3].shown, Shown::Simple(None)));
    assert_eq!(all[3].next, 8);
    let one = disassemble_instruction(&c, 4);
    assert_eq!(one.next, 7);
    let mut bad = Chunk::new();
    bad.write_chunk(OpCode::Constant.to_byte(), 1);
    assert!(chunk_would_panic(&bad));
}

#[test]
fn conversions() {
    assert_eq!(Value::Int(-1).cast_unt(), Some(Converted::Number(u64::MAX)));
    assert_eq!(Value::Unt(u64::MAX).cast_int(), Some(Converted::Number(-1)));
    assert_eq!(Value::Bool(true).cast_int(), Some(Converted::Number(1)));
    assert_eq!(Value::Char('A').cast_unt(), Some(Converted::Number(65)));
    assert_eq!(Value::Float(7).cast_int(), Some(Converted::FromFloat(7)));
    assert_eq!(Value::Void.cast_int(), None);
    assert_eq!(Value::Char('a').cast_float(), Some(FloatSource::FromInt(97)));
    assert_eq!(Value::Unt(5).cast_float(), Some(FloatSource::FromUnt(5)));
    assert_eq!(Value::Str(String::new()).cast_float(), None);
    assert!(matches!(Value::Int(4).neg(), Value::Int(-4)));
    assert!(matches!(Value::Float(1.5f64.to_bits()).neg(), Value::Float(b) if f64::from_bits(b) == -1.5));
    assert!(matches!(Value::Bool(true).neg(), Value::Void));
}

#[test]
fn value_kinds_and_accessors() {
    let v = Value::Str("abc".to_string());
    assert!(v.is_str());
    assert!(!v.is_int());
    assert_eq!(v.as_str(), "abc");
    assert_eq!(Value::Int(3).as_int(), 3);
    assert!(Value::Bool(true).as_bool());
    assert_eq!(Value::Unt(9).as_unt(), 9);
    assert_eq!(Value::Char('z').as_char(), 'z');
    assert!(Value::Array(vec![Value::Int(1)]).is_array());
    assert_eq!(Value::Array(vec![Value::Int(1)]).as_array().map(|a| a.len()), Some(1));
    assert!(matches!(Value::Opt(OptWrapper::NoValue).as_opt(), OptWrapper::NoValue));
    assert!(Value::Function(Box::new(Function::new())).is_fn());
    let mut a = ValueArray::new();
    a.write_valuearray(Value::Void);
    assert_eq!(a.values.len(), 1);
}

#[test]
fn string_natives() {
    let args = vec![Value::Str("  x ".to_string())];
    assert!(matches!(trim(1, &args, None), Value::Str(s) if s == "  x "));
    assert!(matches!(is_empty(1, &args, None), Value::Bool(false)));
    let empty = vec![Value::Str(String::new())];
    assert!(matches!(is_empty(1, &empty, None), Value::Bool(true)));
}
