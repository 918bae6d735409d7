use ax_lang::compiler::type_safety::TypeTag;
use ax_lang::sdl::io::input_value;
use ax_lang::value::Value;

#[test]
fn input_reads_the_trimmed_line_as_the_requested_type() {
    assert!(matches!(input_value("  42\n", &TypeTag::Int), Some(Value::Int(42))));
    assert!(matches!(input_value("7\r\n", &TypeTag::Unt), Some(Value::Unt(7))));
    match input_value(" hi there \n", &TypeTag::Str) {
        Some(Value::Str(s)) => assert_eq!(s, "hi there"),
        _ => panic!("expected a string"),
    }
    assert!(matches!(input_value(" z\n", &TypeTag::Char), Some(Value::Char('z'))));
    assert!(matches!(input_value("true", &TypeTag::Bool), Some(Value::Void)));
}

#[test]
fn input_that_cannot_be_read_gives_none() {
    assert!(input_value("x1", &TypeTag::Int).is_none());
    assert!(input_value("-3", &TypeTag::Unt).is_none());
    assert!(input_value("ab\n", &TypeTag::Char).is_none());
    assert!(input_value("\n", &TypeTag::Char).is_none());
    assert!(input_value("99999999999999999999", &TypeTag::Int).is_none());
}

#[test]
fn signed_input() {
    assert!(matches!(input_value("-5\n", &TypeTag::Int), Some(Value::Int(-5))));
    assert!(matches!(input_value("+5", &TypeTag::Int), Some(Value::Int(5))));
    assert!(matches!(input_value("+5", &TypeTag::Unt), Some(Value::Unt(5))));
    assert!(input_value("-", &TypeTag::Int).is_none());
}
