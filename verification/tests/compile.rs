use ax_lang::chunk::OpCode;
use ax_lang::compiler::parser::Parser;
use ax_lang::compiler::type_safety::TypeTag;
use ax_lang::scanner::Scanner;
use ax_lang::value::Value;

fn op(o: OpCode) -> u8 {
    o.to_byte()
}

fn code(p: &Parser) -> Vec<u8> {
    p.compiler.function.function.chunk.code.clone()
}

fn messages(p: &Parser) -> Vec<String> {
    p.diagnostics.iter().map(|d| d.message.clone()).collect()
}

/// A parser that knows the function `f(int) -> int`, reading `source`.
fn with_f(source: &str) -> (Parser, Scanner) {
    let mut p = Parser::new();
    p.function_info.parameters_type_tag_table.insert("f".to_string(), vec![TypeTag::Int]);
    p.function_info.return_type_tag_table.insert("f".to_string(), TypeTag::Int);
    let mut s = Scanner::new(source);
    p.advance(&mut s);
    (p, s)
}

#[test]
fn compiling_an_expression_statement() {
    let mut p = Parser::new();
    let ok = p.compile("1 + 2;");
    assert!(ok);
    assert_eq!(messages(&p), vec!["Expected main() entry poin".to_string()]);
    assert_eq!(
        code(&p),
        vec![
            op(OpCode::Constant),
            0,
            op(OpCode::Constant),
            1,
            op(OpCode::Add),
            op(OpCode::Pop),
            op(OpCode::Return),
            op(OpCode::Return)
        ]
    );
    let constants = &p.compiler.function.function.chunk.constants.values;
    assert_eq!(constants.len(), 2);
    assert!(matches!(constants[0], Value::Int(1)));
    assert!(matches!(constants[1], Value::Int(2)));
}

#[test]
fn comparison_operators_compile_to_their_instructions() {
    let mut p = Parser::new();
    p.compile("1 != 2; 3 < 4; 5 >= 6;");
    assert_eq!(
        code(&p),
        vec![
            op(OpCode::Constant),
            0,
            op(OpCode::Constant),
            1,
            op(OpCode::NotEqualTo),
            op(OpCode::Pop),
            op(OpCode::Constant),
            2,
            op(OpCode::Constant),
            3,
            op(OpCode::LessThan),
            op(OpCode::Pop),
            op(OpCode::Constant),
            4,
            op(OpCode::Constant),
            5,
            op(OpCode::GreaterThanEq),
            op(OpCode::Pop),
            op(OpCode::Return),
            op(OpCode::Return)
        ]
    );
}

#[test]
fn mismatched_operands_are_reported() {
    let mut p = Parser::new();
    let mut s = Scanner::new("1 + \"a\"");
    p.advance(&mut s);
    p.expression(&mut s);
    assert_eq!(messages(&p), vec!["mismatched types cannot use [int] with [str]".to_string()]);
    assert!(p.had_err);
}

#[test]
fn comparisons_give_bool() {
    let mut p = Parser::new();
    let mut s = Scanner::new("1 <= 2");
    p.advance(&mut s);
    p.expression(&mut s);
    assert!(p.diagnostics.is_empty());
    assert_eq!(p.type_tag, vec![TypeTag::Bool]);
    assert_eq!(*code(&p).last().unwrap(), op(OpCode::LessThanEq));
}

#[test]
fn a_call_checks_its_argument_and_gives_the_return_type() {
    let (mut p, mut s) = with_f("f(1)");
    p.expression(&mut s);
    assert!(p.diagnostics.is_empty());
    assert_eq!(p.type_tag, vec![TypeTag::Int]);
    assert_eq!(
        code(&p),
        vec![op(OpCode::GetGlobal), 0, op(OpCode::Constant), 1, op(OpCode::Call), 1, 0]
    );
}

#[test]
fn a_call_with_a_mismatched_argument_is_reported() {
    let (mut p, mut s) = with_f("f(\"a\")");
    p.expression(&mut s);
    assert_eq!(
        messages(&p),
        vec!["Mismatched types expected [int] found [str]".to_string()]
    );
}

#[test]
fn a_call_with_too_many_arguments_is_reported() {
    let (mut p, mut s) = with_f("f(1, 2)");
    p.expression(&mut s);
    assert!(p.had_err);
    assert_eq!(p.diagnostics.len(), 1);
    let n = code(&p).len();
    assert_eq!(code(&p)[n - 3..].to_vec(), vec![op(OpCode::Call), 2, 0]);
}

#[test]
fn calling_an_unknown_function_is_reported() {
    let mut p = Parser::new();
    let mut s = Scanner::new("g(1)");
    p.advance(&mut s);
    p.expression(&mut s);
    assert_eq!(messages(&p)[0], "Expected function found nothing.");
}

#[test]
fn a_method_outside_a_function_is_reported() {
    let mut p = Parser::new();
    let mut s = Scanner::new("\"a\".len()");
    p.advance(&mut s);
    p.expression(&mut s);
    assert_eq!(messages(&p)[0], "Statement must be insaid a fn body");
}

#[test]
fn a_method_inside_a_block_applies_its_type_rule() {
    let mut p = Parser::new();
    p.begin_scope();
    let mut s = Scanner::new("\"a\".len()");
    p.advance(&mut s);
    p.expression(&mut s);
    assert!(p.diagnostics.is_empty());
    assert_eq!(p.type_tag, vec![TypeTag::Unt]);
    assert_eq!(*code(&p).last().unwrap(), op(OpCode::Len));
}

#[test]
fn an_unknown_method_is_reported() {
    let mut p = Parser::new();
    p.begin_scope();
    let mut s = Scanner::new("\"a\".size()");
    p.advance(&mut s);
    p.expression(&mut s);
    assert_eq!(messages(&p)[0], "The methode [size] doesn't exsist.");
}

#[test]
fn a_missing_semicolon_is_reported_at_the_end() {
    let mut p = Parser::new();
    let ok = p.compile("1");
    assert!(!ok);
    assert_eq!(
        messages(&p),
        vec![
            "Expected main() entry poin".to_string(),
            "Expect ';' after value.".to_string(),
        ]
    );
}

#[test]
fn compile_is_ok_exactly_without_errors() {
    let mut p = Parser::new();
    p.function_info.parameters_type_tag_table.insert("main".to_string(), vec![]);
    let ok = p.compile("");
    assert!(ok);
    assert_eq!(code(&p), vec![op(OpCode::Return), op(OpCode::Return)]);
    let mut q = Parser::new();
    q.function_info.parameters_type_tag_table.insert("main".to_string(), vec![]);
    assert!(!q.compile("+;"));
    assert_eq!(messages(&q), vec!["Expect expression.".to_string()]);
}

fn reading(source: &str) -> (Parser, Scanner) {
    let mut p = Parser::new();
    let mut s = Scanner::new(source);
    p.advance(&mut s);
    (p, s)
}

#[test]
fn constant_values_of_literals() {
    let (mut p, mut s) = reading("42 \"hi\" 7");
    let (v, t) = p.const_value(&mut s);
    assert!(matches!(v, Value::Int(42)));
    assert_eq!(t, TypeTag::Int);
    let (v, t) = p.const_value(&mut s);
    match v {
        Value::Str(text) => assert_eq!(text, "hi"),
        _ => panic!("expected a string"),
    }
    assert_eq!(t, TypeTag::Str);
    p.expected_type = Some(TypeTag::Unt);
    let (v, t) = p.const_value(&mut s);
    assert!(matches!(v, Value::Unt(7)));
    assert_eq!(t, TypeTag::Unt);
    assert!(p.diagnostics.is_empty());
}

#[test]
fn a_float_constant_takes_its_bits_from_the_table() {
    let (mut p, mut s) = reading("1.5");
    p.float_bits.insert("1.5".to_string(), 1.5f64.to_bits());
    let (v, t) = p.const_value(&mut s);
    assert!(matches!(v, Value::Float(b) if b == 1.5f64.to_bits()));
    assert_eq!(t, TypeTag::Float);
}

#[test]
fn a_constant_that_is_no_literal_is_reported() {
    let (mut p, mut s) = reading("x");
    let (v, t) = p.const_value(&mut s);
    assert!(matches!(v, Value::Void));
    assert_eq!(t, TypeTag::Void);
    assert_eq!(
        messages(&p),
        vec!["const value must be a literal (number, string, bool, Array,or Void).".to_string()]
    );
}

#[test]
fn a_function_becomes_a_constant_of_the_enclosing_chunk() {
    let (mut p, mut s) = reading("() { }");
    p.function(ax_lang::compiler::parser::FunctionType::Function, &mut s, "f");
    assert!(p.diagnostics.is_empty());
    assert!(p.compiler_stack.is_empty());
    assert_eq!(code(&p), vec![op(OpCode::Constant), 0]);
    match &p.compiler.function.function.chunk.constants.values[0] {
        Value::Function(f) => {
            assert_eq!(f.name, "f");
            assert_eq!(f.arity, 0);
            assert_eq!(f.chunk.code, vec![op(OpCode::Return), op(OpCode::Return)]);
        }
        _ => panic!("expected a function"),
    }
}

#[test]
fn variable_declarations_need_a_function_body() {
    let (mut p, mut s) = reading("x = 1;");
    p.variable_declaration(&mut s);
    assert_eq!(messages(&p), vec!["Statements must be insaid a fn body".to_string()]);
}

#[test]
fn or_jumps_over_its_right_operand() {
    let (mut p, mut s) = reading("1 < 2");
    p.type_tag.push(TypeTag::Bool);
    p.or_expr(&mut s);
    assert!(p.diagnostics.is_empty());
    assert_eq!(p.type_tag, vec![TypeTag::Bool]);
    assert_eq!(
        code(&p),
        vec![
            op(OpCode::JumpIfFalse),
            0,
            3,
            op(OpCode::Jump),
            0,
            6,
            op(OpCode::Pop),
            op(OpCode::Constant),
            0,
            op(OpCode::Constant),
            1,
            op(OpCode::LessThan)
        ]
    );
}

#[test]
fn and_needs_two_bools() {
    let (mut p, mut s) = reading("1 < 2");
    p.type_tag.push(TypeTag::Int);
    p.and_expr(&mut s);
    assert_eq!(messages(&p), vec!["mismatched types cannot use [int] with [bool]".to_string()]);
    assert_eq!(p.type_tag, vec![TypeTag::Bool]);
    assert_eq!(
        code(&p),
        vec![
            op(OpCode::JumpIfFalse),
            0,
            6,
            op(OpCode::Pop),
            op(OpCode::Constant),
            0,
            op(OpCode::Constant),
            1,
            op(OpCode::LessThan)
        ]
    );
}

#[test]
fn an_index_must_be_unt() {
    let (mut p, mut s) = reading("3");
    p.index_array(&mut s);
    assert_eq!(messages(&p)[0], "Expected unt type in indexing found [int]");
    assert_eq!(*code(&p).last().unwrap(), op(OpCode::IndexArray));
}

#[test]
fn equality_binds_looser_than_comparison() {
    let (mut p, mut s) = reading("1 < 2 == 3 < 4");
    p.expression(&mut s);
    assert!(p.diagnostics.is_empty());
    assert_eq!(p.type_tag, vec![TypeTag::Bool]);
    assert_eq!(
        code(&p),
        vec![
            op(OpCode::Constant),
            0,
            op(OpCode::Constant),
            1,
            op(OpCode::LessThan),
            op(OpCode::Constant),
            2,
            op(OpCode::Constant),
            3,
            op(OpCode::LessThan),
            op(OpCode::EqualTo)
        ]
    );
}

#[test]
fn a_number_that_does_not_fit_an_int_is_an_unt() {
    let (mut p, mut s) = reading("18446744073709551615 99999999999999999999");
    p.expression(&mut s);
    assert_eq!(p.type_tag, vec![TypeTag::Unt]);
    assert!(matches!(
        p.compiler.function.function.chunk.constants.values[0],
        Value::Unt(18446744073709551615)
    ));
    let (mut q, mut t) = reading("99999999999999999999");
    q.expression(&mut t);
    assert!(matches!(q.compiler.function.function.chunk.constants.values[0], Value::Unt(0)));
}

#[test]
fn a_top_level_function_is_defined_as_a_global() {
    let (mut p, mut s) = reading("f() { }");
    p.fn_declaration(&mut s);
    assert!(p.diagnostics.is_empty());
    assert_eq!(
        code(&p),
        vec![op(OpCode::Constant), 1, op(OpCode::DefineGlobal), 0]
    );
    let constants = &p.compiler.function.function.chunk.constants.values;
    assert!(matches!(&constants[0], Value::Str(s) if s == "f"));
    assert!(matches!(&constants[1], Value::Function(f) if f.name == "f"));
}

#[test]
fn a_global_read_pushes_no_type() {
    let (mut p, mut s) = reading("x");
    p.expression(&mut s);
    assert!(p.type_tag.is_empty());
    assert_eq!(code(&p), vec![op(OpCode::GetGlobal), 0]);
}

#[test]
fn a_bare_return_in_a_void_function() {
    let (mut p, mut s) = reading(";");
    p.compiler.function.function.name = "g".to_string();
    p.function_info.return_type_tag_table.insert("g".to_string(), TypeTag::Void);
    p.return_stmt(&mut s);
    assert!(p.diagnostics.is_empty());
    assert!(p.compiler.has_returned);
    assert_eq!(code(&p), vec![op(OpCode::Void), op(OpCode::Return)]);
    let (mut q, mut t) = reading(";");
    q.compiler.function.function.name = "g".to_string();
    q.function_info.return_type_tag_table.insert("g".to_string(), TypeTag::Int);
    q.return_stmt(&mut t);
    assert_eq!(messages(&q), vec!["Expected [int] found [void]".to_string()]);
}
