use ax_lang::chunk::OpCode;
use ax_lang::compiler::parser::{ErrorLocation, FunctionType, Compiler, Parser};
use ax_lang::compiler::type_safety::TypeTag;
use ax_lang::scanner::{Scanner, Token, TokenType};
use ax_lang::value::Value;

fn token(tt: TokenType, text: &str, line: usize) -> Token {
    Token { token_type: tt, start: text.to_string(), length: text.len(), line }
}

fn code(p: &Parser) -> Vec<u8> {
    p.compiler.function.function.chunk.code.clone()
}

#[test]
fn new_parser_is_empty() {
    let p = Parser::new();
    assert!(!p.had_err);
    assert!(!p.painc_mode);
    assert_eq!(p.compiler.locals.len(), 1);
    assert_eq!(p.compiler.local_count, 1);
    assert_eq!(p.compiler.scope_depth, 0);
    assert_eq!(p.compiler.function.function_type, FunctionType::Script);
    assert_eq!(p.info.last_local_slot, Some(0));
    assert!(p.diagnostics.is_empty());
    let c = Compiler::new(FunctionType::Function);
    assert_eq!(c.function.function_type, FunctionType::Function);
    assert_eq!(c.locals[0].depth, 0);
    assert_eq!(c.locals[0].type_tag, TypeTag::Void);
}

#[test]
fn advance_reports_error_tokens_once() {
    let mut p = Parser::new();
    let mut s = Scanner::new("@ # x");
    p.advance(&mut s);
    assert_eq!(p.current.token_type, TokenType::Identifier);
    assert_eq!(p.current.start, "x");
    assert!(p.had_err);
    assert!(p.painc_mode);
    assert_eq!(p.diagnostics.len(), 1);
    assert_eq!(p.diagnostics[0].message, "Unexpected character.");
    assert!(matches!(p.diagnostics[0].location, ErrorLocation::Nowhere));
    assert_eq!(p.diagnostics[0].line, 1);
}

#[test]
fn consume_reports_a_mismatch_at_the_current_token() {
    let mut p = Parser::new();
    let mut s = Scanner::new("x ;");
    p.advance(&mut s);
    p.consume(TokenType::Semicolon, "Expect ';'.", &mut s);
    assert_eq!(p.current.token_type, TokenType::Identifier);
    assert_eq!(p.diagnostics.len(), 1);
    assert_eq!(p.diagnostics[0].message, "Expect ';'.");
    assert!(matches!(&p.diagnostics[0].location, ErrorLocation::At(1, t) if t == "x"));
    p.advance(&mut s);
    p.consume(TokenType::Semicolon, "Expect ';'.", &mut s);
    assert_eq!(p.current.token_type, TokenType::Eof);
    assert_eq!(p.previous.token_type, TokenType::Semicolon);
    p.consume(TokenType::Semicolon, "missing", &mut s);
    assert_eq!(p.diagnostics.len(), 1);
}

#[test]
fn first_error_wins_until_synchronize() {
    let mut p = Parser::new();
    p.error_at_current("first");
    p.error("second");
    assert_eq!(p.diagnostics.len(), 1);
    assert_eq!(p.diagnostics[0].message, "first");
    assert!(matches!(p.diagnostics[0].location, ErrorLocation::End));
    let mut s = Scanner::new("a b ; c print d");
    p.advance(&mut s);
    p.synchronize(&mut s);
    assert!(!p.painc_mode);
    assert_eq!(p.previous.token_type, TokenType::Semicolon);
    assert_eq!(p.current.start, "c");
    p.advance(&mut s);
    p.synchronize(&mut s);
    assert_eq!(p.current.token_type, TokenType::Print);
    p.error("third");
    assert_eq!(p.diagnostics.len(), 2);
    assert_eq!(p.diagnostics[1].message, "third");
}

#[test]
fn match_consume_reads_only_a_matching_token() {
    let mut p = Parser::new();
    let mut s = Scanner::new(", x");
    p.advance(&mut s);
    assert!(!p.match_consume(&TokenType::Semicolon, &mut s));
    assert_eq!(p.current.token_type, TokenType::Comma);
    assert!(p.match_consume(&TokenType::Comma, &mut s));
    assert_eq!(p.current.token_type, TokenType::Identifier);
    assert!(p.check(&TokenType::Identifier));
}

#[test]
fn emitting_code_and_constants() {
    let mut p = Parser::new();
    p.previous = token(TokenType::Identifier, "x", 7);
    p.emit_byte(OpCode::True.to_byte());
    p.emit_constant(Value::Int(3));
    let name = token(TokenType::Identifier, "count", 7);
    let k = p.identifier_constant(&name);
    assert_eq!(k, 1);
    p.end_compiler();
    let chunk = &p.compiler.function.function.chunk;
    assert_eq!(
        chunk.code,
        vec![
            OpCode::True.to_byte(),
            OpCode::Constant.to_byte(),
            0,
            OpCode::Return.to_byte(),
            OpCode::Return.to_byte()
        ]
    );
    assert_eq!(chunk.line, vec![7, 7, 7, 7, 7]);
    assert!(matches!(chunk.constants.values[1], Value::Str(ref s) if s == "count"));
}

#[test]
fn jumps_are_patched_to_the_end_of_the_code() {
    let mut p = Parser::new();
    let at = p.emit_jump(OpCode::JumpIfFalse.to_byte() as usize);
    assert_eq!(at, 1);
    for _ in 0..300 {
        p.emit_byte(OpCode::Pop.to_byte());
    }
    p.patch_jump(at);
    let c = code(&p);
    assert_eq!((c[1], c[2]), (1, 44));
    let shown = ax_lang::debug::disassemble_instruction(&p.compiler.function.function.chunk, 0);
    assert!(matches!(shown.shown, ax_lang::debug::Shown::Jump(OpCode::JumpIfFalse, 303)));
    assert_eq!(shown.next, 3);
}

#[test]
fn loops_jump_back() {
    let mut p = Parser::new();
    p.emit_byte(OpCode::Pop.to_byte());
    p.emit_loop(0);
    assert_eq!(code(&p), vec![OpCode::Pop.to_byte(), OpCode::Loop.to_byte(), 0, 4]);
    assert!(!p.had_err);
}

#[test]
fn loop_body_too_large() {
    let mut p = Parser::new();
    for _ in 0..70000 {
        p.emit_byte(OpCode::Pop.to_byte());
    }
    p.emit_loop(0);
    assert!(p.had_err);
    assert_eq!(p.diagnostics[0].message, "Loop body too large.");
}

#[test]
fn scopes_pop_their_locals() {
    let mut p = Parser::new();
    p.begin_scope();
    p.previous = token(TokenType::Identifier, "a", 1);
    p.declare_variable();
    p.define_variable();
    assert_eq!(p.compiler.locals.len(), 2);
    assert_eq!(p.compiler.locals[1].depth, 1);
    p.begin_scope();
    p.previous = token(TokenType::Identifier, "b", 1);
    p.declare_variable();
    p.mark_initialized();
    p.end_scope();
    assert_eq!(p.compiler.locals.len(), 2);
    assert_eq!(code(&p), vec![OpCode::Pop.to_byte()]);
    p.end_scope();
    assert_eq!(p.compiler.locals.len(), 1);
    assert_eq!(p.compiler.local_count, 1);
    assert_eq!(code(&p), vec![OpCode::Pop.to_byte(), OpCode::Pop.to_byte()]);
    p.begin_scope();
    p.end_scope();
    assert_eq!(code(&p).len(), 2);
}

#[test]
fn top_level_declarations_make_no_locals() {
    let mut p = Parser::new();
    p.previous = token(TokenType::Identifier, "g", 1);
    p.declare_variable();
    assert_eq!(p.compiler.locals.len(), 1);
}

#[test]
fn resolving_locals() {
    let mut p = Parser::new();
    p.begin_scope();
    let a = token(TokenType::Identifier, "a", 1);
    p.add_local(a.clone());
    assert_eq!(p.resolve_local(&a), Some((1, false, TypeTag::Void)));
    assert!(p.had_err);
    assert_eq!(p.diagnostics[0].message, "Can't read local variable in its own initializer.");
    p.mark_initialized();
    let mut q = Parser::new();
    q.add_local(a.clone());
    q.mark_initialized();
    assert_eq!(q.resolve_local(&a), Some((1, false, TypeTag::Void)));
    assert!(!q.had_err);
    assert_eq!(q.resolve_local(&token(TokenType::Identifier, "zz", 1)), None);
    assert!(Parser::identifiers_equal(&a, &token(TokenType::String, "a", 9)));
    assert!(!Parser::identifiers_equal(&a, &token(TokenType::Identifier, "b", 1)));
}

#[test]
fn parse_variable_in_and_out_of_scopes() {
    let mut p = Parser::new();
    let mut s = Scanner::new("total");
    p.advance(&mut s);
    assert_eq!(p.parse_variable("Expect variable name.", &mut s), 0);
    assert!(matches!(p.compiler.function.function.chunk.constants.values[0], Value::Str(ref t) if t == "total"));
    let mut q = Parser::new();
    q.begin_scope();
    let mut s2 = Scanner::new("x");
    q.advance(&mut s2);
    assert_eq!(q.parse_variable("Expect variable name.", &mut s2), 0);
    assert_eq!(q.compiler.locals.len(), 2);
    assert_eq!(q.compiler.locals[1].name.start, "x");
    assert!(!q.compiler.locals[1].is_mut);
    let mut r = Parser::new();
    let mut s3 = Scanner::new("5");
    r.advance(&mut s3);
    r.parse_variable("Expect variable name.", &mut s3);
    assert_eq!(r.diagnostics[0].message, "Expect variable name.");
}

#[test]
fn constants_are_recorded() {
    let mut p = Parser::new();
    let mut s = Scanner::new("LIMIT");
    p.advance(&mut s);
    let name = p.parse_const("Expect constant name.", &mut s);
    assert_eq!(name, "LIMIT");
    p.define_const(name, Value::Int(10), &TypeTag::Int);
    assert!(matches!(p.const_table.get("LIMIT"), Some((Value::Int(10), TypeTag::Int))));
}

#[test]
fn method_type_rules() {
    let mut p = Parser::new();
    p.type_tag.push(TypeTag::Str);
    p.trim_methode();
    assert_eq!(p.type_tag, vec![TypeTag::Str]);
    p.isempty_methode();
    assert_eq!(p.type_tag, vec![TypeTag::Bool]);
    p.len_methode();
    assert_eq!(p.type_tag, vec![TypeTag::Unt]);
    assert!(p.had_err);
    assert_eq!(p.diagnostics[0].message, "Can not use len() on [bool]");
    assert_eq!(
        code(&p),
        vec![OpCode::Trim.to_byte(), OpCode::IsEmpty.to_byte(), OpCode::Len.to_byte()]
    );

    let mut q = Parser::new();
    q.type_tag.push(TypeTag::Int);
    q.trim_methode();
    assert!(q.type_tag.is_empty());
    assert_eq!(q.diagnostics[0].message, "cannot use int for trim, only str values that are allowed");

    let mut r = Parser::new();
    r.type_tag.push(TypeTag::Int);
    r.abs_methode();
    r.type_tag.push(TypeTag::Float);
    r.sqrt_methode();
    r.round_methode();
    r.celi_methode();
    r.floor_methode();
    assert_eq!(r.type_tag, vec![TypeTag::Int, TypeTag::Float]);
    assert!(!r.had_err);
    r.type_tag.push(TypeTag::Int);
    r.sqrt_methode();
    assert_eq!(r.diagnostics[0].message, "cannot use int for round, only float values that are allowed");
}

#[test]
fn methods_on_arrays_and_options() {
    let arr = TypeTag::Array(std::sync::Arc::new(TypeTag::Int));
    let mut p = Parser::new();
    p.type_tag.push(arr.clone());
    p.info.is_mut.push(true);
    p.rev_methode();
    assert_eq!(p.type_tag, vec![arr.clone()]);
    assert!(!p.had_err);
    p.info.is_mut.push(true);
    p.pop_methode();
    assert_eq!(p.type_tag, vec![TypeTag::Opt(std::sync::Arc::new(arr.clone()))]);
    p.grab_methode();
    assert_eq!(p.type_tag, vec![arr.clone()]);
    assert!(!p.had_err);

    let mut q = Parser::new();
    q.type_tag.push(TypeTag::Str);
    q.rev_methode();
    assert_eq!(q.diagnostics[0].message, "Value must be mutated in order to use rev on it!");
    assert_eq!(q.type_tag, vec![TypeTag::Str]);

    let mut r = Parser::new();
    r.type_tag.push(TypeTag::Int);
    r.grab_methode();
    assert!(r.type_tag.is_empty());
    assert_eq!(r.diagnostics[0].message, "Expect 'Opt' type wrapper to use 'grab()' one");
}

#[test]
fn type_check_messages() {
    let mut p = Parser::new();
    p.type_check(&TypeTag::Int, &TokenType::Int, false, false);
    assert!(!p.had_err);
    p.type_check(&TypeTag::Int, &TokenType::Identifier, true, true);
    assert!(!p.had_err);
    p.type_check(&TypeTag::Str, &TokenType::Int, true, true);
    assert_eq!(p.diagnostics[0].message, "Mismatched types, expected [Opt[Array[int]]] found [str]");
    let mut q = Parser::new();
    q.type_check(&TypeTag::Str, &TokenType::Float, true, false);
    assert_eq!(q.diagnostics[0].message, "Mismatched types, expected [Array[float]] found [str]");
}

#[test]
fn array_annotations() {
    let mut p = Parser::new();
    let mut s = Scanner::new("x ;");
    p.advance(&mut s);
    let t = p.array_type(&mut s);
    assert_eq!(t, TypeTag::Array(std::sync::Arc::new(TypeTag::Void)));
    assert_eq!(p.current.token_type, TokenType::Semicolon);
    assert_eq!(p.diagnostics.len(), 1);
    assert_eq!(p.diagnostics[0].message, "Exp");
    assert!(matches!(&p.diagnostics[0].location, ErrorLocation::At(1, t) if t == "x"));
    let mut q = Parser::new();
    let mut s2 = Scanner::new("[");
    q.advance(&mut s2);
    let (t2, is_array) = q.parse_array_typetag(&mut s2);
    assert!(is_array);
    assert_eq!(t2, TypeTag::Array(std::sync::Arc::new(TypeTag::Void)));
    assert_eq!(q.diagnostics[0].message, "Unexpected character.");
    assert_eq!(q.diagnostics.len(), 1);
}

#[test]
fn function_signatures_are_read_before_compiling() {
    let mut p = Parser::new();
    let mut s = Scanner::new("fn add(a x, b y) z ;");
    p.advance(&mut s);
    p.fn_prepass(&mut s);
    let params = p.function_info.parameters_type_tag_table.get("add").unwrap();
    assert_eq!(params, &vec![TypeTag::Void, TypeTag::Void]);
    assert_eq!(p.function_info.return_type_tag_table.get("add"), Some(&TypeTag::Void));
    assert_eq!(p.current.start, "z");
    assert_eq!(p.diagnostics.len(), 1);
    assert_eq!(p.diagnostics[0].message, "Expect ':' after parameter's name for type");
    assert!(matches!(&p.diagnostics[0].location, ErrorLocation::At(1, t) if t == "x"));

    let mut q = Parser::new();
    let mut s2 = Scanner::new("fn main(a: x)");
    q.advance(&mut s2);
    q.fn_prepass(&mut s2);
    assert_eq!(q.diagnostics[0].message, "main() can not have parameters");
    assert_eq!(q.diagnostics.len(), 1);
    assert_eq!(q.function_info.parameters_type_tag_table.get("main"), Some(&vec![TypeTag::Void]));
    q.check_main();
    assert_eq!(q.diagnostics.len(), 1);

    let mut r = Parser::new();
    let mut s3 = Scanner::new("fn f() x");
    r.advance(&mut s3);
    r.fn_prepass(&mut s3);
    assert_eq!(r.function_info.parameters_type_tag_table.get("f"), Some(&vec![]));
    assert_eq!(r.function_info.return_type_tag_table.get("f"), Some(&TypeTag::Void));
    assert_eq!(r.current.start, "x");
    assert!(!r.had_err);
}

#[test]
fn pre_pass_reads_to_the_end() {
    let mut p = Parser::new();
    p.pre_pass("print 1; @");
    assert_eq!(p.current.token_type, TokenType::Print);
    assert!(p.diagnostics.is_empty());
    let mut q = Parser::new();
    q.current = token(TokenType::Identifier, "start", 0);
    q.pre_pass("print 1; @");
    assert_eq!(q.current.token_type, TokenType::Eof);
    assert_eq!(q.previous.token_type, TokenType::Eof);
    assert_eq!(q.diagnostics.len(), 1);
    assert_eq!(q.diagnostics[0].message, "Unexpected character.");
    assert!(q.function_info.parameters_type_tag_table.get("main").is_none());
}

#[test]
fn missing_main_is_reported() {
    let mut q = Parser::new();
    q.check_main();
    assert_eq!(q.diagnostics[0].message, "Expected main() entry poin");
    assert!(matches!(q.diagnostics[0].location, ErrorLocation::End));
}

#[test]
fn stop_jumps_out_of_the_loop() {
    let mut p = Parser::new();
    p.control_flow.stops.push(Vec::new());
    p.control_flow.locals_in.push(1);
    p.add_local(token(TokenType::Identifier, "i", 1));
    let mut s = Scanner::new(";");
    p.advance(&mut s);
    p.stop_stmt(&mut s);
    assert!(!p.had_err);
    assert_eq!(
        code(&p),
        vec![OpCode::Jump.to_byte(), 0xff, 0xff, OpCode::Pop.to_byte()]
    );
    assert_eq!(p.control_flow.stops, vec![vec![1u8]]);
    assert_eq!(p.current.token_type, TokenType::Eof);
}

#[test]
fn stop_outside_a_loop_is_reported() {
    let mut p = Parser::new();
    p.control_flow.locals_in.push(1);
    let mut s = Scanner::new(";");
    p.advance(&mut s);
    p.stop_stmt(&mut s);
    assert_eq!(p.diagnostics[0].message, "'stop' used outside of a loop.");
    assert!(p.control_flow.stops.is_empty());
    assert_eq!(code(&p), vec![OpCode::Jump.to_byte(), 0xff, 0xff]);
}

#[test]
fn skip_jumps_back_to_the_loop_start() {
    let mut p = Parser::new();
    p.emit_byte(OpCode::True.to_byte());
    p.control_flow.loop_starts.push(0);
    p.control_flow.locals_in.push(0);
    let mut s = Scanner::new("x");
    p.advance(&mut s);
    p.skip_stmt(&mut s);
    assert_eq!(p.diagnostics[0].message, "Expect ';' after variable declaration.");
    assert_eq!(
        code(&p),
        vec![OpCode::True.to_byte(), OpCode::Pop.to_byte(), OpCode::Loop.to_byte(), 0, 5]
    );
}
