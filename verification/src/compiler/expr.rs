//! Expressions: a Pratt parser over the token kinds' rules, and the type rules of
//! the operators and literals.
use vstd::prelude::*;

use crate::chunk::{spec_op_byte, OpCode};
use crate::compiler::methode::{below_top, top_tag};
use crate::compiler::parser::{
    Local,
    cursor_advance, cursor_measure, lemma_advanced_cursor, lemma_reported_is_report,
    lemma_reports_compose, lemma_skip_errors_safe, Parser, Report,
};
use crate::compiler::rules::Precedence;
use crate::compiler::type_safety::{spec_tag_name, TypeTag};
use crate::scanner::{scan_safe, Scanner, Token, TokenType};
use crate::text::{chars_of, contains_char, join3, parse_i64, parse_u64, string_of};
use crate::value::{same_value, Value};
use crate::compiler::locals::find_local;

verus! {

/// The handlers that start an expression (the prefix rules).
#[derive(Debug, Clone, Copy, PartialEq, Eq, Structural)]
pub enum PrefixRule {
    Grouping,
    Unary,
    Variable,
    Strings,
    Number,
    Literal,
}

/// The handlers that continue an expression after an operator (the infix rules).
#[derive(Debug, Clone, Copy, PartialEq, Eq, Structural)]
pub enum InfixRule {
    Binary,
    Call,
    Methode,
    Or,
    And,
    IndexArray,
}

/// `kept_up` for an expression: it also leaves the locals as they were.
pub open spec fn expr_kept(p: Parser, sc: Scanner, o: Parser, st: crate::scanner::ScanState) -> bool {
    &&& kept_up(p, sc, o, st)
    &&& p.compiler.locals == o.compiler.locals
}

/// Whether `p` is `o` after `number` compiled the literal `o.previous`: its
/// constant (see `number_constant`) emitted with `Constant` and its type pushed.
pub open spec fn number_compiled(p: Parser, o: Parser) -> bool {
    let (v, t) = number_constant(o.previous.start@, o.expected_type, o.float_bits@);
    let n = o.chunk().constants.values@.len();
    &&& p.type_tag@ == o.type_tag@.push(t)
    &&& n < usize::MAX ==> {
        &&& p.chunk().constants.values@ == o.chunk().constants.values@.push(v)
        &&& p.chunk().code@ == o.chunk().code@.push(spec_op_byte(OpCode::Constant)).push(n as u8)
    }
}

/// Law of a parenthesised number (see `grouping`): it compiles to exactly the
/// code of the number alone, one `Constant` loading the literal's value, and
/// pushes the literal's type; any two such compilations from one state agree.
pub proof fn law_grouped_number(o: Parser, p: Parser, q: Parser)
    requires
        number_compiled(p, o),
        number_compiled(q, o),
        o.chunk().constants.values@.len() < usize::MAX,
    ensures
        p.chunk().code@.len() == o.chunk().code@.len() + 2,
        p.chunk().code@.subrange(0, o.chunk().code@.len() as int) == o.chunk().code@,
        p.chunk().code@[o.chunk().code@.len() as int] == spec_op_byte(OpCode::Constant),
        p.chunk().constants.values@.last() == number_constant(
            o.previous.start@,
            o.expected_type,
            o.float_bits@,
        ).0,
        p.type_tag@.last() == number_constant(o.previous.start@, o.expected_type, o.float_bits@).1,
        p.chunk().code@ == q.chunk().code@,
        p.type_tag@ == q.type_tag@,
{
    assert(p.chunk().code@.subrange(0, o.chunk().code@.len() as int) =~= o.chunk().code@);
}

/// Law of number literals' types: a run of digits that fits an `int` is an
/// `int` when no `unt` is expected, and a literal with a `.` is a `float`.
pub proof fn law_number_types(text: Seq<char>, bits: Map<Seq<char>, u64>)
    ensures
        crate::text::all_digits(text) && crate::text::decimal_value(text) <= i64::MAX
            ==> number_constant(text, Option::None, bits).1 == TypeTag::Int,
        text.contains('.') ==> number_constant(text, Option::None, bits).1 == TypeTag::Float,
{
    if crate::text::all_digits(text) {
        assert(!text.contains('.')) by {
            if text.contains('.') {
                let i = choose|i: int| 0 <= i < text.len() && text[i] == '.';
                assert(crate::text::is_ascii_digit(text[i]));
            }
        }
        assert(crate::text::is_ascii_digit(text[0]));
        lemma_digits_value_nonneg(text);
    }
}

/// The value of a run of digits is not negative.
pub proof fn lemma_digits_value_nonneg(text: Seq<char>)
    requires
        forall|i: int| 0 <= i < text.len() ==> crate::text::is_ascii_digit(#[trigger] text[i]),
    ensures
        crate::text::decimal_value(text) >= 0,
    decreases text.len(),
{
    if text.len() > 0 {
        lemma_digits_value_nonneg(text.drop_last());
        assert(crate::text::is_ascii_digit(text[text.len() - 1]));
    }
}

/// The binding strength of a precedence, from 0 (`NoBinding`) to 11 (`Primary`).
pub open spec fn spec_level(p: Precedence) -> u8 {
    match p {
        Precedence::NoBinding => 0,
        Precedence::Assignment => 1,
        Precedence::Or => 2,
        Precedence::And => 3,
        Precedence::Equality => 4,
        Precedence::Comparison => 5,
        Precedence::Term => 6,
        Precedence::Factor => 7,
        Precedence::To => 8,
        Precedence::Unary => 9,
        Precedence::Call => 10,
        Precedence::Primary => 11,
    }
}

/// The prefix rule of a token kind, if it has one.
pub open spec fn spec_prefix_rule(tt: TokenType) -> Option<PrefixRule> {
    match tt {
        TokenType::LeftParen => Option::Some(PrefixRule::Grouping),
        TokenType::Minus => Option::Some(PrefixRule::Unary),
        TokenType::Bang => Option::Some(PrefixRule::Unary),
        TokenType::Identifier => Option::Some(PrefixRule::Variable),
        TokenType::String => Option::Some(PrefixRule::Strings),
        TokenType::Number => Option::Some(PrefixRule::Number),
        TokenType::True => Option::Some(PrefixRule::Literal),
        TokenType::False => Option::Some(PrefixRule::Literal),
        TokenType::OptNone => Option::Some(PrefixRule::Literal),
        TokenType::Void => Option::Some(PrefixRule::Literal),
        _ => Option::None,
    }
}

/// The infix rule of a token kind, and the precedence it binds with.
pub open spec fn spec_infix_rule(tt: TokenType) -> (Option<InfixRule>, Precedence) {
    match tt {
        TokenType::Minus => (Option::Some(InfixRule::Binary), Precedence::Term),
        TokenType::Plus => (Option::Some(InfixRule::Binary), Precedence::Term),
        TokenType::Slash => (Option::Some(InfixRule::Binary), Precedence::Factor),
        TokenType::Star => (Option::Some(InfixRule::Binary), Precedence::Factor),
        TokenType::Modulo => (Option::Some(InfixRule::Binary), Precedence::Factor),
        TokenType::BangEqual => (Option::Some(InfixRule::Binary), Precedence::Equality),
        TokenType::EqualEqual => (Option::Some(InfixRule::Binary), Precedence::Equality),
        TokenType::Greater => (Option::Some(InfixRule::Binary), Precedence::Comparison),
        TokenType::GreaterEqual => (Option::Some(InfixRule::Binary), Precedence::Comparison),
        TokenType::Lesser => (Option::Some(InfixRule::Binary), Precedence::Comparison),
        TokenType::LesserEqual => (Option::Some(InfixRule::Binary), Precedence::Comparison),
        TokenType::LeftParen => (Option::Some(InfixRule::Call), Precedence::Call),
        TokenType::Dot => (Option::Some(InfixRule::Methode), Precedence::Call),
        TokenType::Or => (Option::Some(InfixRule::Or), Precedence::Or),
        TokenType::And => (Option::Some(InfixRule::And), Precedence::And),
        TokenType::LeftBracket => (Option::Some(InfixRule::IndexArray), Precedence::Call),
        _ => (Option::None, Precedence::NoBinding),
    }
}

/// The constant a number literal with text `text` gives, and its type: with a
/// `.` a `float` whose bits are looked up in `bits` (0 when absent); else, when
/// an `unt` is expected, the `unt` that `str::parse` reads (0 when it fails);
/// else the `int` it reads, or when that fails the `unt` it reads (0 when that
/// fails too).
pub open spec fn number_constant(
    text: Seq<char>,
    expected: Option<TypeTag>,
    bits: Map<Seq<char>, u64>,
) -> (Value, TypeTag) {
    let unt = match crate::text::parsed_u64(text) {
        Option::Some(u) => u,
        Option::None => 0,
    };
    if text.contains('.') {
        (Value::Float(if bits.contains_key(text) { bits[text] } else { 0 }), TypeTag::Float)
    } else if expected == Option::Some(TypeTag::Unt) {
        (Value::Unt(unt), TypeTag::Unt)
    } else {
        match crate::text::parsed_i64(text) {
            Option::Some(i) => (Value::Int(i), TypeTag::Int),
            Option::None => (Value::Unt(unt), TypeTag::Unt),
        }
    }
}

/// Whether the operator compares.
pub open spec fn is_comparison(op: TokenType) -> bool {
    op == TokenType::BangEqual || op == TokenType::EqualEqual || op == TokenType::Greater || op
        == TokenType::GreaterEqual || op == TokenType::Lesser || op == TokenType::LesserEqual
}

/// The type of `a op b` for operands of types `t1` and `t2`; `None` when the
/// operator does not take them.
pub open spec fn binary_result(op: TokenType, t1: TypeTag, t2: TypeTag) -> Option<TypeTag> {
    let comparable = match (t1, t2) {
        (TypeTag::Int, TypeTag::Int) => true,
        (TypeTag::Int, TypeTag::Float) => true,
        (TypeTag::Float, TypeTag::Int) => true,
        (TypeTag::Str, TypeTag::Str) => true,
        (TypeTag::Unt, TypeTag::Unt) => true,
        (TypeTag::Unt, TypeTag::Float) => true,
        (TypeTag::Float, TypeTag::Unt) => true,
        (TypeTag::Float, TypeTag::Float) => true,
        (TypeTag::Bool, TypeTag::Bool) => true,
        (TypeTag::Char, TypeTag::Char) => true,
        _ => false,
    };
    if comparable && is_comparison(op) {
        Option::Some(TypeTag::Bool)
    } else {
        match (t1, t2) {
            (TypeTag::Int, TypeTag::Int) => Option::Some(TypeTag::Int),
            (TypeTag::Int, TypeTag::Float) => Option::Some(TypeTag::Float),
            (TypeTag::Float, TypeTag::Int) => Option::Some(TypeTag::Float),
            (TypeTag::Str, TypeTag::Str) => Option::Some(TypeTag::Str),
            (TypeTag::Unt, TypeTag::Unt) => Option::Some(TypeTag::Unt),
            (TypeTag::Unt, TypeTag::Float) => Option::Some(TypeTag::Float),
            (TypeTag::Float, TypeTag::Unt) => Option::Some(TypeTag::Unt),
            (TypeTag::Float, TypeTag::Float) => Option::Some(TypeTag::Float),
            _ => Option::None,
        }
    }
}

/// The instruction of a binary operator.
pub open spec fn binary_opcode(op: TokenType) -> Option<OpCode> {
    match op {
        TokenType::Plus => Option::Some(OpCode::Add),
        TokenType::Minus => Option::Some(OpCode::Subtract),
        TokenType::Star => Option::Some(OpCode::Multiply),
        TokenType::Slash => Option::Some(OpCode::Divide),
        TokenType::Modulo => Option::Some(OpCode::Modulo),
        TokenType::BangEqual => Option::Some(OpCode::NotEqualTo),
        TokenType::EqualEqual => Option::Some(OpCode::EqualTo),
        TokenType::Greater => Option::Some(OpCode::GreaterThan),
        TokenType::Lesser => Option::Some(OpCode::LessThan),
        TokenType::GreaterEqual => Option::Some(OpCode::GreaterThanEq),
        TokenType::LesserEqual => Option::Some(OpCode::LessThanEq),
        _ => Option::None,
    }
}

/// The message for operands of types `t1` and `t2` that an operator does not take.
pub open spec fn mismatch_operands(t1: TypeTag, t2: TypeTag) -> Seq<char> {
    "mismatched types cannot use ["@ + spec_tag_name(t1) + "] with ["@ + spec_tag_name(t2)
        + "]"@
}

/// Whether compiling took `self` and the scanner `sc` from `o` and the scanner
/// state `st`: both stay well formed and safe to scan, no more is left to read,
/// the scope depth, the enclosing compilers, the name and arity of the function
/// being compiled and the recorded parameter types are unchanged, and code is
/// only added to.
pub open spec fn kept_up(p: Parser, sc: Scanner, o: Parser, st: crate::scanner::ScanState) -> bool {
    &&& sc.wf()
    &&& scan_safe(sc@)
    &&& p.wf()
    &&& cursor_measure(p.at(sc@)) <= cursor_measure(o.at(st))
    &&& p.compiler.scope_depth == o.compiler.scope_depth
    &&& p.compiler_stack@ == o.compiler_stack@
    &&& p.compiler.function.function.name == o.compiler.function.function.name
    &&& p.compiler.function.function.arity == o.compiler.function.function.arity
    &&& p.function_info.parameters_type_tag_table == o.function_info.parameters_type_tag_table
    &&& o.chunk().code@.len() <= p.chunk().code@.len()
    &&& code_kept_from(o.chunk().code@, p.chunk().code@, 257)
    &&& scoped(o) ==> scoped(p) && locals_grown(
        o.compiler.locals@,
        p.compiler.locals@,
        o.compiler.scope_depth as int,
    )
}

/// Ending a scope at `depth` removes exactly the locals added deeper than it,
/// when those before were not deeper.
pub proof fn lemma_kept_locals_grown(before: Seq<Local>, after: Seq<Local>, depth: int)
    requires
        before.len() <= after.len(),
        forall|k: int| 0 <= k < before.len() ==> #[trigger] after[k] == before[k],
        forall|k: int| before.len() <= k < after.len() ==> #[trigger] after[k].depth > depth,
        forall|k: int| 0 <= k < before.len() ==> #[trigger] before[k].depth <= depth,
    ensures
        crate::compiler::locals::kept_locals(after, depth) == before.len(),
        after.take(before.len() as int) == before,
    decreases after.len(),
{
    if after.len() > before.len() {
        assert(after.last().depth > depth);
        lemma_kept_locals_grown(before, after.drop_last(), depth);
        assert(after.drop_last().take(before.len() as int) =~= after.take(before.len() as int));
    } else {
        if after.len() > 0 {
            assert(after.last() == before[before.len() - 1]);
        }
        assert(after.take(before.len() as int) =~= before);
    }
}

/// Whether no local of `p` lies deeper than its scope depth.
pub open spec fn scoped(p: Parser) -> bool {
    forall|k: int| 0 <= k < p.compiler.locals@.len() ==> #[trigger] p.compiler.locals@[k].depth
        <= p.compiler.scope_depth
}

/// Whether `after` is `before` with locals of depth `depth` added at the end.
pub open spec fn locals_grown(before: Seq<Local>, after: Seq<Local>, depth: int) -> bool {
    &&& before.len() <= after.len()
    &&& forall|k: int| 0 <= k < before.len() ==> #[trigger] after[k] == before[k]
    &&& forall|k: int| before.len() <= k < after.len() ==> #[trigger] after[k].depth == depth
}

/// Keeping bytes is transitive while the code grows.
pub proof fn lemma_kept_trans(a: Seq<u8>, b: Seq<u8>, c: Seq<u8>, from: int)
    requires
        code_kept_from(a, b, from),
        code_kept_from(b, c, from),
        a.len() <= b.len(),
    ensures
        code_kept_from(a, c, from),
{
    assert forall|i: int| from <= i < a.len() implies c[i] == a[i] by {
        assert(c[i] == b[i]);
    }
}

/// Patching a jump whose operand lies past the end of `a` keeps the bytes of `a`
/// that `b` kept.
pub proof fn lemma_kept_patch(a: Seq<u8>, b: Seq<u8>, offset: int, from: int)
    requires
        code_kept_from(a, b, from),
        0 <= from,
        a.len() <= offset,
        offset + 2 <= b.len(),
    ensures
        code_kept_from(a, crate::compiler::emit::patched_code(b, offset), from),
{
    let c = crate::compiler::emit::patched_code(b, offset);
    assert forall|i: int| from <= i < a.len() implies c[i] == a[i] by {
        assert(i != offset && i != offset + 1);
        assert(c[i] == b[i]);
    }
}

/// Whether the bytes of `before` from index `from` on are still in `after`.
/// (Below index 257 a `stop`'s jump, kept as one byte, may be patched.)
pub open spec fn code_kept_from(before: Seq<u8>, after: Seq<u8>, from: int) -> bool {
    forall|i: int| from <= i < before.len() ==> after[i] == before[i]
}

/// The binding strength of a precedence (see `spec_level`).
pub fn level(p: Precedence) -> (r: u8)
    ensures
        r == spec_level(p),
{
    match p {
        Precedence::NoBinding => 0,
        Precedence::Assignment => 1,
        Precedence::Or => 2,
        Precedence::And => 3,
        Precedence::Equality => 4,
        Precedence::Comparison => 5,
        Precedence::Term => 6,
        Precedence::Factor => 7,
        Precedence::To => 8,
        Precedence::Unary => 9,
        Precedence::Call => 10,
        Precedence::Primary => 11,
    }
}

/// The prefix rule of a token kind (see `spec_prefix_rule`).
pub fn prefix_rule(tt: TokenType) -> (r: Option<PrefixRule>)
    ensures
        r == spec_prefix_rule(tt),
{
    match tt {
        TokenType::LeftParen => Some(PrefixRule::Grouping),
        TokenType::Minus => Some(PrefixRule::Unary),
        TokenType::Bang => Some(PrefixRule::Unary),
        TokenType::Identifier => Some(PrefixRule::Variable),
        TokenType::String => Some(PrefixRule::Strings),
        TokenType::Number => Some(PrefixRule::Number),
        TokenType::True => Some(PrefixRule::Literal),
        TokenType::False => Some(PrefixRule::Literal),
        TokenType::OptNone => Some(PrefixRule::Literal),
        TokenType::Void => Some(PrefixRule::Literal),
        _ => None,
    }
}

/// The infix rule of a token kind and its precedence (see `spec_infix_rule`).
pub fn infix_rule(tt: TokenType) -> (r: (Option<InfixRule>, Precedence))
    ensures
        r == spec_infix_rule(tt),
{
    match tt {
        TokenType::Minus => (Some(InfixRule::Binary), Precedence::Term),
        TokenType::Plus => (Some(InfixRule::Binary), Precedence::Term),
        TokenType::Slash => (Some(InfixRule::Binary), Precedence::Factor),
        TokenType::Star => (Some(InfixRule::Binary), Precedence::Factor),
        TokenType::Modulo => (Some(InfixRule::Binary), Precedence::Factor),
        TokenType::BangEqual => (Some(InfixRule::Binary), Precedence::Equality),
        TokenType::EqualEqual => (Some(InfixRule::Binary), Precedence::Equality),
        TokenType::Greater => (Some(InfixRule::Binary), Precedence::Comparison),
        TokenType::GreaterEqual => (Some(InfixRule::Binary), Precedence::Comparison),
        TokenType::Lesser => (Some(InfixRule::Binary), Precedence::Comparison),
        TokenType::LesserEqual => (Some(InfixRule::Binary), Precedence::Comparison),
        TokenType::LeftParen => (Some(InfixRule::Call), Precedence::Call),
        TokenType::Dot => (Some(InfixRule::Methode), Precedence::Call),
        TokenType::Or => (Some(InfixRule::Or), Precedence::Or),
        TokenType::And => (Some(InfixRule::And), Precedence::And),
        TokenType::LeftBracket => (Some(InfixRule::IndexArray), Precedence::Call),
        _ => (None, Precedence::NoBinding),
    }
}

impl Parser {
    /// The type rule and the instruction of the binary operator `operator_type`,
    /// applied to the two types on top of the stack (a missing one counts as
    /// `Void`): they are replaced by the result type, or reported when the
    /// operator does not take them; then the operator's instruction is emitted.
    pub fn binary_types(&mut self, operator_type: TokenType)
        ensures
            ({
                let t2 = top_tag(old(self).type_tag@);
                let rest = below_top(old(self).type_tag@);
                let t1 = top_tag(rest);
                let rest2 = below_top(rest);
                &&& match binary_result(operator_type, t1, t2) {
                    Option::Some(t) => final(self).type_tag@ == rest2.push(t) && final(self).same_errors(old(self)),
                    Option::None => final(self).type_tag@ == rest2 && final(self).reported(
                        old(self),
                        old(self).previous@,
                        mismatch_operands(t1, t2),
                    ),
                }
                &&& final(self).chunk().code@ == match binary_opcode(operator_type) {
                    Option::Some(op) => old(self).chunk().code@.push(spec_op_byte(op)),
                    Option::None => old(self).chunk().code@,
                }
                &&& final(self).chunk().constants == old(self).chunk().constants
            }),
            final(self).with_chunk(old(self).chunk()).with_type_tags_of(old(self)).same_but_errors(
                old(self),
            ),
    {
        let type_tag2 = match self.type_tag.pop() {
            Some(t) => t,
            None => TypeTag::Void,
        };
        let type_tag1 = match self.type_tag.pop() {
            Some(t) => t,
            None => TypeTag::Void,
        };
        let is_comp = operator_type == TokenType::BangEqual || operator_type
            == TokenType::EqualEqual || operator_type == TokenType::Greater || operator_type
            == TokenType::GreaterEqual || operator_type == TokenType::Lesser || operator_type
            == TokenType::LesserEqual;
        let comparable = match (&type_tag1, &type_tag2) {
            (TypeTag::Int, TypeTag::Int) => true,
            (TypeTag::Int, TypeTag::Float) => true,
            (TypeTag::Float, TypeTag::Int) => true,
            (TypeTag::Str, TypeTag::Str) => true,
            (TypeTag::Unt, TypeTag::Unt) => true,
            (TypeTag::Unt, TypeTag::Float) => true,
            (TypeTag::Float, TypeTag::Unt) => true,
            (TypeTag::Float, TypeTag::Float) => true,
            (TypeTag::Bool, TypeTag::Bool) => true,
            (TypeTag::Char, TypeTag::Char) => true,
            _ => false,
        };
        let result = if comparable && is_comp {
            Some(TypeTag::Bool)
        } else {
            match (&type_tag1, &type_tag2) {
                (TypeTag::Int, TypeTag::Int) => Some(TypeTag::Int),
                (TypeTag::Int, TypeTag::Float) => Some(TypeTag::Float),
                (TypeTag::Float, TypeTag::Int) => Some(TypeTag::Float),
                (TypeTag::Str, TypeTag::Str) => Some(TypeTag::Str),
                (TypeTag::Unt, TypeTag::Unt) => Some(TypeTag::Unt),
                (TypeTag::Unt, TypeTag::Float) => Some(TypeTag::Float),
                (TypeTag::Float, TypeTag::Unt) => Some(TypeTag::Unt),
                (TypeTag::Float, TypeTag::Float) => Some(TypeTag::Float),
                _ => None,
            }
        };
        match result {
            Some(t) => {
                self.type_tag.push(t);
            },
            None => {
                let n1 = type_tag1.to_string();
                let n2 = type_tag2.to_string();
                let head = join3("mismatched types cannot use [", n1.as_str(), "] with [");
                let message = join3(head.as_str(), n2.as_str(), "]");
                proof {
                    assert(message@ =~= mismatch_operands(type_tag1, type_tag2));
                }
                self.error(message.as_str());
            },
        }
        match operator_type {
            TokenType::Plus => self.emit_byte(OpCode::Add.to_byte()),
            TokenType::Minus => self.emit_byte(OpCode::Subtract.to_byte()),
            TokenType::Star => self.emit_byte(OpCode::Multiply.to_byte()),
            TokenType::Slash => self.emit_byte(OpCode::Divide.to_byte()),
            TokenType::Modulo => self.emit_byte(OpCode::Modulo.to_byte()),
            TokenType::BangEqual => self.emit_byte(OpCode::NotEqualTo.to_byte()),
            TokenType::EqualEqual => self.emit_byte(OpCode::EqualTo.to_byte()),
            TokenType::Greater => self.emit_byte(OpCode::GreaterThan.to_byte()),
            TokenType::Lesser => self.emit_byte(OpCode::LessThan.to_byte()),
            TokenType::GreaterEqual => self.emit_byte(OpCode::GreaterThanEq.to_byte()),
            TokenType::LesserEqual => self.emit_byte(OpCode::LessThanEq.to_byte()),
            _ => {},
        }
    }

    /// The type rule and the instruction of the prefix operator `operator_type`
    /// (`-` or `!`), applied to the type on top of the stack (a missing one counts
    /// as `Void`): an `int`, a `float` or a `bool` stays; any other type is popped
    /// and reported. `-` emits `Negate`, `!` emits `Not`.
    pub fn unary_types(&mut self, operator_type: TokenType)
        ensures
            ({
                let t = top_tag(old(self).type_tag@);
                let rest = below_top(old(self).type_tag@);
                let name = if operator_type == TokenType::Minus {
                    "Minus"@
                } else if operator_type == TokenType::Bang {
                    "Bang"@
                } else {
                    Seq::empty()
                };
                &&& (t is Int || t is Float || t is Bool) ==> final(self).type_tag@ == rest.push(t)
                    && final(self).same_errors(old(self))
                &&& !(t is Int || t is Float || t is Bool) ==> final(self).type_tag@ == rest
                    && final(self).reported(
                    old(self),
                    old(self).previous@,
                    "cannot use ["@ + spec_tag_name(t) + "] values with ["@ + name + "]."@,
                )
                &&& final(self).chunk().code@ == if operator_type == TokenType::Minus {
                    old(self).chunk().code@.push(spec_op_byte(OpCode::Negate))
                } else if operator_type == TokenType::Bang {
                    old(self).chunk().code@.push(spec_op_byte(OpCode::Not))
                } else {
                    old(self).chunk().code@
                }
                &&& final(self).chunk().constants == old(self).chunk().constants
            }),
            final(self).with_chunk(old(self).chunk()).with_type_tags_of(old(self)).same_but_errors(
                old(self),
            ),
    {
        let type_tag = match self.type_tag.pop() {
            Some(t) => t,
            None => TypeTag::Void,
        };
        match type_tag {
            TypeTag::Int => self.type_tag.push(TypeTag::Int),
            TypeTag::Float => self.type_tag.push(TypeTag::Float),
            TypeTag::Bool => self.type_tag.push(TypeTag::Bool),
            _ => {
                let op_name = if operator_type == TokenType::Minus {
                    "Minus"
                } else if operator_type == TokenType::Bang {
                    "Bang"
                } else {
                    ""
                };
                let name = type_tag.to_string();
                let head = join3("cannot use [", name.as_str(), "] values with [");
                let message = join3(head.as_str(), op_name, "].");
                proof {
                    reveal_strlit("");
                    assert(message@ =~= "cannot use ["@ + spec_tag_name(type_tag)
                        + "] values with ["@ + (if operator_type == TokenType::Minus {
                        "Minus"@
                    } else if operator_type == TokenType::Bang {
                        "Bang"@
                    } else {
                        Seq::empty()
                    }) + "]."@);
                }
                self.error(message.as_str());
            },
        }
        if operator_type == TokenType::Minus {
            self.emit_byte(OpCode::Negate.to_byte());
        } else if operator_type == TokenType::Bang {
            self.emit_byte(OpCode::Not.to_byte());
        }
    }

    /// Appends `value` to the constants and the instruction that loads it. A
    /// chunk that already holds `usize::MAX` constants takes no more: that is
    /// reported as "Too many constants in one chunk.".
    fn constant(&mut self, value: Value)
        ensures
            code_kept_from(old(self).chunk().code@, final(self).chunk().code@, 0),
            old(self).chunk().code@.len() <= final(self).chunk().code@.len(),
            old(self).chunk().constants.values@.len() < usize::MAX ==> {
                &&& final(self).chunk().constants.values@ == old(self).chunk().constants.values@.push(value)
                &&& final(self).chunk().code@ == old(self).chunk().code@.push(
                    spec_op_byte(OpCode::Constant),
                ).push(old(self).chunk().constants.values@.len() as u8)
                &&& final(self).same_but_chunk(old(self))
            },
            final(self).with_chunk(old(self).chunk()).same_but_errors(old(self)),
    {
        if self.compiler.function.function.chunk.constants.values.len() < usize::MAX {
            self.emit_constant(value);
        } else {
            self.error("Too many constants in one chunk.");
        }
    }

    /// A string literal: its text without the quotes is a constant of type `str`.
    pub fn strings(&mut self)
        ensures
            code_kept_from(old(self).chunk().code@, final(self).chunk().code@, 0),
            old(self).chunk().code@.len() <= final(self).chunk().code@.len(),
            ({
                let raw = old(self).previous.start@;
                let text = if raw.len() >= 2 {
                    raw.subrange(1, raw.len() - 1)
                } else {
                    Seq::empty()
                };
                &&& final(self).type_tag@ == old(self).type_tag@.push(TypeTag::Str)
                &&& old(self).chunk().constants.values@.len() < usize::MAX ==> (final(self).chunk().constants.values@.last() matches Value::Str(s) && s@ == text)
            }),
            final(self).with_chunk(old(self).chunk()).with_type_tags_of(old(self)).same_but_errors(
                old(self),
            ),
    {
        let raw = chars_of(self.previous.start.as_str());
        let text = if raw.len() >= 2 {
            string_of(&raw, 1, raw.len() - 1)
        } else {
            String::new()
        };
        self.constant(Value::Str(text));
        self.type_tag.push(TypeTag::Str);
    }

    /// A number literal: the constant `number_constant` gives for its text is
    /// emitted with `Constant`, and its type pushed.
    pub fn number(&mut self)
        ensures
            code_kept_from(old(self).chunk().code@, final(self).chunk().code@, 0),
            final(self).at_same(*old(self)),
            old(self).chunk().constants.values@.len() < usize::MAX ==> final(self).same_errors(
                old(self),
            ),
            old(self).chunk().code@.len() <= final(self).chunk().code@.len(),
            ({
                let (v, t) = number_constant(
                    old(self).previous.start@,
                    old(self).expected_type,
                    old(self).float_bits@,
                );
                &&& final(self).type_tag@ == old(self).type_tag@.push(t)
                &&& old(self).chunk().constants.values@.len() < usize::MAX ==> {
                    &&& final(self).chunk().constants.values@
                        == old(self).chunk().constants.values@.push(v)
                    &&& final(self).chunk().code@ == old(self).chunk().code@.push(
                        spec_op_byte(OpCode::Constant),
                    ).push(old(self).chunk().constants.values@.len() as u8)
                    &&& final(self).with_type_tags_of(old(self)).same_but_chunk(old(self))
                }
            }),
            final(self).with_chunk(old(self).chunk()).with_type_tags_of(old(self)).same_but_errors(
                old(self),
            ),
    {
        let text = self.previous.start.clone();
        if contains_char(text.as_str(), '.') {
            let bits = match self.float_bits.get(text.as_str()) {
                Some(b) => *b,
                None => 0,
            };
            self.constant(Value::Float(bits));
            self.type_tag.push(TypeTag::Float);
        } else if match &self.expected_type {
            Some(TypeTag::Unt) => true,
            _ => false,
        } {
            let v = match parse_u64(text.as_str()) {
                Some(v) => v,
                None => 0,
            };
            self.constant(Value::Unt(v));
            self.type_tag.push(TypeTag::Unt);
        } else {
            match parse_i64(text.as_str()) {
                Some(v) => {
                    self.constant(Value::Int(v));
                    self.type_tag.push(TypeTag::Int);
                },
                None => {
                    let v = match parse_u64(text.as_str()) {
                        Some(v) => v,
                        None => 0,
                    };
                    self.constant(Value::Unt(v));
                    self.type_tag.push(TypeTag::Unt);
                },
            }
        }
    }

    /// `true`, `false`, `void` and `None`: the instruction that pushes the value,
    /// and its type.
    pub fn literal(&mut self)
        ensures
            code_kept_from(old(self).chunk().code@, final(self).chunk().code@, 0),
            old(self).chunk().code@.len() <= final(self).chunk().code@.len(),
            ({
                let tt = old(self).previous.token_type;
                let (op, t) = if tt == TokenType::True {
                    (Option::Some(OpCode::True), TypeTag::Bool)
                } else if tt == TokenType::False {
                    (Option::Some(OpCode::False), TypeTag::Bool)
                } else if tt == TokenType::Void {
                    (Option::Some(OpCode::Void), TypeTag::Void)
                } else if tt == TokenType::OptNone {
                    (
                        Option::Some(OpCode::OptNone),
                        TypeTag::Opt(std::sync::Arc::new(TypeTag::NoneType)),
                    )
                } else {
                    (Option::None, TypeTag::Void)
                };
                match op {
                    Option::Some(o) => final(self).chunk().code@ == old(self).chunk().code@.push(
                        spec_op_byte(o),
                    ) && final(self).type_tag@ == old(self).type_tag@.push(t),
                    Option::None => *final(self) == *old(self),
                }
            }),
            final(self).with_chunk(old(self).chunk()).with_type_tags_of(old(self)) == *old(self),
    {
        match self.previous.token_type {
            TokenType::True => {
                self.emit_byte(OpCode::True.to_byte());
                self.type_tag.push(TypeTag::Bool);
            },
            TokenType::False => {
                self.emit_byte(OpCode::False.to_byte());
                self.type_tag.push(TypeTag::Bool);
            },
            TokenType::Void => {
                self.emit_byte(OpCode::Void.to_byte());
                self.type_tag.push(TypeTag::Void);
            },
            TokenType::OptNone => {
                self.emit_byte(OpCode::OptNone.to_byte());
                self.type_tag.push(TypeTag::Opt(std::sync::Arc::new(TypeTag::NoneType)));
            },
            _ => {},
        }
    }

    /// Compiles an expression whose operators bind at least as strongly as
    /// `precedence`: reads its first token and applies that token's prefix rule
    /// ("Expect expression." when it has none), then applies the infix rules of
    /// the operators that follow while they bind strongly enough. An `=` after a
    /// target that cannot be assigned is reported.
    pub fn parse_precedence(&mut self, precedence: Precedence, scanner: &mut Scanner)
        requires
            old(scanner).wf(),
            scan_safe(old(scanner)@),
            old(self).wf(),
            spec_level(precedence) >= 1,
        ensures
            expr_kept(*final(self), *final(scanner), *old(self), old(scanner)@),
            old(self).current.token_type != TokenType::Eof ==> cursor_measure(
                final(self).at(final(scanner)@),
            ) < cursor_measure(old(self).at(old(scanner)@)),
            ({
                let (c1, reps) = cursor_advance(old(self).at(old(scanner)@));
                let t = old(self).current@;
                &&& spec_prefix_rule(t.token_type) is None ==> {
                    &&& final(self).at(final(scanner)@) == c1
                    &&& final(self).reports_made(
                        old(self),
                        reps + seq![Report { token: c1.previous, message: "Expect expression."@ }],
                    )
                    &&& final(self).type_tag == old(self).type_tag
                    &&& final(self).chunk() == old(self).chunk()
                }
                &&& t.token_type == TokenType::Number && !(spec_level(precedence) <= 1
                    && c1.current.token_type == TokenType::Equal) && spec_level(precedence)
                    > spec_level(spec_infix_rule(c1.current.token_type).1) ==> {
                    &&& final(self).at(final(scanner)@) == c1
                    &&& old(self).chunk().constants.values@.len() < usize::MAX
                        ==> final(self).reports_made(old(self), reps)
                    &&& number_compiled(
                        *final(self),
                        Parser { previous: old(self).current, ..*old(self) },
                    )
                }
            }),
        decreases cursor_measure(old(self).at(old(scanner)@)), 1nat,
    {
        proof {
            scanner.lemma_wf();
            lemma_skip_errors_safe(scanner@);
        }
        self.advance(scanner);
        let ghost mid = *self;
        let ghost reps = cursor_advance(old(self).at(old(scanner)@)).1;
        proof {
            lemma_advanced_cursor(*old(self), mid, old(scanner)@, scanner@);
        }
        let ghost m1 = cursor_measure(self.at(scanner@));
        let can_assign = level(precedence) <= 1;
        match prefix_rule(self.previous.token_type) {
            None => {
                self.error("Expect expression.");
                proof {
                    let m = "Expect expression."@;
                    lemma_reported_is_report(mid, *self, mid.previous@, m);
                    lemma_reports_compose(mid, *self, old(self).painc_mode, old(self).had_err, old(self).diagnostics@, reps, seq![Report { token: mid.previous@, message: m }]);
                }
                return;
            },
            Some(rule) => {
                proof {
                    scanner.lemma_wf();
                }
                self.apply_prefix(rule, scanner, can_assign);
            },
        }
        if can_assign && self.match_consume(&TokenType::Equal, scanner) {
            self.error("Invalid assignment target.");
        }
        let ghost entry = *self;
        let ghost entry_st = scanner@;
        let ghost mut moved = false;
        while level(precedence) <= level(infix_rule(self.current.token_type).1)
            invariant
                !moved ==> *self == entry && scanner@ == entry_st,
                moved ==> spec_level(precedence) <= spec_level(
                    spec_infix_rule(entry.current.token_type).1,
                ),
                scanner.wf(),
                scan_safe(scanner@),
                self.wf(),
                spec_level(precedence) >= 1,
                self.compiler.scope_depth == old(self).compiler.scope_depth,
                self.compiler_stack@ == old(self).compiler_stack@,
                self.compiler.function.function.name == old(self).compiler.function.function.name,
                self.compiler.function.function.arity == old(self).compiler.function.function.arity,
                self.function_info.parameters_type_tag_table
                    == old(self).function_info.parameters_type_tag_table,
                old(self).chunk().code@.len() <= self.chunk().code@.len(),
                code_kept_from(old(self).chunk().code@, self.chunk().code@, 257),
                self.compiler.locals == old(self).compiler.locals,
                cursor_measure(self.at(scanner@)) <= m1,
                m1 <= cursor_measure(old(self).at(old(scanner)@)),
                old(self).current.token_type != TokenType::Eof ==> m1 < cursor_measure(
                    old(self).at(old(scanner)@),
                ),
            decreases cursor_measure(self.at(scanner@)),
        {
            proof {
                moved = true;
            }
            let ghost before = cursor_measure(self.at(scanner@));
            assert(self.current.token_type != TokenType::Eof);
            self.prevprev = self.previous.clone();
            proof {
                scanner.lemma_wf();
                lemma_skip_errors_safe(scanner@);
            }
            self.advance(scanner);
            assert(cursor_measure(self.at(scanner@)) < before);
            match infix_rule(self.previous.token_type).0 {
                Some(rule) => {
                    proof {
                        scanner.lemma_wf();
                    }
                    self.apply_infix(rule, scanner);
                },
                None => {},
            }
            proof {
                scanner.lemma_wf();
            }
        }
    }

    /// Applies the prefix rule `rule` to the token just read.
    fn apply_prefix(&mut self, rule: PrefixRule, scanner: &mut Scanner, can_assign: bool)
        requires
            old(scanner).wf(),
            scan_safe(old(scanner)@),
            old(self).wf(),
            spec_prefix_rule(old(self).previous.token_type) == Some(rule),
        ensures
            expr_kept(*final(self), *final(scanner), *old(self), old(scanner)@),
            rule == PrefixRule::Number ==> number_compiled(*final(self), *old(self))
                && final(scanner)@ == old(scanner)@ && final(self).at_same(*old(self)) && (old(
                self,
            ).chunk().constants.values@.len() < usize::MAX ==> final(self).same_errors(old(self))),
        decreases cursor_measure(old(self).at(old(scanner)@)), 5nat,
    {
        match rule {
            PrefixRule::Grouping => self.grouping(scanner),
            PrefixRule::Unary => self.unary(scanner),
            PrefixRule::Variable => self.variable(scanner, can_assign),
            PrefixRule::Strings => self.strings(),
            PrefixRule::Number => self.number(),
            PrefixRule::Literal => self.literal(),
        }
    }

    /// Applies the infix rule `rule` to the operator just read.
    fn apply_infix(&mut self, rule: InfixRule, scanner: &mut Scanner)
        requires
            old(scanner).wf(),
            scan_safe(old(scanner)@),
            old(self).wf(),
            spec_infix_rule(old(self).previous.token_type).0 == Some(rule),
        ensures
            expr_kept(*final(self), *final(scanner), *old(self), old(scanner)@),
        decreases cursor_measure(old(self).at(old(scanner)@)), 5nat,
    {
        match rule {
            InfixRule::Binary => self.binary(scanner),
            InfixRule::Call => {
                if self.function_info.parameters_type_tag_table.contains_key(&self.prevprev.start) {
                    self.call(scanner);
                } else {
                    self.error("Expected function found nothing.");
                }
            },
            InfixRule::Methode => self.methode(scanner),
            InfixRule::Or => self.or_expr(scanner),
            InfixRule::And => self.and_expr(scanner),
            InfixRule::IndexArray => self.index_array(scanner),
        }
    }

    /// Compiles an expression (see `parse_precedence`, at `Assignment`).
    pub fn expression(&mut self, scanner: &mut Scanner)
        requires
            old(scanner).wf(),
            scan_safe(old(scanner)@),
            old(self).wf(),
        ensures
            expr_kept(*final(self), *final(scanner), *old(self), old(scanner)@),
            old(self).current.token_type != TokenType::Eof ==> cursor_measure(
                final(self).at(final(scanner)@),
            ) < cursor_measure(old(self).at(old(scanner)@)),
            ({
                let (c1, reps) = cursor_advance(old(self).at(old(scanner)@));
                let t = old(self).current@;
                &&& spec_prefix_rule(t.token_type) is None ==> {
                    &&& final(self).at(final(scanner)@) == c1
                    &&& final(self).reports_made(
                        old(self),
                        reps + seq![Report { token: c1.previous, message: "Expect expression."@ }],
                    )
                    &&& final(self).type_tag == old(self).type_tag
                    &&& final(self).chunk() == old(self).chunk()
                }
                &&& t.token_type == TokenType::Number && !(spec_level(Precedence::Assignment) <= 1
                    && c1.current.token_type == TokenType::Equal) && spec_level(Precedence::Assignment)
                    > spec_level(spec_infix_rule(c1.current.token_type).1) ==> {
                    &&& final(self).at(final(scanner)@) == c1
                    &&& old(self).chunk().constants.values@.len() < usize::MAX
                        ==> final(self).reports_made(old(self), reps)
                    &&& number_compiled(
                        *final(self),
                        Parser { previous: old(self).current, ..*old(self) },
                    )
                }
            }),
        decreases cursor_measure(old(self).at(old(scanner)@)), 2nat,
    {
        self.parse_precedence(Precedence::Assignment, scanner);
    }

    /// `( expression )`.
    pub fn grouping(&mut self, scanner: &mut Scanner)
        requires
            old(scanner).wf(),
            scan_safe(old(scanner)@),
            old(self).wf(),
        ensures
            expr_kept(*final(self), *final(scanner), *old(self), old(scanner)@),
            final(self).previous.token_type == TokenType::RigtParen || final(self).painc_mode,
            old(self).current.token_type != TokenType::Eof ==> cursor_measure(
                final(self).at(final(scanner)@),
            ) < cursor_measure(old(self).at(old(scanner)@)),
            ({
                let (c1, reps) = cursor_advance(old(self).at(old(scanner)@));
                let (c2, reps2) = cursor_advance(c1);
                old(self).current.token_type == TokenType::Number && c1.current.token_type
                    == TokenType::RigtParen ==> {
                    &&& number_compiled(
                        *final(self),
                        Parser { previous: old(self).current, ..*old(self) },
                    )
                    &&& final(self).at(final(scanner)@) == c2
                    &&& old(self).chunk().constants.values@.len() < usize::MAX
                        ==> final(self).reports_made(old(self), reps + reps2)
                }
            }),
        decreases cursor_measure(old(self).at(old(scanner)@)), 3nat,
    {
        let ghost reps = cursor_advance(old(self).at(old(scanner)@)).1;
        self.expression(scanner);
        let ghost mid = *self;
        let ghost mid_st = scanner@;
        self.consume(TokenType::RigtParen, "Expect ')' after expression.", scanner);
        proof {
            if old(self).current.token_type == TokenType::Number && cursor_advance(
                old(self).at(old(scanner)@),
            ).0.current.token_type == TokenType::RigtParen && old(
                self,
            ).chunk().constants.values@.len() < usize::MAX {
                lemma_advanced_cursor(mid, *self, mid_st, scanner@);
                crate::compiler::parser::lemma_reports_compose(
                    mid,
                    *self,
                    old(self).painc_mode,
                    old(self).had_err,
                    old(self).diagnostics@,
                    reps,
                    cursor_advance(mid.at(mid_st)).1,
                );
            }
        }
    }

    /// `-` or `!` and its operand (see `unary_types`).
    pub fn unary(&mut self, scanner: &mut Scanner)
        requires
            old(scanner).wf(),
            scan_safe(old(scanner)@),
            old(self).wf(),
        ensures
            expr_kept(*final(self), *final(scanner), *old(self), old(scanner)@),
            ({
                let c1 = cursor_advance(old(self).at(old(scanner)@)).0;
                let t = number_constant(
                    old(self).current.start@,
                    old(self).expected_type,
                    old(self).float_bits@,
                ).1;
                (old(self).previous.token_type == TokenType::Minus || old(
                    self,
                ).previous.token_type == TokenType::Bang) && old(self).current.token_type
                    == TokenType::Number && spec_level(Precedence::Unary) > spec_level(
                    spec_infix_rule(c1.current.token_type).1,
                ) ==> {
                    &&& final(self).type_tag@ == if t is Int || t is Float || t is Bool {
                        old(self).type_tag@.push(t)
                    } else {
                        old(self).type_tag@
                    }
                    &&& final(self).chunk().code@.len() >= 1
                    &&& final(self).chunk().code@.last() == spec_op_byte(
                        if old(self).previous.token_type == TokenType::Minus {
                            OpCode::Negate
                        } else {
                            OpCode::Not
                        },
                    )
                }
            }),
        decreases cursor_measure(old(self).at(old(scanner)@)), 3nat,
    {
        let operator_type = self.previous.token_type;
        self.parse_precedence(Precedence::Unary, scanner);
        self.unary_types(operator_type);
    }

    /// The right operand of the binary operator just read, at the operator's
    /// precedence, then the operator's type rule and instruction (see
    /// `binary_types`).
    pub fn binary(&mut self, scanner: &mut Scanner)
        requires
            old(scanner).wf(),
            scan_safe(old(scanner)@),
            old(self).wf(),
            spec_infix_rule(old(self).previous.token_type).0 == Some(InfixRule::Binary),
        ensures
            expr_kept(*final(self), *final(scanner), *old(self), old(scanner)@),
            final(self).chunk().code@.len() >= 1,
            final(self).chunk().code@.last() == spec_op_byte(
                binary_opcode(old(self).previous.token_type)->0,
            ),
            old(self).current.token_type != TokenType::Eof ==> cursor_measure(
                final(self).at(final(scanner)@),
            ) < cursor_measure(old(self).at(old(scanner)@)),
            exists|t1: TypeTag, t2: TypeTag|
                #![trigger binary_result(old(self).previous.token_type, t1, t2)]
                match binary_result(old(self).previous.token_type, t1, t2) {
                    Option::Some(t) => final(self).type_tag@.len() >= 1
                        && final(self).type_tag@.last() == t,
                    Option::None => final(self).painc_mode,
                },
            ({
                let c1 = cursor_advance(old(self).at(old(scanner)@)).0;
                let op = old(self).previous.token_type;
                let prec = spec_infix_rule(op).1;
                let t2 = number_constant(
                    old(self).current.start@,
                    old(self).expected_type,
                    old(self).float_bits@,
                ).1;
                let t1 = top_tag(old(self).type_tag@);
                let rest = below_top(old(self).type_tag@);
                old(self).current.token_type == TokenType::Number && !(spec_level(prec) <= 1
                    && c1.current.token_type == TokenType::Equal) && spec_level(prec) > spec_level(
                    spec_infix_rule(c1.current.token_type).1,
                ) ==> final(self).type_tag@ == match binary_result(op, t1, t2) {
                    Option::Some(t) => rest.push(t),
                    Option::None => rest,
                }
            }),
        decreases cursor_measure(old(self).at(old(scanner)@)), 3nat,
    {
        let operator_type = self.previous.token_type;
        let rule = infix_rule(operator_type);
        self.parse_precedence(rule.1, scanner);
        let ghost mid = *self;
        self.binary_types(operator_type);
        proof {
            let t2 = top_tag(mid.type_tag@);
            let t1 = top_tag(below_top(mid.type_tag@));
            assert(match binary_result(operator_type, t1, t2) {
                Option::Some(t) => self.type_tag@.len() >= 1 && self.type_tag@.last() == t,
                Option::None => self.painc_mode,
            });
        }
    }

    /// A variable read or assigned (see `named_variable`), named by the token
    /// just read.
    pub fn variable(&mut self, scanner: &mut Scanner, can_assign: bool)
        requires
            old(scanner).wf(),
            scan_safe(old(scanner)@),
            old(self).wf(),
        ensures
            expr_kept(*final(self), *final(scanner), *old(self), old(scanner)@),
        decreases cursor_measure(old(self).at(old(scanner)@)), 4nat,
    {
        let token = self.previous.clone();
        self.named_variable(&token, scanner, can_assign);
    }

    /// A variable named `name`: a named constant loads its value; a local is read
    /// (`GetLocal`) or, when it is mutable, may be assigned and followed by `=`,
    /// assigned (`SetLocal`, the value's type checked against the local's); any
    /// other name is read as a global (`GetGlobal`).
    pub fn named_variable(&mut self, name: &Token, scanner: &mut Scanner, can_assign: bool)
        requires
            old(scanner).wf(),
            scan_safe(old(scanner)@),
            old(self).wf(),
        ensures
            expr_kept(*final(self), *final(scanner), *old(self), old(scanner)@),
            ({
                let key = name.start@;
                let code = old(self).chunk().code@;
                let consts = old(self).chunk().constants.values@;
                let j = find_local(old(self).compiler.locals@, name@, 0);
                let local = old(self).compiler.locals@[j];
                if old(self).const_table@.contains_key(key) {
                    let (v, t) = old(self).const_table@[key];
                    &&& final(self).type_tag@ == old(self).type_tag@.push(t)
                    &&& consts.len() < usize::MAX ==> {
                        &&& final(self).chunk().code@ == code.push(spec_op_byte(OpCode::Constant)).push(
                            consts.len() as u8,
                        )
                        &&& final(self).chunk().constants.values@.len() == consts.len() + 1
                        &&& same_value(final(self).chunk().constants.values@.last(), v)
                    }
                } else if j == -1 {
                    &&& final(self).type_tag == old(self).type_tag
                    &&& consts.len() < usize::MAX ==> {
                        &&& final(self).chunk().code@ == code.push(spec_op_byte(OpCode::GetGlobal)).push(
                            consts.len() as u8,
                        )
                        &&& final(self).chunk().constants.values@.last() matches Value::Str(text)
                            && text@ == key
                    }
                } else if can_assign && local.is_mut && old(self).current.token_type
                    == TokenType::Equal {
                    &&& final(self).chunk().code@.len() >= 2
                    &&& final(self).chunk().code@.last() == j as u8
                    &&& final(self).chunk().code@[final(self).chunk().code@.len() - 2]
                        == spec_op_byte(OpCode::SetLocal)
                } else {
                    &&& final(self).type_tag@ == old(self).type_tag@.push(local.type_tag)
                    &&& final(self).chunk().code@ == code.push(spec_op_byte(OpCode::GetLocal)).push(
                        j as u8,
                    )
                    &&& final(self).info.last_local_slot == Some(j as u8)
                }
            }),
        decreases cursor_measure(old(self).at(old(scanner)@)), 3nat,
    {
        let constant = match self.const_table.get(name.start.as_str()) {
            Some(entry) => Some((entry.0.clone(), entry.1.clone())),
            None => None,
        };
        if let Some((value, type_tag)) = constant {
            self.constant(value);
            self.type_tag.push(type_tag);
            return ;
        }
        let resolved = self.resolve_local(name);
        let (arg, is_mut, type_tag) = match resolved {
            Some(r) => r,
            None => {
                let slot = if self.compiler.function.function.chunk.constants.values.len()
                    < usize::MAX {
                    self.identifier_constant(name)
                } else {
                    self.error("Too many constants in one chunk.");
                    0
                };
                self.emit_bytes(OpCode::GetGlobal.to_byte(), slot);
                return ;
            },
        };
        self.info.is_mut.push(is_mut);
        if can_assign && is_mut && self.match_consume(&TokenType::Equal, scanner) {
            proof {
                scanner.lemma_wf();
            }
            self.expression(scanner);
            let rhs_typetag = match self.type_tag.pop() {
                Some(t) => t,
                None => TypeTag::Void,
            };
            if rhs_typetag != type_tag {
                let expected = type_tag.to_string();
                let found = rhs_typetag.to_string();
                let head = join3("Mismatched types, expected [", expected.as_str(), "] found [");
                let message = join3(head.as_str(), found.as_str(), "]");
                self.error(message.as_str());
            }
            self.emit_bytes(OpCode::SetLocal.to_byte(), arg);
        } else {
            self.type_tag.push(type_tag);
            self.info.last_local_slot = Some(arg);
            self.emit_bytes(OpCode::GetLocal.to_byte(), arg);
        }
    }
}

} // verus!
