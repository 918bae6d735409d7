//! Calls: the arguments checked against the callee's parameter types, and the
//! type of the value the call gives.
use vstd::prelude::*;

use crate::chunk::{spec_op_byte, OpCode};
use crate::compiler::expr::expr_kept;
use crate::compiler::parser::{cursor_consume, cursor_measure, lemma_skip_errors_safe, Parser};
use crate::compiler::type_safety::{spec_tag_name, TypeTag};
use crate::scanner::{scan_safe, Scanner, TokenType};
use crate::text::{chars_of, join3};
use crate::vm::{trim_str, trimmed};

use std::sync::Arc;

verus! {

/// Whether a signature was read for the function named by `prevprev`, the token
/// before the `(` of a call.
pub open spec fn callee_known(p: Parser) -> bool {
    p.function_info.parameters_type_tag_table@.contains_key(p.prevprev.start@)
}

/// The message for an argument of type `found` where a parameter of type
/// `expected` is declared.
pub open spec fn argument_mismatch(expected: TypeTag, found: TypeTag) -> Seq<char> {
    "Mismatched types expected ["@ + spec_tag_name(expected) + "] found ["@ + spec_tag_name(found)
        + "]"@
}

fn argument_mismatch_message(expected: &TypeTag, found: &TypeTag) -> (r: String)
    ensures
        r@ == argument_mismatch(*expected, *found),
{
    let e = expected.to_string();
    let f = found.to_string();
    let head = join3("Mismatched types expected [", e.as_str(), "] found [");
    join3(head.as_str(), f.as_str(), "]")
}

/// A copy of the parameter types `v`.
fn copy_tags(v: &Vec<TypeTag>) -> (r: Vec<TypeTag>)
    ensures
        r@ == v@,
{
    let mut r: Vec<TypeTag> = Vec::new();
    let mut i: usize = 0;
    while i < v.len()
        invariant
            i <= v.len(),
            r@ == v@.take(i as int),
        decreases v.len() - i,
    {
        r.push(v[i].clone());
        i = i + 1;
        assert(r@ =~= v@.take(i as int));
    }
    assert(r@ =~= v@);
    r
}

/// Whether the text `s` is `lit`.
fn text_is(s: &str, lit: &str) -> (r: bool)
    ensures
        r == (s@ == lit@),
{
    let a = chars_of(s);
    let b = chars_of(lit);
    if a.len() != b.len() {
        return false;
    }
    let mut i: usize = 0;
    while i < a.len()
        invariant
            i <= a.len(),
            a.len() == b.len(),
            a@ == s@,
            b@ == lit@,
            a@.take(i as int) == b@.take(i as int),
        decreases a.len() - i,
    {
        if a[i] != b[i] {
            assert(a@[i as int] != b@[i as int]);
            return false;
        }
        assert(a@.take(i + 1) =~= a@.take(i as int).push(a@[i as int]));
        assert(b@.take(i + 1) =~= b@.take(i as int).push(b@[i as int]));
        i = i + 1;
    }
    assert(a@ =~= a@.take(a@.len() as int));
    assert(b@ =~= b@.take(b@.len() as int));
    true
}

/// The message for pushing a value of type `found` on a receiver of type
/// `receiver`.
pub open spec fn push_mismatch(receiver: TypeTag, found: TypeTag) -> Seq<char> {
    "Mismatched types array for type ["@ + spec_tag_name(receiver) + "] found ["@ + spec_tag_name(
        found,
    ) + "]"@
}

/// Whether `push` refuses a value of type `value` on a receiver of type
/// `receiver`: unless the receiver is an array whose element type differs from
/// the value's type.
pub open spec fn push_refused(receiver: TypeTag, value: TypeTag) -> bool {
    match receiver {
        TypeTag::Array(x) => value == *x,
        _ => true,
    }
}

/// The instruction of the built-in method named `name`, if there is one.
pub open spec fn method_opcode(name: Seq<char>) -> Option<OpCode> {
    if name == "trim"@ {
        Option::Some(OpCode::Trim)
    } else if name == "is_empty"@ {
        Option::Some(OpCode::IsEmpty)
    } else if name == "rev"@ {
        Option::Some(OpCode::Reverse)
    } else if name == "sqrt"@ {
        Option::Some(OpCode::SquareRoot)
    } else if name == "round"@ {
        Option::Some(OpCode::Round)
    } else if name == "celi"@ {
        Option::Some(OpCode::Ceil)
    } else if name == "floor"@ {
        Option::Some(OpCode::Floor)
    } else if name == "abs"@ {
        Option::Some(OpCode::Abs)
    } else if name == "push"@ {
        Option::Some(OpCode::Push)
    } else if name == "pop"@ {
        Option::Some(OpCode::PopArray)
    } else if name == "len"@ {
        Option::Some(OpCode::Len)
    } else if name == "grab"@ {
        Option::Some(OpCode::Grab)
    } else {
        Option::None
    }
}

impl Parser {
    /// A method call, its `.` just read: outside a function body it is refused;
    /// else `name(`, the method's rule (`trim`, `is_empty`, `rev`, `sqrt`,
    /// `round`, `celi`, `floor`, `abs`, `push`, `pop`, `len`, `grab`; another name
    /// is reported), then `)`.
    pub fn methode(&mut self, scanner: &mut Scanner)
        requires
            old(scanner).wf(),
            scan_safe(old(scanner)@),
            old(self).wf(),
        ensures
            expr_kept(*final(self), *final(scanner), *old(self), old(scanner)@),
            old(self).compiler.scope_depth == 0 ==> {
                &&& final(self).same_but_errors(old(self))
                &&& final(self).reported(
                    old(self),
                    old(self).previous@,
                    "Statement must be insaid a fn body"@,
                )
                &&& final(scanner)@ == old(scanner)@
            },
            old(self).compiler.scope_depth != 0 ==> {
                let name = cursor_consume(
                    old(self).at(old(scanner)@),
                    TokenType::Identifier,
                    "expected methode name"@,
                ).0.previous.text;
                exists|t: Seq<char>|
                    #![trigger trimmed(name, t)]
                    trimmed(name, t) && match method_opcode(t) {
                        Option::Some(op) => (old(self).type_tag@.len() > 0 || (op != OpCode::Len
                            && op != OpCode::Grab)) ==> final(self).chunk().code@.len() >= 1
                            && final(self).chunk().code@.last() == spec_op_byte(op),
                        Option::None => final(self).painc_mode,
                    }
            },
        decreases cursor_measure(old(self).at(old(scanner)@)), 4nat,
    {
        if self.compiler.scope_depth == 0 {
            self.error("Statement must be insaid a fn body");
            return;
        }
        self.consume(TokenType::Identifier, "expected methode name", scanner);
        let methode_name = self.previous.start.clone();
        assert(methode_name@ == cursor_consume(
            old(self).at(old(scanner)@),
            TokenType::Identifier,
            "expected methode name"@,
        ).0.previous.text);
        proof {
            scanner.lemma_wf();
        }
        self.consume(TokenType::LeftParen, "Expect '(' before value.", scanner);
        proof {
            scanner.lemma_wf();
        }
        let name = trim_str(methode_name.as_str());
        let ghost stack = self.type_tag@;
        if text_is(name, "trim") {
            self.trim_methode();
        } else if text_is(name, "is_empty") {
            self.isempty_methode();
        } else if text_is(name, "rev") {
            self.rev_methode();
        } else if text_is(name, "sqrt") {
            self.sqrt_methode();
        } else if text_is(name, "round") {
            self.round_methode();
        } else if text_is(name, "celi") {
            self.celi_methode();
        } else if text_is(name, "floor") {
            self.floor_methode();
        } else if text_is(name, "abs") {
            self.abs_methode();
        } else if text_is(name, "push") {
            self.push_methode(scanner);
        } else if text_is(name, "pop") {
            self.pop_methode();
        } else if text_is(name, "len") {
            if self.type_tag.len() > 0 {
                self.len_methode();
            } else {
                self.error("TypeTag stack underflow — compiler emitted unbalanced typetags");
            }
        } else if text_is(name, "grab") {
            if self.type_tag.len() > 0 {
                self.grab_methode();
            } else {
                self.error("TypeTag stack underflow — compiler emitted unbalanced typetags");
            }
        } else {
            let message = join3("The methode [", methode_name.as_str(), "] doesn't exsist.");
            self.error(message.as_str());
        }
        proof {
            scanner.lemma_wf();
        }
        let ghost code = self.chunk().code@;
        let ghost painc = self.painc_mode;
        self.consume(TokenType::RigtParen, "Expect ')' after value.", scanner);
        assert(trimmed(methode_name@, name@) && match method_opcode(name@) {
            Option::Some(op) => (stack.len() > 0 || (op != OpCode::Len && op != OpCode::Grab))
                ==> code.len() >= 1 && code.last() == spec_op_byte(op),
            Option::None => painc,
        });
    }

    /// `push(value)`, its `(` just read: the receiver must be mutable; the value
    /// is compiled, and its type checked against the receiver's (a missing
    /// receiver counts as an array of `void`, a missing value as `void`): the push
    /// is reported where `push_refused` holds. Emits `Push`.
    pub fn push_methode(&mut self, scanner: &mut Scanner)
        requires
            old(scanner).wf(),
            scan_safe(old(scanner)@),
            old(self).wf(),
        ensures
            expr_kept(*final(self), *final(scanner), *old(self), old(scanner)@),
            final(self).chunk().code@.len() >= 1,
            final(self).chunk().code@.last() == spec_op_byte(OpCode::Push),
        decreases cursor_measure(old(self).at(old(scanner)@)), 3nat,
    {
        if !self.pop_is_mut() {
            self.error("Value must be mutated in order to use push() on it!");
        }
        let array_type = match self.type_tag.pop() {
            Some(t) => t,
            None => TypeTag::Array(Arc::new(TypeTag::Void)),
        };
        self.expression(scanner);
        let values_typetag = match self.type_tag.pop() {
            Some(t) => t,
            None => TypeTag::Void,
        };
        let refused = match &array_type {
            TypeTag::Array(x) => values_typetag == **x,
            _ => true,
        };
        if refused {
            let a = array_type.to_string();
            let v = values_typetag.to_string();
            let head = join3("Mismatched types array for type [", a.as_str(), "] found [");
            let message = join3(head.as_str(), v.as_str(), "]");
            self.error(message.as_str());
        }
        self.emit_byte(OpCode::Push.to_byte());
    }

    /// A call, its `(` just read: the arguments (see `argument_list`), then
    /// `Call` with the argument count (its low byte) and the byte of the
    /// turbofish type, `0` when there is none.
    pub fn call(&mut self, scanner: &mut Scanner)
        requires
            old(scanner).wf(),
            scan_safe(old(scanner)@),
            old(self).wf(),
            callee_known(*old(self)),
        ensures
            expr_kept(*final(self), *final(scanner), *old(self), old(scanner)@),
            final(self).chunk().code@.len() >= 3,
            final(self).chunk().code@[final(self).chunk().code@.len() - 3] == spec_op_byte(
                OpCode::Call,
            ),
        decreases cursor_measure(old(self).at(old(scanner)@)), 4nat,
    {
        let (arg_count, turbofish, generic) = self.argument_list(scanner);
        self.emit_bytes(OpCode::Call.to_byte(), (arg_count % 256) as u8);
        if turbofish {
            self.emit_byte(generic.as_bytes());
        } else {
            self.emit_byte(0);
        }
    }

    /// The arguments of a call up to `)`, each checked against the callee's
    /// parameter type at its position ("Mismatched types ..." when they differ; an
    /// argument past the parameters is reported too), then an optional turbofish
    /// `::[type]`, which records the callee's return type. The return type
    /// recorded for the function named by `prevprev` at the end is pushed on the
    /// type stack; when there is none, that is reported and `(0, false, void)`
    /// returned. Otherwise the argument count, whether a turbofish was read, and
    /// its type (`void` without one).
    pub fn argument_list(&mut self, scanner: &mut Scanner) -> (r: (usize, bool, TypeTag))
        requires
            old(scanner).wf(),
            scan_safe(old(scanner)@),
            old(self).wf(),
            callee_known(*old(self)),
        ensures
            expr_kept(*final(self), *final(scanner), *old(self), old(scanner)@),
            ({
                let rets = final(self).function_info.return_type_tag_table@;
                let name = final(self).prevprev.start@;
                if rets.contains_key(name) {
                    &&& final(self).type_tag@.len() >= 1
                    &&& final(self).type_tag@.last() == rets[name]
                } else {
                    r == (0usize, false, TypeTag::Void)
                }
            }),
            !r.1 ==> r.2 == TypeTag::Void,
            r.1 ==> final(self).function_info.return_type_tag_table@.get(old(self).prevprev.start@)
                == Some(r.2),
            old(self).current.token_type != TokenType::Eof ==> cursor_measure(
                final(self).at(final(scanner)@),
            ) < cursor_measure(old(self).at(old(scanner)@)),
            old(self).current.token_type == TokenType::RigtParen ==> r.0 == 0,
        decreases cursor_measure(old(self).at(old(scanner)@)), 3nat,
    {
        let mut arg_count: usize = 0;
        let mut turbofish = false;
        let functions_name = self.prevprev.start.clone();
        let params = match self.function_info.parameters_type_tag_table.get(&functions_name) {
            Some(v) => copy_tags(v),
            None => Vec::new(),
        };
        loop
            invariant
                expr_kept(*self, *scanner, *old(self), old(scanner)@),
                !turbofish,
                old(self).current.token_type != TokenType::Eof ==> (self.at(scanner@) == old(
                    self,
                ).at(old(scanner)@) || cursor_measure(self.at(scanner@)) < cursor_measure(
                    old(self).at(old(scanner)@),
                )),
                self.at(scanner@) == old(self).at(old(scanner)@) && old(self).current.token_type
                    != TokenType::Eof ==> arg_count == 0,
                old(self).current.token_type == TokenType::RigtParen ==> self.at(scanner@) == old(
                    self,
                ).at(old(scanner)@),
            ensures
                old(self).current.token_type != TokenType::Eof ==> (self.at(scanner@) == old(
                    self,
                ).at(old(scanner)@) || cursor_measure(self.at(scanner@)) < cursor_measure(
                    old(self).at(old(scanner)@),
                )),
                old(self).current.token_type == TokenType::RigtParen ==> arg_count == 0,
                old(self).current.token_type == TokenType::RigtParen ==> self.at(scanner@) == old(
                    self,
                ).at(old(scanner)@),
                old(self).current.token_type != TokenType::RigtParen
                    && old(self).current.token_type != TokenType::Eof ==> cursor_measure(
                    self.at(scanner@),
                ) < cursor_measure(old(self).at(old(scanner)@)),
            decreases cursor_measure(self.at(scanner@)),
        {
            if self.check(&TokenType::RigtParen) {
                break;
            }
            proof {
                scanner.lemma_wf();
            }
            self.expression(scanner);
            let type_tag = match self.type_tag.pop() {
                Some(t) => t,
                None => TypeTag::Void,
            };
            if arg_count < params.len() {
                let expected = &params[arg_count];
                if type_tag != *expected {
                    let message = argument_mismatch_message(expected, &type_tag);
                    self.error(message.as_str());
                }
            } else {
                self.error("TypeTag stack underflow — compiler emitted unbalanced typetags");
            }
            if arg_count == 255 {
                self.error("Can't have more than 255 arguments.");
            }
            if arg_count < usize::MAX {
                arg_count = arg_count + 1;
            }
            proof {
                scanner.lemma_wf();
            }
            if !self.match_consume(&TokenType::Comma, scanner) {
                break;
            }
            proof {
                scanner.lemma_wf();
            }
        }
        self.consume(TokenType::RigtParen, "Expect ')' after arguments", scanner);
        proof {
            scanner.lemma_wf();
        }
        let mut generic = TypeTag::Void;
        if self.match_consume(&TokenType::DoubleColon, scanner) {
            proof {
                scanner.lemma_wf();
            }
            self.consume(TokenType::LeftBracket, "Expect '[' after :: for turbofish", scanner);
            proof {
                scanner.lemma_wf();
                lemma_skip_errors_safe(scanner@);
            }
            self.advance(scanner);
            proof {
                scanner.lemma_wf();
            }
            match self.previous.token_type.as_typetag() {
                Some(t) => {
                    self.consume(TokenType::RightBracket, "Expect ']' after generic", scanner);
                    self.function_info.return_type_tag_table.insert(functions_name, t.clone());
                    generic = t;
                    turbofish = true;
                },
                None => {
                    self.error("Expect a type after '::['.");
                },
            }
        }
        proof {
            scanner.lemma_wf();
        }
        let expected_return_type = match self.function_info.return_type_tag_table.get(
            &self.prevprev.start,
        ) {
            Some(t) => t.clone(),
            None => {
                self.error(
                    "Function must return value! , if it was a call than it need a ::[T].",
                );
                return (0, false, TypeTag::Void);
            },
        };
        self.type_tag.push(expected_return_type);
        if turbofish {
            (arg_count, true, generic)
        } else {
            (arg_count, false, TypeTag::Void)
        }
    }
}

} // verus!
