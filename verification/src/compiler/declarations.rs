//! Constant values and the `let` and `const` declarations.
use vstd::prelude::*;

use std::sync::Arc;

use crate::chunk::OpCode;
use crate::compiler::expr::{expr_kept, kept_up, number_constant, spec_infix_rule, spec_level};
use crate::compiler::parser::{
    cursor_advance, cursor_consume, cursor_measure, lemma_advanced_cursor, lemma_reported_is_report,
    lemma_reports_compose, lemma_skip_errors_safe, Parser, Report,
};
use crate::compiler::type_safety::TypeTag;
use crate::scanner::{scan_safe, Scanner, SpecToken, TokenType};
use crate::text::{
    all_uppercase, char_is_uppercase, chars_of, contains_char, join3, parse_i64, parse_u64, parsed_i64, parsed_u64,
    string_of,
};
use crate::value::{OptWrapper, Value};

verus! {

/// The type that a type keyword names: `Void` for other tokens.
pub open spec fn keyword_type(tt: TokenType) -> TypeTag {
    match tt {
        TokenType::Int => TypeTag::Int,
        TokenType::Str => TypeTag::Str,
        TokenType::Bool => TypeTag::Bool,
        TokenType::Float => TypeTag::Float,
        TokenType::Char => TypeTag::Char,
        TokenType::Unt => TypeTag::Unt,
        _ => TypeTag::Void,
    }
}

/// The characters of a literal's text between its quotes.
pub open spec fn spec_unquoted(raw: Seq<char>) -> Seq<char> {
    if raw.len() >= 2 {
        raw.subrange(1, raw.len() - 1)
    } else {
        Seq::empty()
    }
}

/// The constant that the single-token literal `t` gives, with its type, where an
/// `unt` is expected when `expected` says so and `bits` holds the bits of the
/// float literals: a number (a `float` when its text holds a `.`, its bits
/// looked up, 0 when missing; else an `unt` or `int` as `str::parse` reads it,
/// 0 when that fails), `true`, `false`, `void`, `None`, or a char literal of
/// exactly one character. `None` for anything else.
pub open spec fn simple_const(t: SpecToken, expected: Option<TypeTag>, bits: Map<Seq<char>, u64>) -> Option<(Value, TypeTag)> {
    match t.token_type {
        TokenType::Number => if t.text.contains('.') {
            Option::Some(
                (Value::Float(if bits.contains_key(t.text) { bits[t.text] } else { 0 }), TypeTag::Float),
            )
        } else if expected == Option::Some(TypeTag::Unt) {
            Option::Some((Value::Unt(match parsed_u64(t.text) {
                Option::Some(v) => v,
                Option::None => 0,
            }), TypeTag::Unt))
        } else {
            Option::Some((Value::Int(match parsed_i64(t.text) {
                Option::Some(v) => v,
                Option::None => 0,
            }), TypeTag::Int))
        },
        TokenType::True => Option::Some((Value::Bool(true), TypeTag::Bool)),
        TokenType::False => Option::Some((Value::Bool(false), TypeTag::Bool)),
        TokenType::Void => Option::Some((Value::Void, TypeTag::Void)),
        TokenType::OptNone => Option::Some(
            (Value::Opt(OptWrapper::NoValue), TypeTag::Opt(Arc::new(TypeTag::NoneType))),
        ),
        TokenType::Char => if spec_unquoted(t.text).len() == 1 {
            Option::Some((Value::Char(spec_unquoted(t.text)[0]), TypeTag::Char))
        } else {
            Option::None
        },
        _ => Option::None,
    }
}

fn unquoted(raw: &String) -> (r: String)
    ensures
        r@ == spec_unquoted(raw@),
{
    let chars = chars_of(raw.as_str());
    if chars.len() >= 2 {
        string_of(&chars, 1, chars.len() - 1)
    } else {
        String::new()
    }
}

/// The message for a value of type `found` where `expected` was annotated.
fn mismatch(expected: &TypeTag, found: &TypeTag) -> (r: String)
    ensures
        r@ == crate::compiler::type_safety::mismatch_message(
            crate::compiler::type_safety::spec_tag_name(*expected),
            *found,
        ),
{
    let e = expected.to_string();
    let f = found.to_string();
    let head = join3("Mismatched types, expected [", e.as_str(), "] found [");
    let m = join3(head.as_str(), f.as_str(), "]");
    m
}

impl Parser {
    /// Reads the literal of a constant's value and returns the value and its
    /// type: a number (`float` with a `.`, `unt` when an `unt` is expected, else
    /// `int`), a string, `true`, `false`, a char, `void`, `None`, `Some(value)`
    /// checked against the expected `Opt` type, or `[values]` of one type whose
    /// type is the expected array type. Anything else is reported.
    pub fn const_value(&mut self, scanner: &mut Scanner) -> (r: (Value, TypeTag))
        requires
            old(scanner).wf(),
            scan_safe(old(scanner)@),
            old(self).wf(),
        ensures
            kept_up(*final(self), *final(scanner), *old(self), old(scanner)@),
            old(self).current.token_type != TokenType::Eof ==> cursor_measure(
                final(self).at(final(scanner)@),
            ) < cursor_measure(old(self).at(old(scanner)@)),
            ({
                let t = old(self).current@;
                let simple = simple_const(t, old(self).expected_type, old(self).float_bits@);
                if t.token_type == TokenType::String {
                    &&& r.1 == TypeTag::Str
                    &&& r.0 matches Value::Str(s) && s@ == spec_unquoted(t.text)
                } else if t.token_type == TokenType::LeftBracket {
                    &&& r.0 is Array
                    &&& r.1 is Array
                } else if t.token_type == TokenType::OptSome {
                    &&& r.0 matches Value::Opt(OptWrapper::SomeValue(_))
                    &&& r.1 is Opt
                } else {
                    r == match simple {
                        Option::Some(c) => c,
                        Option::None => (Value::Void, TypeTag::Void),
                    }
                }
            }),
            final(self).const_table == old(self).const_table,
            ({
                let t = old(self).current@;
                let (c1, reps) = cursor_advance(old(self).at(old(scanner)@));
                let simple = simple_const(t, old(self).expected_type, old(self).float_bits@);
                let message = if t.token_type == TokenType::Char {
                    "Char type cannot contain more than one char."@
                } else {
                    "const value must be a literal (number, string, bool, Array,or Void)."@
                };
                &&& (t.token_type == TokenType::String || simple is Some) ==> {
                    &&& final(self).at(final(scanner)@) == c1
                    &&& final(self).reports_made(old(self), reps)
                }
                &&& (t.token_type != TokenType::String && t.token_type != TokenType::LeftBracket
                    && t.token_type != TokenType::OptSome && simple is None) ==> {
                    &&& final(self).at(final(scanner)@) == c1
                    &&& final(self).reports_made(
                        old(self),
                        reps + seq![Report { token: c1.previous, message }],
                    )
                }
            }),
        decreases cursor_measure(old(self).at(old(scanner)@)),
    {
        proof {
            scanner.lemma_wf();
            lemma_skip_errors_safe(scanner@);
        }
        self.advance(scanner);
        let ghost mid = *self;
        let ghost reps = cursor_advance(old(self).at(old(scanner)@)).1;
        proof {
            scanner.lemma_wf();
            lemma_advanced_cursor(*old(self), mid, old(scanner)@, scanner@);
        }
        match self.previous.token_type {
            TokenType::Number => {
                let txt = self.previous.start.clone();
                if contains_char(txt.as_str(), '.') {
                    let bits = match self.float_bits.get(txt.as_str()) {
                        Some(b) => *b,
                        None => 0,
                    };
                    (Value::Float(bits), TypeTag::Float)
                } else if match &self.expected_type {
                    Some(TypeTag::Unt) => true,
                    _ => false,
                } {
                    let v = match parse_u64(txt.as_str()) {
                        Some(v) => v,
                        None => 0,
                    };
                    (Value::Unt(v), TypeTag::Unt)
                } else {
                    let v = match parse_i64(txt.as_str()) {
                        Some(v) => v,
                        None => 0,
                    };
                    (Value::Int(v), TypeTag::Int)
                }
            },
            TokenType::String => (Value::Str(unquoted(&self.previous.start)), TypeTag::Str),
            TokenType::True => (Value::Bool(true), TypeTag::Bool),
            TokenType::False => (Value::Bool(false), TypeTag::Bool),
            TokenType::Char => {
                let inner = unquoted(&self.previous.start);
                let chars = chars_of(inner.as_str());
                if chars.len() != 1 {
                    self.error("Char type cannot contain more than one char.");
                    proof {
                        let rep = seq![Report { token: mid.previous@, message: "Char type cannot contain more than one char."@ }];
                        lemma_reported_is_report(mid, *self, mid.previous@, "Char type cannot contain more than one char."@);
                        lemma_reports_compose(mid, *self, old(self).painc_mode, old(self).had_err, old(self).diagnostics@, reps, rep);
                    }
                    return (Value::Void, TypeTag::Void);
                }
                (Value::Char(chars[0]), TypeTag::Char)
            },
            TokenType::LeftBracket => {
                let mut values: Vec<Value> = Vec::new();
                let (fvalue, ftype_tag) = self.const_value(scanner);
                values.push(fvalue);
                while self.current.token_type == TokenType::Comma
                    invariant
                        kept_up(*self, *scanner, *old(self), old(scanner)@),
                        self.const_table == old(self).const_table,
                        old(self).current.token_type != TokenType::Eof ==> cursor_measure(
                            self.at(scanner@),
                        ) < cursor_measure(old(self).at(old(scanner)@)),
                    decreases cursor_measure(self.at(scanner@)),
                {
                    proof {
                        scanner.lemma_wf();
                    }
                    self.match_consume(&TokenType::Comma, scanner);
                    proof {
                        scanner.lemma_wf();
                    }
                    let (value, typetag) = self.const_value(scanner);
                    if ftype_tag != typetag {
                        self.error("Arrays must contain the same type for all of its slots.");
                    }
                    values.push(value);
                    proof {
                        scanner.lemma_wf();
                    }
                }
                let expected_array_type = match self.expected_type.take() {
                    Some(t) => t,
                    None => {
                        self.error("Array[Type] annotation needed.");
                        TypeTag::Array(Arc::new(TypeTag::Void))
                    },
                };
                self.consume(TokenType::RightBracket, "Expected ']' at the end of array", scanner);
                (Value::Array(values), TypeTag::Array(expected_array_type.extract()))
            },
            TokenType::Void => (Value::Void, TypeTag::Void),
            TokenType::OptSome => {
                let outer_expected = self.expected_type.take();
                self.expected_type = match &outer_expected {
                    Some(w) => Some((*w.clone().extract()).clone()),
                    None => None,
                };
                self.consume(TokenType::LeftParen, "Expect '(' after Some", scanner);
                proof {
                    scanner.lemma_wf();
                }
                let (value, inner_type) = self.const_value(scanner);
                self.consume(TokenType::RigtParen, "Enclosed '(' expect ')'", scanner);
                match outer_expected {
                    Some(outer) => {
                        let expected_inner = (*outer.extract()).clone();
                        if inner_type != expected_inner {
                            let e = expected_inner.to_string();
                            let f = inner_type.to_string();
                            let head = join3("Mismatched types, expected [", e.as_str(), "] found [");
                            let m = join3(head.as_str(), f.as_str(), "] inside 'Some(...)'");
                            self.error(m.as_str());
                        }
                    },
                    None => {
                        self.error(
                            "Some(...) needs a type context, e.g. `const X : Opt[int] = Some(5);`",
                        );
                    },
                }
                (
                    Value::Opt(OptWrapper::SomeValue(Box::new(value))),
                    TypeTag::Opt(Arc::new(inner_type)),
                )
            },
            TokenType::OptNone => (
                Value::Opt(OptWrapper::NoValue),
                TypeTag::Opt(Arc::new(TypeTag::NoneType)),
            ),
            _ => {
                self.error("const value must be a literal (number, string, bool, Array,or Void).");
                proof {
                    let m = "const value must be a literal (number, string, bool, Array,or Void)."@;
                    let rep = seq![Report { token: mid.previous@, message: m }];
                    lemma_reported_is_report(mid, *self, mid.previous@, m);
                    lemma_reports_compose(mid, *self, old(self).painc_mode, old(self).had_err, old(self).diagnostics@, reps, rep);
                }
                (Value::Void, TypeTag::Void)
            },
        }
    }

    /// Reads `[type]` after an `Opt` of an annotation and returns the optional
    /// type, and whether the type inside is an array.
    fn opt_annotation(&mut self, scanner: &mut Scanner) -> (r: (TypeTag, bool))
        requires
            old(scanner).wf(),
            scan_safe(old(scanner)@),
            old(self).wf(),
        ensures
            expr_kept(*final(self), *final(scanner), *old(self), old(scanner)@),
    {
        self.consume(TokenType::LeftBracket, "Exp", scanner);
        proof {
            scanner.lemma_wf();
            lemma_skip_errors_safe(scanner@);
        }
        self.advance(scanner);
        let mut is_array = false;
        let opt = match self.previous.token_type {
            TokenType::Int => TypeTag::Opt(Arc::new(TypeTag::Int)),
            TokenType::Unt => TypeTag::Opt(Arc::new(TypeTag::Unt)),
            TokenType::Float => TypeTag::Opt(Arc::new(TypeTag::Float)),
            TokenType::Str => TypeTag::Opt(Arc::new(TypeTag::Str)),
            TokenType::Char => TypeTag::Opt(Arc::new(TypeTag::Char)),
            TokenType::Array => {
                is_array = true;
                TypeTag::Opt(Arc::new(self.parse_array_typetag(scanner).0))
            },
            _ => TypeTag::Opt(Arc::new(TypeTag::Void)),
        };
        self.consume(TokenType::RightBracket, "exp", scanner);
        (opt, is_array)
    }

    /// Checks the type `type_tag` of a declared value against its annotation:
    /// an `Opt` annotation takes `None` or the optional type, an `Array`
    /// annotation the array type; any other annotation goes to `type_check`.
    fn check_declared(
        &mut self,
        type_tag: &TypeTag,
        token: TokenType,
        array: &TypeTag,
        opt: &TypeTag,
        is_array: bool,
        is_opt: bool,
    )
        ensures
            final(self).with_reading_state_of(old(self)) == *old(self),
            final(self).current == old(self).current,
            final(self).previous == old(self).previous,
    {
        match token {
            TokenType::Opt => {
                if *type_tag != TypeTag::Opt(Arc::new(TypeTag::NoneType)) && *type_tag != *opt {
                    let m = mismatch(opt, type_tag);
                    self.error(m.as_str());
                }
            },
            TokenType::Array => {
                if *type_tag != *array {
                    let m = mismatch(opt, type_tag);
                    self.error(m.as_str());
                }
            },
            _ => self.type_check(type_tag, &token, is_array, is_opt),
        }
    }

    /// `const NAME: annotation = value;`: the name must be in uppercase; the
    /// value (see `const_value`) is checked against the annotation and recorded
    /// among the named constants.
    pub fn const_declaration(&mut self, scanner: &mut Scanner)
        requires
            old(scanner).wf(),
            scan_safe(old(scanner)@),
            old(self).wf(),
        ensures
            kept_up(*final(self), *final(scanner), *old(self), old(scanner)@),
            ({
                let (c, reps) = cursor_consume(
                    old(self).at(old(scanner)@),
                    TokenType::Identifier,
                    "Expect const name."@,
                );
                let name = c.previous.text;
                let upper = forall|i: int| 0 <= i < name.len() ==> char_is_uppercase(#[trigger] name[i]);
                &&& !upper ==> {
                    &&& final(self).at(final(scanner)@) == c
                    &&& final(self).reports_made(
                        old(self),
                        reps + seq![Report { token: c.previous, message: "Const name must be all in uppercase"@ }],
                    )
                    &&& final(self).const_table == old(self).const_table
                }
                &&& upper ==> {
                    &&& final(self).const_table@.contains_key(name)
                    &&& final(self).const_table@ == old(self).const_table@.insert(
                        name,
                        final(self).const_table@[name],
                    )
                }
            }),
    {
        let const_name = self.parse_const("Expect const name.", scanner);
        let ghost mid = *self;
        if !all_uppercase(const_name.as_str()) {
            self.error("Const name must be all in uppercase");
            proof {
                let m = "Const name must be all in uppercase"@;
                let reps = cursor_consume(old(self).at(old(scanner)@), TokenType::Identifier, "Expect const name."@).1;
                lemma_reported_is_report(mid, *self, mid.previous@, m);
                lemma_reports_compose(mid, *self, old(self).painc_mode, old(self).had_err, old(self).diagnostics@, reps, seq![Report { token: mid.previous@, message: m }]);
            }
            return ;
        }
        self.consume(TokenType::Colon, "expected a type annotation for const values", scanner);
        proof {
            scanner.lemma_wf();
            lemma_skip_errors_safe(scanner@);
        }
        self.advance(scanner);
        let annotation_type = self.previous.token_type;
        let mut is_array = false;
        let mut is_opt = false;
        let array = if annotation_type == TokenType::Array {
            is_array = true;
            self.array_type(scanner)
        } else {
            TypeTag::Array(Arc::new(TypeTag::Void))
        };
        let opt = if annotation_type == TokenType::Opt {
            self.consume(TokenType::LeftBracket, "Exp", scanner);
            let opt = match self.current.token_type {
                TokenType::Int => TypeTag::Opt(Arc::new(TypeTag::Int)),
                TokenType::Unt => TypeTag::Opt(Arc::new(TypeTag::Unt)),
                TokenType::Float => TypeTag::Opt(Arc::new(TypeTag::Float)),
                TokenType::Str => TypeTag::Opt(Arc::new(TypeTag::Str)),
                TokenType::Bool => TypeTag::Opt(Arc::new(TypeTag::Bool)),
                TokenType::Char => TypeTag::Opt(Arc::new(TypeTag::Char)),
                TokenType::Array => TypeTag::Opt(Arc::new(array.clone())),
                _ => TypeTag::Void,
            };
            proof {
                scanner.lemma_wf();
                lemma_skip_errors_safe(scanner@);
            }
            self.advance(scanner);
            self.consume(TokenType::RightBracket, "Exp", scanner);
            is_opt = true;
            opt
        } else {
            TypeTag::Opt(Arc::new(TypeTag::Void))
        };
        self.expected_type = match annotation_type {
            TokenType::Int => Some(TypeTag::Int),
            TokenType::Str => Some(TypeTag::Str),
            TokenType::Bool => Some(TypeTag::Bool),
            TokenType::Float => Some(TypeTag::Float),
            TokenType::Char => Some(TypeTag::Char),
            TokenType::Unt => Some(TypeTag::Unt),
            TokenType::Array => Some(array.clone()),
            TokenType::Opt => Some(opt.clone()),
            _ => Some(TypeTag::Void),
        };
        self.consume(TokenType::Equal, "Expect '=' after const name.", scanner);
        proof {
            scanner.lemma_wf();
        }
        let (const_value, type_tag) = self.const_value(scanner);
        self.check_declared(&type_tag, annotation_type, &array, &opt, is_array, is_opt);
        self.consume(TokenType::Semicolon, "Expect ';' after variable declaration.", scanner);
        self.define_const(const_name, const_value, &type_tag);
    }

    /// Reads the optional `: annotation` of a `let`: the annotation's first token
    /// kind, the array and optional types it names, and whether it names an array
    /// or an optional type.
    fn declared_annotation(&mut self, scanner: &mut Scanner) -> (r: (
        Option<TokenType>,
        TypeTag,
        TypeTag,
        bool,
        bool,
    ))
        requires
            old(scanner).wf(),
            scan_safe(old(scanner)@),
            old(self).wf(),
        ensures
            expr_kept(*final(self), *final(scanner), *old(self), old(scanner)@),
            old(self).current.token_type != TokenType::Colon ==> r.0 is None && *final(self)
                == *old(self) && final(scanner)@ == old(scanner)@,
    {
        let type_annotation = self.match_consume(&TokenType::Colon, scanner);
        let annotation_type = if type_annotation {
            proof {
                scanner.lemma_wf();
                lemma_skip_errors_safe(scanner@);
            }
            self.advance(scanner);
            Some(self.previous.token_type)
        } else {
            None
        };
        let mut is_opt = false;
        let is_array_annotation = match annotation_type {
            Some(TokenType::Array) => true,
            _ => false,
        };
        let (array, mut is_array) = if is_array_annotation {
            self.parse_array_typetag(scanner)
        } else {
            (TypeTag::Array(Arc::new(TypeTag::Void)), false)
        };
        let is_opt_annotation = match annotation_type {
            Some(TokenType::Opt) => true,
            _ => false,
        };
        let opt = if is_opt_annotation {
            let (opt, inner_array) = self.opt_annotation(scanner);
            if inner_array {
                is_array = true;
            }
            is_opt = true;
            opt
        } else {
            TypeTag::Opt(Arc::new(TypeTag::Void))
        };
        (annotation_type, array, opt, is_array, is_opt)
    }

    /// `let [~]name [: annotation] [= expression];`, only inside a function's
    /// body: declares a local (see `parse_variable`), compiles its value (`void`
    /// when there is none) with the annotation's type expected, gives the local
    /// the value's type, checks it against the annotation, and marks the local
    /// initialized. A function that already has `i32::MAX - 2` locals takes no
    /// more: that is reported.
    #[verifier::rlimit(30)]
    pub fn variable_declaration(&mut self, scanner: &mut Scanner)
        requires
            old(scanner).wf(),
            scan_safe(old(scanner)@),
            old(self).wf(),
        ensures
            kept_up(*final(self), *final(scanner), *old(self), old(scanner)@),
            old(self).compiler.scope_depth == 0 ==> {
                &&& final(self).same_but_errors(old(self))
                &&& final(self).reported(
                    old(self),
                    old(self).previous@,
                    "Statements must be insaid a fn body"@,
                )
                &&& final(scanner)@ == old(scanner)@
            },
            ({
                let c0 = old(self).at(old(scanner)@);
                let is_mut = c0.current.token_type == TokenType::Tilde;
                let c1 = if is_mut {
                    cursor_advance(c0).0
                } else {
                    c0
                };
                let c2 = cursor_consume(c1, TokenType::Identifier, "Expect variable name."@).0;
                let locals = old(self).compiler.locals@;
                old(self).compiler.scope_depth > 0 && locals.len() + 2 < i32::MAX && old(
                    self,
                ).chunk().constants.values@.len() < usize::MAX - 1 ==> {
                    &&& final(self).compiler.locals@.len() == locals.len() + 1
                    &&& final(self).compiler.locals@.drop_last() == locals
                    &&& final(self).compiler.locals@.last().name@ == c2.previous
                    &&& final(self).compiler.locals@.last().depth == old(self).compiler.scope_depth
                    &&& final(self).compiler.locals@.last().is_mut == is_mut
                    &&& c2.current.token_type != TokenType::Colon && c2.current.token_type
                        != TokenType::Equal ==> final(self).compiler.locals@.last().type_tag
                        == TypeTag::Void
                    &&& {
                        let c3 = cursor_advance(c2).0;
                        let c4 = cursor_advance(c3).0;
                        c2.current.token_type == TokenType::Equal && c3.current.token_type
                            == TokenType::Number && c4.current.token_type != TokenType::Equal
                            && spec_level(spec_infix_rule(c4.current.token_type).1) == 0
                            ==> final(self).compiler.locals@.last().type_tag == number_constant(
                            c3.current.text,
                            Option::None,
                            old(self).float_bits@,
                        ).1
                    }
                }
            }),
    {
        if self.compiler.scope_depth == 0 {
            self.error("Statements must be insaid a fn body");
            return ;
        }
        if self.compiler.locals.len() + 2 >= i32::MAX as usize
            || self.compiler.function.function.chunk.constants.values.len() >= usize::MAX - 1 {
            self.error("Too many local variables in function.");
            return ;
        }
        self.parse_variable("Expect variable name.", scanner);
        proof {
            scanner.lemma_wf();
        }
        let (annotation_type, array, opt, is_array, is_opt) = self.declared_annotation(scanner);
        self.expected_type = match annotation_type {
            Some(TokenType::Array) => Some(array.clone()),
            Some(TokenType::Opt) => Some(opt.clone()),
            Some(t) => Some(match t {
                TokenType::Int => TypeTag::Int,
                TokenType::Str => TypeTag::Str,
                TokenType::Bool => TypeTag::Bool,
                TokenType::Float => TypeTag::Float,
                TokenType::Char => TypeTag::Char,
                TokenType::Unt => TypeTag::Unt,
                _ => TypeTag::Void,
            }),
            None => None,
        };
        proof {
            scanner.lemma_wf();
        }
        if self.match_consume(&TokenType::Equal, scanner) {
            proof {
                scanner.lemma_wf();
            }
            self.expression(scanner);
        } else {
            self.emit_byte(OpCode::Void.to_byte());
            self.type_tag.push(TypeTag::Void);
        }
        let type_tag = match self.type_tag.pop() {
            Some(t) => t,
            None => TypeTag::Void,
        };
        match self.compiler.locals.pop() {
            Some(mut local) => {
                local.type_tag = type_tag.clone();
                self.compiler.locals.push(local);
            },
            None => {},
        }
        if let Some(token) = annotation_type {
            self.check_declared(&type_tag, token, &array, &opt, is_array, is_opt);
        }
        self.consume(TokenType::Semicolon, "Expect ';' after variable declaration.", scanner);
        if self.compiler.locals.len() >= 1 {
            self.define_variable();
        }
    }
}

} // verus!
