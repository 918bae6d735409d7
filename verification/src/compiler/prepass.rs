//! The pass before compiling: it reads the signature of every function (`fn`),
//! so that calls can be checked against functions declared later.
use vstd::prelude::*;

use std::sync::Arc;

use crate::compiler::parser::{
    cursor_advance, cursor_consume, cursor_measure, lemma_reported_is_report,
    lemma_reports_compose, lemma_skip_errors_safe, Cursor, Parser, Report,
};
use crate::compiler::type_safety::{elem_tag, TypeTag};
use crate::scanner::{scan_safe, ScanState, Scanner, TokenType};
use crate::text::str_eq;

verus! {

/// What reading `[`, a type keyword, `]` does from `c`: the kind of the token
/// read inside, the cursor after the `]`, and the reports made.
pub open spec fn spec_bracketed(c: Cursor) -> (TokenType, Cursor, Seq<Report>) {
    let (c1, e1) = cursor_consume(c, TokenType::LeftBracket, "Exp"@);
    let inner = c1.current.token_type;
    let (c2, e2) = cursor_advance(c1);
    let (c3, e3) = cursor_consume(c2, TokenType::RightBracket, "Exp"@);
    (inner, c3, e1 + e2 + e3)
}

/// The type `Opt[..]` names with the token of kind `tt` inside: an `Opt` of the
/// type keyword, of `array` for `Array`, and `Void` for any other token.
pub open spec fn opt_tag(tt: TokenType, array: TypeTag) -> TypeTag {
    match tt {
        TokenType::Int => TypeTag::Opt(Arc::new(TypeTag::Int)),
        TokenType::Unt => TypeTag::Opt(Arc::new(TypeTag::Unt)),
        TokenType::Float => TypeTag::Opt(Arc::new(TypeTag::Float)),
        TokenType::Str => TypeTag::Opt(Arc::new(TypeTag::Str)),
        TokenType::Bool => TypeTag::Opt(Arc::new(TypeTag::Bool)),
        TokenType::Char => TypeTag::Opt(Arc::new(TypeTag::Char)),
        TokenType::Array => TypeTag::Opt(Arc::new(array)),
        _ => TypeTag::Void,
    }
}

/// The type an annotation starting with a token of kind `a` names, given the
/// array and optional types read after it.
pub open spec fn annotation_tag(a: TokenType, array: TypeTag, opt: TypeTag) -> TypeTag {
    match a {
        TokenType::Int => TypeTag::Int,
        TokenType::Str => TypeTag::Str,
        TokenType::Bool => TypeTag::Bool,
        TokenType::Float => TypeTag::Float,
        TokenType::Char => TypeTag::Char,
        TokenType::Unt => TypeTag::Unt,
        TokenType::Array => array,
        TokenType::Opt => opt,
        _ => TypeTag::Void,
    }
}

/// What reading a type annotation does from `c` (its first token is the current
/// one): `Array` and `Opt` are followed by a bracketed type keyword. The type,
/// the cursor after the annotation, and the reports made.
pub open spec fn spec_annotation(c: Cursor) -> (TypeTag, Cursor, Seq<Report>) {
    let (c1, e1) = cursor_advance(c);
    let a = c1.previous.token_type;
    let (inner_a, c2, e2) = if a == TokenType::Array {
        spec_bracketed(c1)
    } else {
        (TokenType::Void, c1, Seq::empty())
    };
    let array = if a == TokenType::Array {
        TypeTag::Array(Arc::new(elem_tag(inner_a)))
    } else {
        TypeTag::Array(Arc::new(TypeTag::Void))
    };
    let (inner_o, c3, e3) = if a == TokenType::Opt {
        spec_bracketed(c2)
    } else {
        (TokenType::Void, c2, Seq::empty())
    };
    let opt = if a == TokenType::Opt {
        opt_tag(inner_o, array)
    } else {
        TypeTag::Opt(Arc::new(TypeTag::Void))
    };
    (annotation_tag(a, array, opt), c3, e1 + e2 + e3)
}

/// What reading one parameter does from `c`: `name : annotation`. Its type, the
/// cursor after it, and the reports made.
pub open spec fn spec_param(c: Cursor) -> (TypeTag, Cursor, Seq<Report>) {
    let (d1, e1) = cursor_consume(c, TokenType::Identifier, "Expect a parameter's name"@);
    let (d2, e2) = cursor_consume(
        d1,
        TokenType::Colon,
        "Expect ':' after parameter's name for type"@,
    );
    let (t, d3, e3) = spec_annotation(d2);
    (t, d3, e1 + e2 + e3)
}

/// What reading a parameter list does from `c`: parameters separated by commas.
/// The parameter types, the cursor after the list, and the reports made.
pub open spec fn spec_params(c: Cursor) -> (Seq<TypeTag>, Cursor, Seq<Report>)
    decreases cursor_measure(c),
{
    let (t, d3, e) = spec_param(c);
    let (d4, e4) = cursor_advance(d3);
    if d3.current.token_type == TokenType::Comma && 0 <= cursor_measure(d4) < cursor_measure(c) {
        let (ts, d5, e5) = spec_params(d4);
        (seq![t] + ts, d5, e + e4 + e5)
    } else if d3.current.token_type == TokenType::Comma {
        (seq![t], d4, e + e4)
    } else {
        (seq![t], d3, e)
    }
}

/// The signature of a function: its name, the types of its parameters and its
/// return type.
pub struct Signature {
    pub name: Seq<char>,
    pub params: Seq<TypeTag>,
    pub ret: TypeTag,
}

/// What reading the parameters of the function `name` does from `c` (after its
/// `(`): none when the current token is `)`; otherwise a parameter list, with a
/// report first when `name` is `main`. The types, the cursor after them, and the
/// reports made.
pub open spec fn spec_fn_params(c: Cursor, name: Seq<char>) -> (Seq<TypeTag>, Cursor, Seq<Report>) {
    if c.current.token_type != TokenType::RigtParen {
        let em = if name == "main"@ {
            seq![Report { token: c.previous, message: "main() can not have parameters"@ }]
        } else {
            Seq::empty()
        };
        let (ts, c4, ep) = spec_params(c);
        (ts, c4, em + ep)
    } else {
        (Seq::empty(), c, Seq::empty())
    }
}

/// What reading the return type does from `c`: `-> annotation`, or `Void` when
/// the current token is not `->`. The type, the cursor after it, and the reports
/// made.
pub open spec fn spec_fn_return(c: Cursor) -> (TypeTag, Cursor, Seq<Report>) {
    if c.current.token_type == TokenType::Arrow {
        let (c6, e6) = cursor_advance(c);
        let (t, c7, ea) = spec_annotation(c6);
        (t, c7, e6 + ea)
    } else {
        (TypeTag::Void, c, Seq::empty())
    }
}

/// What `fn_prepass` reads from `c` (the current token is `fn`): the name, the
/// parenthesized parameters (see `spec_fn_params`), and the return type (see
/// `spec_fn_return`). The signature, the cursor after it, and the reports made.
#[verifier::opaque]
pub open spec fn spec_fn_prepass(c: Cursor) -> (Signature, Cursor, Seq<Report>) {
    let (c1, e1) = cursor_advance(c);
    let (c2, e2) = cursor_consume(c1, TokenType::Identifier, "Expect a function's name."@);
    let name = c2.previous.text;
    let (c3, e3) = cursor_consume(c2, TokenType::LeftParen, "Expect '('  after function name."@);
    let (params, c4, e4) = spec_fn_params(c3, name);
    let (c5, e5) = cursor_consume(c4, TokenType::RigtParen, "Expect ')' after parameters."@);
    let (ret, c7, e7) = spec_fn_return(c5);
    (Signature { name, params, ret }, c7, e1 + e2 + e3 + e4 + e5 + e7)
}

/// The parameter types of each function, as sequences.
pub open spec fn param_types(m: Map<Seq<char>, Vec<TypeTag>>) -> Map<Seq<char>, Seq<TypeTag>> {
    m.map_values(|v: Vec<TypeTag>| v@)
}

/// One round of `pre_pass` from `c`: read a token, and after a `fn` the
/// signature, recorded in the tables `params` and `rets`. The tables, the cursor
/// after the round, and the reports made.
#[verifier::opaque]
pub open spec fn spec_pre_pass_step(
    c: Cursor,
    params: Map<Seq<char>, Seq<TypeTag>>,
    rets: Map<Seq<char>, TypeTag>,
) -> (Map<Seq<char>, Seq<TypeTag>>, Map<Seq<char>, TypeTag>, Cursor, Seq<Report>) {
    let (c1, e1) = cursor_advance(c);
    if c1.current.token_type == TokenType::Fn {
        let (sig, c2, e2) = spec_fn_prepass(c1);
        (params.insert(sig.name, sig.params), rets.insert(sig.name, sig.ret), c2, e1 + e2)
    } else {
        (params, rets, c1, e1)
    }
}

/// What `pre_pass` does from `c`, with the tables of parameter and return types
/// `params` and `rets`: rounds of `spec_pre_pass_step` until one reads the end of
/// the source. The tables, the cursor at the end, and the reports made.
pub open spec fn spec_pre_pass(
    c: Cursor,
    params: Map<Seq<char>, Seq<TypeTag>>,
    rets: Map<Seq<char>, TypeTag>,
) -> (Map<Seq<char>, Seq<TypeTag>>, Map<Seq<char>, TypeTag>, Cursor, Seq<Report>)
    decreases cursor_measure(c),
{
    let (ps, rs, c2, e2) = spec_pre_pass_step(c, params, rets);
    if c2.previous.token_type != TokenType::Eof && 0 <= cursor_measure(c2) < cursor_measure(c) {
        let (ps3, rs3, c3, e3) = spec_pre_pass(c2, ps, rs);
        (ps3, rs3, c3, e2 + e3)
    } else {
        (ps, rs, c2, e2)
    }
}

impl Parser {
    /// Reads `[`, a token, `]` (see `spec_bracketed`) and returns the kind of the
    /// token inside.
    fn bracketed_type(&mut self, scanner: &mut Scanner) -> (r: TokenType)
        requires
            old(scanner).wf(),
            scan_safe(old(scanner)@),
        ensures
            final(scanner).wf(),
            scan_safe(final(scanner)@),
            ({
                let (tt, c, reps) = spec_bracketed(old(self).at(old(scanner)@));
                &&& r == tt
                &&& final(self).at(final(scanner)@) == c
                &&& final(self).reports_made(old(self), reps)
            }),
            final(self).with_reading_state_of(old(self)) == *old(self),
            cursor_measure(final(self).at(final(scanner)@)) <= cursor_measure(
                old(self).at(old(scanner)@),
            ),
    {
        let ghost p0 = *self;
        let ghost c0 = self.at(scanner@);
        self.consume(TokenType::LeftBracket, "Exp", scanner);
        let inner = self.current.token_type;
        let ghost p1 = *self;
        let ghost (c1, e1) = cursor_consume(c0, TokenType::LeftBracket, "Exp"@);
        proof {
            scanner.lemma_wf();
            lemma_skip_errors_safe(scanner@);
        }
        self.advance(scanner);
        let ghost p2 = *self;
        let ghost (c2, e2) = cursor_advance(c1);
        proof {
            lemma_reports_compose(p1, p2, p0.painc_mode, p0.had_err, p0.diagnostics@, e1, e2);
        }
        self.consume(TokenType::RightBracket, "Exp", scanner);
        proof {
            let (c3, e3) = cursor_consume(c2, TokenType::RightBracket, "Exp"@);
            lemma_reports_compose(
                p2,
                *self,
                p0.painc_mode,
                p0.had_err,
                p0.diagnostics@,
                e1 + e2,
                e3,
            );
        }
        inner
    }

    /// Reads a type annotation (see `spec_annotation`) and returns its type.
    pub(crate) fn annotation_type(&mut self, scanner: &mut Scanner) -> (r: TypeTag)
        requires
            old(scanner).wf(),
            scan_safe(old(scanner)@),
        ensures
            final(scanner).wf(),
            scan_safe(final(scanner)@),
            ({
                let (t, c, reps) = spec_annotation(old(self).at(old(scanner)@));
                &&& r == t
                &&& final(self).at(final(scanner)@) == c
                &&& final(self).reports_made(old(self), reps)
            }),
            final(self).with_reading_state_of(old(self)) == *old(self),
            cursor_measure(final(self).at(final(scanner)@)) <= cursor_measure(
                old(self).at(old(scanner)@),
            ),
    {
        let ghost p0 = *self;
        let ghost c0 = self.at(scanner@);
        proof {
            old(scanner).lemma_wf();
            lemma_skip_errors_safe(old(scanner)@);
        }
        self.advance(scanner);
        let annotation_type = self.previous.token_type;
        let ghost (c1, e1) = cursor_advance(c0);
        let ghost p1 = *self;
        let array = if annotation_type == TokenType::Array {
            let inner = self.bracketed_type(scanner);
            proof {
                let (ia, c2, e2) = spec_bracketed(c1);
                lemma_reports_compose(p1, *self, p0.painc_mode, p0.had_err, p0.diagnostics@, e1, e2);
            }
            match inner {
                TokenType::Int => TypeTag::Array(Arc::new(TypeTag::Int)),
                TokenType::Unt => TypeTag::Array(Arc::new(TypeTag::Unt)),
                TokenType::Float => TypeTag::Array(Arc::new(TypeTag::Float)),
                TokenType::Str => TypeTag::Array(Arc::new(TypeTag::Str)),
                TokenType::Bool => TypeTag::Array(Arc::new(TypeTag::Bool)),
                TokenType::Char => TypeTag::Array(Arc::new(TypeTag::Char)),
                _ => TypeTag::Array(Arc::new(TypeTag::Void)),
            }
        } else {
            proof {
                assert(e1 + Seq::<Report>::empty() =~= e1);
            }
            TypeTag::Array(Arc::new(TypeTag::Void))
        };
        let ghost (inner_a, c2, e2) = if annotation_type == TokenType::Array {
            spec_bracketed(c1)
        } else {
            (TokenType::Void, c1, Seq::<Report>::empty())
        };
        let ghost p2 = *self;
        let opt = if annotation_type == TokenType::Opt {
            let inner = self.bracketed_type(scanner);
            proof {
                let (io, c3, e3) = spec_bracketed(c2);
                lemma_reports_compose(
                    p2,
                    *self,
                    p0.painc_mode,
                    p0.had_err,
                    p0.diagnostics@,
                    e1 + e2,
                    e3,
                );
            }
            match inner {
                TokenType::Int => TypeTag::Opt(Arc::new(TypeTag::Int)),
                TokenType::Unt => TypeTag::Opt(Arc::new(TypeTag::Unt)),
                TokenType::Float => TypeTag::Opt(Arc::new(TypeTag::Float)),
                TokenType::Str => TypeTag::Opt(Arc::new(TypeTag::Str)),
                TokenType::Bool => TypeTag::Opt(Arc::new(TypeTag::Bool)),
                TokenType::Char => TypeTag::Opt(Arc::new(TypeTag::Char)),
                TokenType::Array => TypeTag::Opt(Arc::new(array.clone())),
                _ => TypeTag::Void,
            }
        } else {
            proof {
                assert(e1 + e2 + Seq::<Report>::empty() =~= e1 + e2);
            }
            TypeTag::Opt(Arc::new(TypeTag::Void))
        };
        match annotation_type {
            TokenType::Int => TypeTag::Int,
            TokenType::Str => TypeTag::Str,
            TokenType::Bool => TypeTag::Bool,
            TokenType::Float => TypeTag::Float,
            TokenType::Char => TypeTag::Char,
            TokenType::Unt => TypeTag::Unt,
            TokenType::Array => array,
            TokenType::Opt => opt,
            _ => TypeTag::Void,
        }
    }

    /// Reads one parameter (see `spec_param`) and returns its type.
    fn param(&mut self, scanner: &mut Scanner) -> (r: TypeTag)
        requires
            old(scanner).wf(),
            scan_safe(old(scanner)@),
        ensures
            final(scanner).wf(),
            scan_safe(final(scanner)@),
            ({
                let (t, c, reps) = spec_param(old(self).at(old(scanner)@));
                &&& r == t
                &&& final(self).at(final(scanner)@) == c
                &&& final(self).reports_made(old(self), reps)
            }),
            final(self).with_reading_state_of(old(self)) == *old(self),
            cursor_measure(final(self).at(final(scanner)@)) <= cursor_measure(
                old(self).at(old(scanner)@),
            ),
    {
        let ghost p0 = *self;
        let ghost c0 = self.at(scanner@);
        self.consume(TokenType::Identifier, "Expect a parameter's name", scanner);
        let ghost p1 = *self;
        let ghost (d1, f1) = cursor_consume(
            c0,
            TokenType::Identifier,
            "Expect a parameter's name"@,
        );
        self.consume(TokenType::Colon, "Expect ':' after parameter's name for type", scanner);
        let ghost p2 = *self;
        let ghost (d2, f2) = cursor_consume(
            d1,
            TokenType::Colon,
            "Expect ':' after parameter's name for type"@,
        );
        proof {
            lemma_reports_compose(p1, p2, p0.painc_mode, p0.had_err, p0.diagnostics@, f1, f2);
        }
        let t = self.annotation_type(scanner);
        proof {
            let (tt, d3, f3) = spec_annotation(d2);
            lemma_reports_compose(
                p2,
                *self,
                p0.painc_mode,
                p0.had_err,
                p0.diagnostics@,
                f1 + f2,
                f3,
            );
        }
        t
    }

    /// Reads a parameter list (see `spec_params`) and returns the parameter types.
    fn param_list(&mut self, scanner: &mut Scanner) -> (r: Vec<TypeTag>)
        requires
            old(scanner).wf(),
            scan_safe(old(scanner)@),
        ensures
            final(scanner).wf(),
            scan_safe(final(scanner)@),
            ({
                let (ts, c, reps) = spec_params(old(self).at(old(scanner)@));
                &&& r@ == ts
                &&& final(self).at(final(scanner)@) == c
                &&& final(self).reports_made(old(self), reps)
            }),
            final(self).with_reading_state_of(old(self)) == *old(self),
            cursor_measure(final(self).at(final(scanner)@)) <= cursor_measure(
                old(self).at(old(scanner)@),
            ),
    {
        let ghost p0 = *self;
        let ghost c0 = self.at(scanner@);
        let ghost (ts_all, c_all, e_all) = spec_params(c0);
        let ghost mut acc: Seq<Report> = Seq::empty();
        let mut stack: Vec<TypeTag> = Vec::new();
        proof {
            assert(stack@ + ts_all =~= ts_all);
            assert(acc + e_all =~= e_all);
        }
        loop
            invariant_except_break
                ts_all == stack@ + spec_params(self.at(scanner@)).0,
                c_all == spec_params(self.at(scanner@)).1,
                e_all == acc + spec_params(self.at(scanner@)).2,
            invariant
                scanner.wf(),
                scan_safe(scanner@),
                self.reports_made(&p0, acc),
                self.with_reading_state_of(&p0) == p0,
                cursor_measure(self.at(scanner@)) <= cursor_measure(c0),
                (ts_all, c_all, e_all) == spec_params(c0),
            ensures
                ts_all == stack@,
                c_all == self.at(scanner@),
                e_all == acc,
            decreases cursor_measure(self.at(scanner@)),
        {
            let ghost d0 = self.at(scanner@);
            let ghost q0 = *self;
            let t = self.param(scanner);
            let ghost (tt, d3, f) = spec_param(d0);
            let ghost q1 = *self;
            proof {
                lemma_reports_compose(
                    q0,
                    q1,
                    p0.painc_mode,
                    p0.had_err,
                    p0.diagnostics@,
                    acc,
                    f,
                );
            }
            let ghost stack0 = stack@;
            let ghost acc0 = acc;
            stack.push(t);
            if !self.match_consume(&TokenType::Comma, scanner) {
                proof {
                    assert(stack0 + seq![tt] =~= stack@);
                    acc = acc0 + f;
                }
                break;
            }
            let ghost (d4, f4) = cursor_advance(d3);
            proof {
                lemma_reports_compose(
                    q1,
                    *self,
                    p0.painc_mode,
                    p0.had_err,
                    p0.diagnostics@,
                    acc0 + f,
                    f4,
                );
                acc = acc0 + f + f4;
                scanner.lemma_wf();
                assert(0 <= cursor_measure(d4) < cursor_measure(d0));
                let (ts5, d5, f5) = spec_params(d4);
                assert(stack0 + (seq![tt] + ts5) =~= stack@ + ts5);
                assert(acc0 + (f + f4 + f5) =~= acc + f5);
            }
        }
        stack
    }

    /// Reads the parameters of the function `name` (see `spec_fn_params`) and
    /// returns their types.
    fn fn_params(&mut self, scanner: &mut Scanner, name: &String) -> (r: Vec<TypeTag>)
        requires
            old(scanner).wf(),
            scan_safe(old(scanner)@),
        ensures
            final(scanner).wf(),
            scan_safe(final(scanner)@),
            ({
                let (ts, c, reps) = spec_fn_params(old(self).at(old(scanner)@), name@);
                &&& r@ == ts
                &&& final(self).at(final(scanner)@) == c
                &&& final(self).reports_made(old(self), reps)
            }),
            final(self).with_reading_state_of(old(self)) == *old(self),
            cursor_measure(final(self).at(final(scanner)@)) <= cursor_measure(
                old(self).at(old(scanner)@),
            ),
    {
        if self.check(&TokenType::RigtParen) {
            return Vec::new();
        }
        let ghost p0 = *self;
        let ghost c0 = self.at(scanner@);
        let ghost em = if name@ == "main"@ {
            seq![Report { token: c0.previous, message: "main() can not have parameters"@ }]
        } else {
            Seq::<Report>::empty()
        };
        if str_eq(name.as_str(), "main") {
            self.error("main() can not have parameters");
            proof {
                lemma_reported_is_report(p0, *self, c0.previous, "main() can not have parameters"@);
            }
        }
        let ghost p1 = *self;
        let stack = self.param_list(scanner);
        proof {
            let (ts, c4, ep) = spec_params(c0);
            lemma_reports_compose(p1, *self, p0.painc_mode, p0.had_err, p0.diagnostics@, em, ep);
        }
        stack
    }

    /// Reads the return type (see `spec_fn_return`) and returns it.
    fn fn_return(&mut self, scanner: &mut Scanner) -> (r: TypeTag)
        requires
            old(scanner).wf(),
            scan_safe(old(scanner)@),
        ensures
            final(scanner).wf(),
            scan_safe(final(scanner)@),
            ({
                let (t, c, reps) = spec_fn_return(old(self).at(old(scanner)@));
                &&& r == t
                &&& final(self).at(final(scanner)@) == c
                &&& final(self).reports_made(old(self), reps)
            }),
            final(self).with_reading_state_of(old(self)) == *old(self),
            cursor_measure(final(self).at(final(scanner)@)) <= cursor_measure(
                old(self).at(old(scanner)@),
            ),
    {
        let ghost p0 = *self;
        let ghost c0 = self.at(scanner@);
        if self.match_consume(&TokenType::Arrow, scanner) {
            let ghost p1 = *self;
            let t = self.annotation_type(scanner);
            proof {
                let (c6, e6) = cursor_advance(c0);
                let (tt, c7, ea) = spec_annotation(c6);
                lemma_reports_compose(p1, *self, p0.painc_mode, p0.had_err, p0.diagnostics@, e6, ea);
            }
            t
        } else {
            TypeTag::Void
        }
    }

    /// Reads the signature of a function, its `fn` being the current token, and
    /// records its parameter types and return type under its name (see
    /// `spec_fn_prepass`).
    pub fn fn_prepass(&mut self, scanner: &mut Scanner)
        requires
            old(scanner).wf(),
            scan_safe(old(scanner)@),
        ensures
            final(scanner).wf(),
            scan_safe(final(scanner)@),
            ({
                let (sig, c, reps) = spec_fn_prepass(old(self).at(old(scanner)@));
                &&& final(self).at(final(scanner)@) == c
                &&& final(self).reports_made(old(self), reps)
                &&& param_types(final(self).function_info.parameters_type_tag_table@) == param_types(
                    old(self).function_info.parameters_type_tag_table@,
                ).insert(sig.name, sig.params)
                &&& final(self).function_info.return_type_tag_table@ == old(
                    self,
                ).function_info.return_type_tag_table@.insert(sig.name, sig.ret)
            }),
            final(self).with_function_info_of(old(self)).with_reading_state_of(old(self)) == *old(
                self,
            ),
            cursor_measure(final(self).at(final(scanner)@)) <= cursor_measure(
                old(self).at(old(scanner)@),
            ),
            old(self).current.token_type != TokenType::Eof ==> cursor_measure(
                final(self).at(final(scanner)@),
            ) < cursor_measure(old(self).at(old(scanner)@)),
    {
        let ghost p0 = *self;
        let ghost c0 = self.at(scanner@);
        proof {
            old(scanner).lemma_wf();
            lemma_skip_errors_safe(old(scanner)@);
            reveal(spec_fn_prepass);
        }
        self.advance(scanner);
        let ghost p1 = *self;
        let ghost (c1, e1) = cursor_advance(c0);
        self.consume(TokenType::Identifier, "Expect a function's name.", scanner);
        let ghost p2 = *self;
        let ghost (c2, e2) = cursor_consume(c1, TokenType::Identifier, "Expect a function's name."@);
        proof {
            lemma_reports_compose(p1, p2, p0.painc_mode, p0.had_err, p0.diagnostics@, e1, e2);
        }
        let function_name = self.previous.start.clone();
        self.consume(TokenType::LeftParen, "Expect '('  after function name.", scanner);
        let ghost p3 = *self;
        let ghost (c3, e3) = cursor_consume(
            c2,
            TokenType::LeftParen,
            "Expect '('  after function name."@,
        );
        proof {
            lemma_reports_compose(p2, p3, p0.painc_mode, p0.had_err, p0.diagnostics@, e1 + e2, e3);
        }
        let params = self.fn_params(scanner, &function_name);
        let ghost p4 = *self;
        let ghost (ts, c4, e4) = spec_fn_params(c3, function_name@);
        proof {
            lemma_reports_compose(
                p3,
                p4,
                p0.painc_mode,
                p0.had_err,
                p0.diagnostics@,
                e1 + e2 + e3,
                e4,
            );
        }
        self.function_info.parameters_type_tag_table.insert(function_name.clone(), params);
        let ghost p4b = *self;
        proof {
            assert(param_types(self.function_info.parameters_type_tag_table@) =~= param_types(
                p0.function_info.parameters_type_tag_table@,
            ).insert(function_name@, ts));
        }
        self.consume(TokenType::RigtParen, "Expect ')' after parameters.", scanner);
        let ghost p5 = *self;
        let ghost (c5, e5) = cursor_consume(
            c4,
            TokenType::RigtParen,
            "Expect ')' after parameters."@,
        );
        proof {
            lemma_reports_compose(
                p4b,
                p5,
                p0.painc_mode,
                p0.had_err,
                p0.diagnostics@,
                e1 + e2 + e3 + e4,
                e5,
            );
        }
        let ret = self.fn_return(scanner);
        proof {
            let (t, c7, e7) = spec_fn_return(c5);
            lemma_reports_compose(
                p5,
                *self,
                p0.painc_mode,
                p0.had_err,
                p0.diagnostics@,
                e1 + e2 + e3 + e4 + e5,
                e7,
            );
        }
        self.function_info.return_type_tag_table.insert(function_name, ret);
    }

    /// One round of `pre_pass` (see `spec_pre_pass_step`). The round reads at
    /// least one token unless the current token ends the source, and the previous
    /// token ends the source only when the current one did before.
    fn pre_pass_step(&mut self, scanner: &mut Scanner)
        requires
            old(scanner).wf(),
            scan_safe(old(scanner)@),
        ensures
            final(scanner).wf(),
            scan_safe(final(scanner)@),
            ({
                let (ps, rs, c, reps) = spec_pre_pass_step(
                    old(self).at(old(scanner)@),
                    param_types(old(self).function_info.parameters_type_tag_table@),
                    old(self).function_info.return_type_tag_table@,
                );
                &&& final(self).at(final(scanner)@) == c
                &&& final(self).reports_made(old(self), reps)
                &&& param_types(final(self).function_info.parameters_type_tag_table@) == ps
                &&& final(self).function_info.return_type_tag_table@ == rs
            }),
            final(self).with_function_info_of(old(self)).with_reading_state_of(old(self)) == *old(
                self,
            ),
            final(self).previous.token_type != TokenType::Eof ==> cursor_measure(
                final(self).at(final(scanner)@),
            ) < cursor_measure(old(self).at(old(scanner)@)),
    {
        let ghost p0 = *self;
        let ghost c0 = self.at(scanner@);
        proof {
            scanner.lemma_wf();
            lemma_skip_errors_safe(scanner@);
            reveal(spec_pre_pass_step);
        }
        self.advance(scanner);
        let ghost p1 = *self;
        let ghost (c1, e1) = cursor_advance(c0);
        if self.current.token_type == TokenType::Fn {
            self.fn_prepass(scanner);
            proof {
                let (sig, c2, e2) = spec_fn_prepass(c1);
                lemma_reports_compose(p1, *self, p0.painc_mode, p0.had_err, p0.diagnostics@, e1, e2);
            }
        }
    }

    /// Reports "Expected main() entry poin" when no signature of `main` was read.
    pub fn check_main(&mut self)
        ensures
            old(self).function_info.parameters_type_tag_table@.contains_key("main"@) ==> (*final(self)
                == *old(self)),
            !old(self).function_info.parameters_type_tag_table@.contains_key("main"@) ==> {
                &&& final(self).same_but_errors(old(self))
                &&& final(self).reported(
                    old(self),
                    old(self).previous@,
                    "Expected main() entry poin"@,
                )
            },
    {
        if self.function_info.parameters_type_tag_table.get("main").is_none() {
            self.error("Expected main() entry poin");
        }
    }

    /// Reads all of `source` with a scanner of its own, and records the
    /// signature of every function declared in it (see `spec_pre_pass`).
    pub fn pre_pass(&mut self, source: &str)
        requires
            source@.len() <= usize::MAX / 4,
            scan_safe(ScanState { source: source@, start: 0, current: 0, line: 1 }),
        ensures
            ({
                let start = Cursor {
                    previous: old(self).previous@,
                    current: old(self).current@,
                    scan: ScanState { source: source@, start: 0, current: 0, line: 1 },
                };
                let (ps, rs, c, reps) = spec_pre_pass(
                    start,
                    param_types(old(self).function_info.parameters_type_tag_table@),
                    old(self).function_info.return_type_tag_table@,
                );
                &&& final(self).previous@ == c.previous
                &&& final(self).current@ == c.current
                &&& final(self).reports_made(old(self), reps)
                &&& param_types(final(self).function_info.parameters_type_tag_table@) == ps
                &&& final(self).function_info.return_type_tag_table@ == rs
            }),
            final(self).with_function_info_of(old(self)).with_reading_state_of(old(self)) == *old(
                self,
            ),
    {
        let mut scanner = Scanner::new(source);
        let ghost p0 = *self;
        let ghost c0 = self.at(scanner@);
        let ghost all = spec_pre_pass(
            c0,
            param_types(p0.function_info.parameters_type_tag_table@),
            p0.function_info.return_type_tag_table@,
        );
        let ghost mut acc: Seq<Report> = Seq::empty();
        proof {
            assert(acc + all.3 =~= all.3);
        }
        loop
            invariant_except_break
                ({
                    let rest = spec_pre_pass(
                        self.at(scanner@),
                        param_types(self.function_info.parameters_type_tag_table@),
                        self.function_info.return_type_tag_table@,
                    );
                    &&& all.0 == rest.0
                    &&& all.1 == rest.1
                    &&& all.2 == rest.2
                    &&& all.3 == acc + rest.3
                }),
            invariant
                scanner.wf(),
                scan_safe(scanner@),
                self.reports_made(&p0, acc),
                self.with_function_info_of(&p0).with_reading_state_of(&p0) == p0,
                all == spec_pre_pass(
                    c0,
                    param_types(p0.function_info.parameters_type_tag_table@),
                    p0.function_info.return_type_tag_table@,
                ),
            ensures
                all.0 == param_types(self.function_info.parameters_type_tag_table@),
                all.1 == self.function_info.return_type_tag_table@,
                all.2 == self.at(scanner@),
                all.3 == acc,
            decreases cursor_measure(self.at(scanner@)),
        {
            let ghost d0 = self.at(scanner@);
            let ghost q0 = *self;
            let ghost pt = param_types(self.function_info.parameters_type_tag_table@);
            let ghost rt = self.function_info.return_type_tag_table@;
            let ghost (ps, rs, d2, f) = spec_pre_pass_step(d0, pt, rt);
            self.pre_pass_step(&mut scanner);
            proof {
                lemma_reports_compose(q0, *self, p0.painc_mode, p0.had_err, p0.diagnostics@, acc, f);
                scanner.lemma_wf();
            }
            if self.previous.token_type == TokenType::Eof {
                proof {
                    acc = acc + f;
                }
                break;
            }
            proof {
                assert(0 <= cursor_measure(d2) < cursor_measure(d0));
                let r3 = spec_pre_pass(d2, ps, rs);
                assert(acc + (f + r3.3) =~= acc + f + r3.3);
                acc = acc + f;
            }
        }
    }
}

} // verus!
