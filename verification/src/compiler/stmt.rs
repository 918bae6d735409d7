//! Statements and whole programs.
use vstd::prelude::*;

use crate::chunk::{spec_op_byte, Chunk, OpCode};
use crate::debug::{spec_disassemble, Shown};
use crate::compiler::jumping::pop_count;
use crate::compiler::parser::{Compiler, FunctionType};
use crate::compiler::type_safety::TypeTag;
use crate::text::{join3, string_from};
use crate::value::Value;
use crate::compiler::expr::{
    code_kept_from, kept_up, lemma_kept_locals_grown, lemma_kept_patch, lemma_kept_trans, scoped,
};
use crate::compiler::emit::{jump_dest, lemma_patched_dest, lemma_two_bytes, loop_dest, patched_code};
use crate::compiler::parser::{
    cursor_advance, cursor_consume, cursor_measure, lemma_advanced_cursor, lemma_reported_is_report,
    lemma_reports_compose, lemma_skip_errors_safe, sync_stop, Cursor, Parser, Report,
};
use crate::compiler::prepass::{param_types, spec_pre_pass};
use crate::scanner::{scan_safe, ScanState, Scanner, TokenType};

verus! {

/// The layout `if` gives `code`, which it started at length `start`: the
/// condition's code up to `m`, then `JumpIfFalse` at `m` landing after the
/// then-branch's trailing `Jump` at `n`, the `Pop` of the condition at `m + 3`,
/// the then-branch, `Jump` at `n` landing at the end of the code, and the `Pop`
/// of the condition at `n + 3` before the else-branch. Bytes below 257 are left
/// out: a `stop`'s jump, kept as one byte, may be patched there.
pub open spec fn if_layout(code: Seq<u8>, start: int, m: int, n: int) -> bool {
    &&& start <= m
    &&& m + 4 <= n
    &&& n + 4 <= code.len()
    &&& 257 <= m ==> code[m] == spec_op_byte(OpCode::JumpIfFalse)
    &&& 257 <= m + 1 && n - m <= 0xffff ==> jump_dest(code, m) == n + 3
    &&& 257 <= m + 3 ==> code[m + 3] == spec_op_byte(OpCode::Pop)
    &&& 257 <= n ==> code[n] == spec_op_byte(OpCode::Jump)
    &&& 257 <= n + 1 && code.len() - n - 3 <= 0xffff ==> jump_dest(code, n) == code.len()
    &&& 257 <= n + 3 ==> code[n + 3] == spec_op_byte(OpCode::Pop)
}

/// The layout `while` gives `code`, which it started at length `start`: the
/// condition's code from `start` up to `m`, `JumpIfFalse` at `m` landing at the
/// last byte (the `Pop` after the loop), the `Pop` of the condition at `m + 3`,
/// the body, and, before that last `Pop`, a `Loop` landing back at `start`, the
/// condition. Bytes below 257 are left out (see `if_layout`).
pub open spec fn while_layout(code: Seq<u8>, start: int, m: int) -> bool {
    let l = code.len() - 4;
    &&& start <= m
    &&& m + 4 <= l
    &&& 257 <= m ==> code[m] == spec_op_byte(OpCode::JumpIfFalse)
    &&& 257 <= m + 1 && l - m <= 0xffff ==> jump_dest(code, m) == code.len() - 1
    &&& 257 <= m + 3 ==> code[m + 3] == spec_op_byte(OpCode::Pop)
    &&& 257 <= l ==> code[l] == spec_op_byte(OpCode::Loop)
    &&& 257 <= l + 1 && l + 3 - start <= 0xffff ==> loop_dest(code, l) == start
    &&& 257 <= l + 3 ==> code[l + 3] == spec_op_byte(OpCode::Pop)
}

/// Law of `if`: the condition is tested by a conditional jump, not an
/// unconditional one; when the condition is false it lands just after the
/// then-branch and its trailing `Jump`, and that `Jump` lands at the end of the
/// statement, as the disassembler reads them. (Stated where the bytes cannot be
/// reached by a `stop`'s one-byte patch and the distances fit in 16 bits.)
pub proof fn law_if_jumps(chunk: Chunk, start: int, m: int, n: int)
    requires
        if_layout(chunk.code@, start, m, n),
        257 <= m,
        n - m <= 0xffff,
        chunk.code@.len() - n - 3 <= 0xffff,
    ensures
        start <= m < n,
        chunk.code@[m] == spec_op_byte(OpCode::JumpIfFalse),
        chunk.code@[m] != spec_op_byte(OpCode::Jump),
        spec_disassemble(chunk, m).shown == Shown::Jump(OpCode::JumpIfFalse, (n + 3) as i64),
        chunk.code@[m + 3] == spec_op_byte(OpCode::Pop),
        chunk.code@[n] == spec_op_byte(OpCode::Jump),
        spec_disassemble(chunk, n).shown == Shown::Jump(
            OpCode::JumpIfFalse,
            chunk.code@.len() as i64,
        ),
        chunk.code@[n + 3] == spec_op_byte(OpCode::Pop),
{
}

/// Law of `while`: the condition starts where the statement starts; a false
/// condition leaves the loop by a conditional jump to the `Pop` that ends the
/// statement; the body is followed by a `Loop` back to the condition, so the
/// body runs again while the condition holds. (Stated as `law_if_jumps` is.)
pub proof fn law_while_loops(chunk: Chunk, start: int, m: int)
    requires
        while_layout(chunk.code@, start, m),
        257 <= m,
        chunk.code@.len() - 4 - m <= 0xffff,
        chunk.code@.len() - 1 - start <= 0xffff,
    ensures
        start <= m < chunk.code@.len() - 4,
        chunk.code@[m] == spec_op_byte(OpCode::JumpIfFalse),
        spec_disassemble(chunk, m).shown == Shown::Jump(
            OpCode::JumpIfFalse,
            (chunk.code@.len() - 1) as i64,
        ),
        chunk.code@[chunk.code@.len() - 4] == spec_op_byte(OpCode::Loop),
        spec_disassemble(chunk, chunk.code@.len() - 4).shown == Shown::Jump(
            OpCode::Loop,
            start as i64,
        ),
        chunk.code@[chunk.code@.len() - 1] == spec_op_byte(OpCode::Pop),
{
}

/// Whether a token of kind `tt` starts a statement other than an expression
/// statement.
pub open spec fn starts_statement(tt: TokenType) -> bool {
    ||| tt == TokenType::LeftBrace
    ||| tt == TokenType::Println
    ||| tt == TokenType::If
    ||| tt == TokenType::While
    ||| tt == TokenType::Loop
    ||| tt == TokenType::Let
    ||| tt == TokenType::Const
    ||| tt == TokenType::Fn
    ||| tt == TokenType::Stop
    ||| tt == TokenType::Skip
    ||| tt == TokenType::Match
    ||| tt == TokenType::For
    ||| tt == TokenType::Return
}

/// The message for a bare `return;` in a function declared to return `d`.
pub open spec fn missing_return_message(d: TypeTag) -> Seq<char> {
    "Expected ["@ + crate::compiler::type_safety::spec_tag_name(d) + "] found [void]"@
}

impl Parser {
    /// A declaration: a statement, after which error recovery resynchronizes
    /// (see `synchronize`). Unless at the end of the source, it reads a token.
    pub fn declaration(&mut self, scanner: &mut Scanner)
        requires
            old(scanner).wf(),
            scan_safe(old(scanner)@),
            old(self).wf(),
        ensures
            kept_up(*final(self), *final(scanner), *old(self), old(scanner)@),
            old(self).current.token_type != TokenType::Eof ==> cursor_measure(
                final(self).at(final(scanner)@),
            ) < cursor_measure(old(self).at(old(scanner)@)),
            !final(self).painc_mode || sync_stop(
                final(self).previous.token_type,
                final(self).current.token_type,
            ),
        decreases cursor_measure(old(self).at(old(scanner)@)), 8nat,
    {
        self.statement(scanner);
        if self.painc_mode {
            proof {
                scanner.lemma_wf();
                crate::compiler::parser::lemma_sync_stops(self.previous@, self.current@, scanner@);
            }
            self.synchronize(scanner);
        }
    }

    /// A statement: a block, `println`, `if`, `while` or `loop`; any other
    /// statement is an expression statement. Unless at the end of the source, it
    /// reads a token.
    #[verifier::rlimit(60)]
    pub fn statement(&mut self, scanner: &mut Scanner)
        requires
            old(scanner).wf(),
            scan_safe(old(scanner)@),
            old(self).wf(),
        ensures
            kept_up(*final(self), *final(scanner), *old(self), old(scanner)@),
            old(self).current.token_type != TokenType::Eof ==> cursor_measure(
                final(self).at(final(scanner)@),
            ) < cursor_measure(old(self).at(old(scanner)@)),
            ({
                let tt = old(self).current.token_type;
                let code = final(self).chunk().code@;
                &&& tt == TokenType::Println && old(self).compiler.scope_depth != 0 ==> code.len()
                    >= 1 && code.last() == spec_op_byte(OpCode::Println)
                &&& tt == TokenType::Return && old(
                    self,
                ).function_info.return_type_tag_table@.contains_key(
                    old(self).compiler.function.function.name@,
                ) ==> final(self).compiler.has_returned && code.len() >= 1 && code.last()
                    == spec_op_byte(OpCode::Return)
                &&& !starts_statement(tt) ==> code.len() >= 1 && code.last() == spec_op_byte(
                    OpCode::Pop,
                )
                &&& (tt == TokenType::If || tt == TokenType::While || tt == TokenType::Match || tt
                    == TokenType::For) && old(self).compiler.scope_depth <= i32::MAX - 3
                    ==> old(self).chunk().code@.len() < code.len()
                &&& tt == TokenType::LeftBrace && old(self).compiler.scope_depth < i32::MAX
                    && scoped(*old(self)) ==> final(self).compiler.locals@ == old(self).compiler.locals@
                &&& tt == TokenType::Let && old(self).compiler.scope_depth > 0 && old(
                    self,
                ).compiler.locals@.len() + 2 < i32::MAX && old(
                    self,
                ).chunk().constants.values@.len() < usize::MAX - 1 ==> {
                    &&& final(self).compiler.locals@.len() == old(self).compiler.locals@.len() + 1
                    &&& final(self).compiler.locals@.drop_last() == old(self).compiler.locals@
                    &&& final(self).compiler.locals@.last().depth == old(
                        self,
                    ).compiler.scope_depth
                }
            }),
        decreases cursor_measure(old(self).at(old(scanner)@)), 7nat,
    {
        let token = self.current.token_type;
        proof {
            scanner.lemma_wf();
        }
        match token {
            TokenType::LeftBrace => {
                self.match_consume(&token, scanner);
                proof {
                    scanner.lemma_wf();
                }
                if self.compiler.scope_depth < i32::MAX {
                    let ghost outer = self.compiler.locals@;
                    let ghost depth = self.compiler.scope_depth as int;
                    self.begin_scope();
                    self.block(scanner);
                    proof {
                        if scoped(*old(self)) {
                            lemma_kept_locals_grown(outer, self.compiler.locals@, depth);
                        }
                    }
                    self.end_scope();
                } else {
                    self.error("Too many nested blocks.");
                    self.block(scanner);
                }
            },
            TokenType::Println => {
                self.match_consume(&token, scanner);
                proof {
                    scanner.lemma_wf();
                }
                self.println_statement(scanner);
            },
            TokenType::If => {
                self.match_consume(&token, scanner);
                proof {
                    scanner.lemma_wf();
                }
                self.if_stmt(scanner);
            },
            TokenType::While => {
                self.match_consume(&token, scanner);
                proof {
                    scanner.lemma_wf();
                }
                self.while_stmt(scanner);
            },
            TokenType::Loop => {
                self.match_consume(&token, scanner);
                proof {
                    scanner.lemma_wf();
                }
                self.loop_stmt(scanner);
            },
            TokenType::Let => {
                self.match_consume(&token, scanner);
                self.variable_declaration(scanner);
            },
            TokenType::Const => {
                self.match_consume(&token, scanner);
                self.const_declaration(scanner);
            },
            TokenType::Fn => {
                self.match_consume(&token, scanner);
                proof {
                    scanner.lemma_wf();
                }
                self.fn_declaration(scanner);
            },
            TokenType::Stop => {
                self.match_consume(&token, scanner);
                if self.control_flow.locals_in.len() > 0 {
                    self.stop_stmt(scanner);
                } else {
                    self.error("'stop' used outside of a loop.");
                }
            },
            TokenType::Skip => {
                self.match_consume(&token, scanner);
                self.guarded_skip(scanner);
            },
            TokenType::Match => {
                self.match_consume(&token, scanner);
                proof {
                    scanner.lemma_wf();
                }
                self.match_stmt(scanner);
            },
            TokenType::For => {
                self.match_consume(&token, scanner);
                proof {
                    scanner.lemma_wf();
                }
                self.for_stmt(scanner);
            },
            TokenType::Return => {
                self.match_consume(&token, scanner);
                self.return_stmt(scanner);
            },
            _ => self.expression_statement(scanner),
        }
    }

    /// `skip;` where a loop is open (see `skip_stmt`); outside any loop it is
    /// reported.
    fn guarded_skip(&mut self, scanner: &mut Scanner)
        requires
            old(scanner).wf(),
            scan_safe(old(scanner)@),
            old(self).wf(),
        ensures
            kept_up(*final(self), *final(scanner), *old(self), old(scanner)@),
    {
        if self.control_flow.loop_starts.len() == 0 || self.control_flow.locals_in.len() == 0 {
            self.error("'skip' used outside of a loop.");
            return ;
        }
        let start = self.control_flow.loop_starts[self.control_flow.loop_starts.len() - 1];
        let count = self.control_flow.locals_in[self.control_flow.locals_in.len() - 1];
        let len = self.compiler.function.function.chunk.code.len();
        let n: usize = if count < self.compiler.local_count {
            (self.compiler.local_count as i64 - count as i64) as usize
        } else {
            0
        };
        if len < usize::MAX / 2 && n < usize::MAX / 4 && start <= len + n + 1 {
            assert(n == pop_count(count, self.compiler.local_count));
            self.skip_stmt(scanner);
        } else {
            self.error("'skip' used outside of a loop.");
        }
    }

    /// The declarations up to the closing `}`, which is then read.
    pub fn block(&mut self, scanner: &mut Scanner)
        requires
            old(scanner).wf(),
            scan_safe(old(scanner)@),
            old(self).wf(),
        ensures
            kept_up(*final(self), *final(scanner), *old(self), old(scanner)@),
            final(self).previous.token_type == TokenType::RightBrace || final(self).painc_mode,
        decreases cursor_measure(old(self).at(old(scanner)@)), 9nat,
    {
        while !self.check(&TokenType::RightBrace) && !self.check(&TokenType::Eof)
            invariant
                kept_up(*self, *scanner, *old(self), old(scanner)@),
            decreases cursor_measure(self.at(scanner@)),
        {
            proof {
                scanner.lemma_wf();
            }
            self.declaration(scanner);
            proof {
                scanner.lemma_wf();
            }
        }
        self.consume(TokenType::RightBrace, "Expect '}' after block.", scanner);
    }

    /// An expression whose value is dropped: the expression, `;`, and `Pop`.
    pub fn expression_statement(&mut self, scanner: &mut Scanner)
        requires
            old(scanner).wf(),
            scan_safe(old(scanner)@),
            old(self).wf(),
        ensures
            kept_up(*final(self), *final(scanner), *old(self), old(scanner)@),
            old(self).current.token_type != TokenType::Eof ==> cursor_measure(
                final(self).at(final(scanner)@),
            ) < cursor_measure(old(self).at(old(scanner)@)),
            final(self).chunk().code@.len() >= 1,
            final(self).chunk().code@.last() == spec_op_byte(OpCode::Pop),
        decreases cursor_measure(old(self).at(old(scanner)@)), 6nat,
    {
        self.expression(scanner);
        self.consume(TokenType::Semicolon, "Expect ';' after value.", scanner);
        self.emit_byte(OpCode::Pop.to_byte());
    }

    /// `println(expression);`, only inside a function's body: an `Opt` value is
    /// reported; emits `Println`.
    pub fn println_statement(&mut self, scanner: &mut Scanner)
        requires
            old(scanner).wf(),
            scan_safe(old(scanner)@),
            old(self).wf(),
        ensures
            kept_up(*final(self), *final(scanner), *old(self), old(scanner)@),
            old(self).compiler.scope_depth == 0 ==> {
                &&& final(self).same_but_errors(old(self))
                &&& final(self).reported(
                    old(self),
                    old(self).previous@,
                    "Statement must be insaid a fn body"@,
                )
                &&& final(scanner)@ == old(scanner)@
            },
            old(self).compiler.scope_depth != 0 ==> final(self).chunk().code@.len() >= 1
                && final(self).chunk().code@.last() == spec_op_byte(OpCode::Println),
        decreases cursor_measure(old(self).at(old(scanner)@)), 6nat,
    {
        if self.compiler.scope_depth == 0 {
            self.error("Statement must be insaid a fn body");
            return ;
        }
        self.consume(TokenType::LeftParen, "Expect '(' before value.", scanner);
        self.expression(scanner);
        let typetag = match self.type_tag.pop() {
            Some(t) => t,
            None => crate::compiler::type_safety::TypeTag::Void,
        };
        if typetag.is_opt() {
            self.error("'Opt' is not implemented for 'Println()'");
        }
        self.consume(TokenType::RigtParen, "Expect ')' after value.", scanner);
        self.consume(TokenType::Semicolon, "Expect ';' at the end of the statement.", scanner);
        self.emit_byte(OpCode::Println.to_byte());
    }

    /// Patches the jump whose offset bytes stand at `offset`, when they lie
    /// within the code (see `patch_jump`).
    pub(crate) fn patch_if_within(&mut self, offset: usize)
        ensures
            final(self).with_chunk(old(self).chunk()) == *old(self),
            final(self).chunk().code@.len() == old(self).chunk().code@.len(),
            final(self).chunk().code@ == if offset + 2 <= old(self).chunk().code@.len() {
                crate::compiler::emit::patched_code(old(self).chunk().code@, offset as int)
            } else {
                old(self).chunk().code@
            },
    {
        if offset <= self.compiler.function.function.chunk.code.len() && 2
            <= self.compiler.function.function.chunk.code.len() - offset {
            self.patch_jump(offset);
        }
    }

    /// `if condition statement [else statement]`: a `JumpIfFalse` over the
    /// branch, a `Jump` over the `else` branch, each jump patched to its target.
    #[verifier::rlimit(80)]
    pub fn if_stmt(&mut self, scanner: &mut Scanner)
        requires
            old(scanner).wf(),
            scan_safe(old(scanner)@),
            old(self).wf(),
        ensures
            kept_up(*final(self), *final(scanner), *old(self), old(scanner)@),
            old(self).compiler.scope_depth <= i32::MAX - 3 ==> old(self).chunk().code@.len()
                < final(self).chunk().code@.len(),
            exists|m: int, n: int|
                #![trigger if_layout(final(self).chunk().code@, old(self).chunk().code@.len() as int, m, n)]
                if_layout(final(self).chunk().code@, old(self).chunk().code@.len() as int, m, n),
        decreases cursor_measure(old(self).at(old(scanner)@)), 8nat,
    {
        self.expression(scanner);
        let ghost c1 = self.chunk().code@;
        let then_jump = self.emit_jump(OpCode::JumpIfFalse.to_byte() as usize);
        self.emit_byte(OpCode::Pop.to_byte());
        let ghost c3 = self.chunk().code@;
        proof {
            scanner.lemma_wf();
        }
        self.statement(scanner);
        let ghost c4 = self.chunk().code@;
        let else_jump = self.emit_jump(OpCode::Jump.to_byte() as usize);
        let ghost c5 = self.chunk().code@;
        self.patch_if_within(then_jump);
        let ghost c6 = self.chunk().code@;
        self.emit_byte(OpCode::Pop.to_byte());
        let ghost c7 = self.chunk().code@;
        proof {
            scanner.lemma_wf();
        }
        if self.match_consume(&TokenType::Else, scanner) {
            proof {
                scanner.lemma_wf();
            }
            if self.match_consume(&TokenType::If, scanner) {
                proof {
                    scanner.lemma_wf();
                }
                self.if_stmt(scanner);
            } else {
                self.statement(scanner);
            }
        }
        let ghost c8 = self.chunk().code@;
        self.patch_if_within(else_jump);
        proof {
            let f = self.chunk().code@;
            let m = c1.len() as int;
            let n = c4.len() as int;
            assert(c3[m] == spec_op_byte(OpCode::JumpIfFalse));
            assert(c3[m + 3] == spec_op_byte(OpCode::Pop));
            assert(c5[n] == spec_op_byte(OpCode::Jump));
            assert(c6 == patched_code(c5, m + 1));
            if n - m <= 0xffff {
                lemma_patched_dest(c5, m + 1);
            }
            assert(c7 == c6.push(spec_op_byte(OpCode::Pop)));
            assert(f == patched_code(c8, n + 1));
            if c8.len() - n - 3 <= 0xffff {
                lemma_patched_dest(c8, n + 1);
            }
            if 257 <= m {
                assert(c4[m] == c3[m]);
                assert(c8[m] == c7[m]);
            }
            if 257 <= m + 3 {
                assert(c4[m + 3] == c3[m + 3]);
                assert(c8[m + 3] == c7[m + 3]);
            }
            if 257 <= m + 1 {
                assert(c8[m + 1] == c7[m + 1]);
                assert(c8[m + 2] == c7[m + 2]);
            }
            if 257 <= n {
                assert(c8[n] == c7[n]);
            }
            if 257 <= n + 3 {
                assert(c8[n + 3] == c7[n + 3]);
            }
            assert(if_layout(f, old(self).chunk().code@.len() as int, m, n));
        }
    }

    /// Patches the jumps of the `stop`s of the loop that ends here.
    fn patch_stops(&mut self, stops: Vec<u8>)
        ensures
            final(self).with_chunk(old(self).chunk()) == *old(self),
            final(self).chunk().code@.len() == old(self).chunk().code@.len(),
            code_kept_from(old(self).chunk().code@, final(self).chunk().code@, 257),
    {
        let mut i: usize = 0;
        while i < stops.len()
            invariant
                self.with_chunk(old(self).chunk()) == *old(self),
                self.chunk().code@.len() == old(self).chunk().code@.len(),
                code_kept_from(old(self).chunk().code@, self.chunk().code@, 257),
            decreases stops.len() - i,
        {
            self.patch_if_within(stops[i] as usize);
            i = i + 1;
        }
    }

    /// `while condition statement`: the loop records its start and collects the
    /// jumps of its `stop`s, which are patched to after the loop.
    pub fn while_stmt(&mut self, scanner: &mut Scanner)
        requires
            old(scanner).wf(),
            scan_safe(old(scanner)@),
            old(self).wf(),
        ensures
            kept_up(*final(self), *final(scanner), *old(self), old(scanner)@),
            old(self).compiler.scope_depth <= i32::MAX - 3 ==> old(self).chunk().code@.len()
                < final(self).chunk().code@.len(),
            final(self).chunk().code@.len() < usize::MAX - 8 ==> exists|m: int|
                #![trigger while_layout(final(self).chunk().code@, old(self).chunk().code@.len() as int, m)]
                while_layout(final(self).chunk().code@, old(self).chunk().code@.len() as int, m),
        decreases cursor_measure(old(self).at(old(scanner)@)), 8nat,
    {
        let loop_start = self.compiler.function.function.chunk.code.len();
        self.control_flow.loop_starts.push(loop_start);
        self.control_flow.stops.push(Vec::new());
        self.expression(scanner);
        let ghost c1 = self.chunk().code@;
        let exit_jump = self.emit_jump(OpCode::JumpIfFalse.to_byte() as usize);
        self.emit_byte(OpCode::Pop.to_byte());
        let ghost c3 = self.chunk().code@;
        proof {
            scanner.lemma_wf();
        }
        self.statement(scanner);
        let ghost c4 = self.chunk().code@;
        self.loop_back(loop_start);
        let ghost c5 = self.chunk().code@;
        self.patch_if_within(exit_jump);
        let ghost c6 = self.chunk().code@;
        self.emit_byte(OpCode::Pop.to_byte());
        let ghost c7 = self.chunk().code@;
        self.control_flow.loop_starts.pop();
        match self.control_flow.stops.pop() {
            Some(stops) => self.patch_stops(stops),
            None => {},
        }
        proof {
            let f = self.chunk().code@;
            let m = c1.len() as int;
            let l = c4.len() as int;
            if f.len() < usize::MAX - 8 {
                assert(c5.len() == l + 3);
                assert(c5[l] == spec_op_byte(OpCode::Loop));
                assert(c6 == patched_code(c5, m + 1));
                if l - m <= 0xffff {
                    lemma_patched_dest(c5, m + 1);
                }
                assert(c7 == c6.push(spec_op_byte(OpCode::Pop)));
                assert(f.len() == l + 4);
                assert(c3[m] == spec_op_byte(OpCode::JumpIfFalse));
                assert(c3[m + 3] == spec_op_byte(OpCode::Pop));
                if 257 <= m {
                    assert(c4[m] == c3[m]);
                    assert(c5[m] == c4[m]);
                    assert(f[m] == c7[m]);
                }
                if 257 <= m + 3 {
                    assert(c4[m + 3] == c3[m + 3]);
                    assert(c5[m + 3] == c4[m + 3]);
                    assert(f[m + 3] == c7[m + 3]);
                }
                if 257 <= m + 1 {
                    assert(f[m + 1] == c7[m + 1]);
                    assert(f[m + 2] == c7[m + 2]);
                }
                if 257 <= l {
                    assert(f[l] == c7[l]);
                    assert(f[l + 1] == c7[l + 1]);
                    assert(f[l + 2] == c7[l + 2]);
                    assert(c6[l] == c5[l]);
                    assert(c6[l + 1] == c5[l + 1]);
                    assert(c6[l + 2] == c5[l + 2]);
                }
                assert(f[l + 3] == c7[l + 3] || l + 3 < 257);
                assert(while_layout(f, old(self).chunk().code@.len() as int, m));
            }
        }
    }

    /// `loop statement`: as `while`, with no condition; the loop also records how
    /// many locals were live when it began.
    pub fn loop_stmt(&mut self, scanner: &mut Scanner)
        requires
            old(scanner).wf(),
            scan_safe(old(scanner)@),
            old(self).wf(),
        ensures
            kept_up(*final(self), *final(scanner), *old(self), old(scanner)@),
            old(self).chunk().code@.len() < usize::MAX - 4 ==> old(self).chunk().code@.len()
                < final(self).chunk().code@.len(),
        decreases cursor_measure(old(self).at(old(scanner)@)), 8nat,
    {
        let loop_start = self.compiler.function.function.chunk.code.len();
        self.control_flow.loop_starts.push(loop_start);
        self.control_flow.stops.push(Vec::new());
        self.control_flow.locals_in.push(self.compiler.local_count);
        proof {
            scanner.lemma_wf();
        }
        self.statement(scanner);
        self.loop_back(loop_start);
        self.control_flow.loop_starts.pop();
        self.control_flow.locals_in.pop();
        match self.control_flow.stops.pop() {
            Some(stops) => self.patch_stops(stops),
            None => {},
        }
    }

    /// Emits a `Loop` back to `loop_start` (see `emit_loop`) when the code is
    /// not near the largest size a chunk can have.
    fn loop_back(&mut self, loop_start: usize)
        ensures
            final(self).with_chunk(old(self).chunk()).same_but_errors(old(self)),
            old(self).chunk().code@.len() <= final(self).chunk().code@.len(),
            old(self).chunk().code@.len() < usize::MAX - 3 && loop_start <= old(
                self,
            ).chunk().code@.len() + 1 ==> final(self).chunk().code@.len() == old(
                self,
            ).chunk().code@.len() + 3,
            code_kept_from(old(self).chunk().code@, final(self).chunk().code@, 0),
            old(self).chunk().code@.len() < usize::MAX - 3 && loop_start <= old(
                self,
            ).chunk().code@.len() + 1 ==> {
                let at = old(self).chunk().code@.len() as int;
                &&& final(self).chunk().code@[at] == spec_op_byte(OpCode::Loop)
                &&& at + 3 - loop_start <= 0xffff ==> loop_dest(final(self).chunk().code@, at)
                    == loop_start
            },
    {
        let len = self.compiler.function.function.chunk.code.len();
        if len < usize::MAX - 3 && loop_start <= len + 1 {
            self.emit_loop(loop_start);
            proof {
                if len + 3 - loop_start <= 0xffff {
                    lemma_two_bytes((len + 1 - loop_start + 2) as usize);
                }
            }
        }
    }

    /// Compiles the program `source`: reads the signatures of its functions,
    /// checks for `main`, then compiles its declarations to the end and ends the
    /// function. Returns whether no error was reported while compiling the
    /// declarations.
    pub fn compile(&mut self, source: &str) -> (r: bool)
        requires
            source@.len() <= usize::MAX / 4,
            scan_safe(ScanState { source: source@, start: 0, current: 0, line: 1 }),
            old(self).wf(),
        ensures
            r == !final(self).had_err,
            final(self).wf(),
            final(self).chunk().code@.len() >= 2,
            final(self).chunk().code@.last() == spec_op_byte(OpCode::Return),
            final(self).chunk().code@[final(self).chunk().code@.len() - 2] == spec_op_byte(
                OpCode::Return,
            ),
            ({
                let start = Cursor {
                    previous: old(self).previous@,
                    current: old(self).current@,
                    scan: ScanState { source: source@, start: 0, current: 0, line: 1 },
                };
                let (ps, rs, c, reps) = spec_pre_pass(
                    start,
                    param_types(old(self).function_info.parameters_type_tag_table@),
                    old(self).function_info.return_type_tag_table@,
                );
                &&& param_types(final(self).function_info.parameters_type_tag_table@) == ps
            }),
            final(self).previous.token_type == TokenType::Eof,
            final(self).compiler.scope_depth == old(self).compiler.scope_depth,
            final(self).compiler_stack@ == old(self).compiler_stack@,
    {
        self.pre_pass(source);
        self.check_main();
        let ghost tables = self.function_info;
        self.had_err = false;
        self.painc_mode = false;
        let mut scanner = Scanner::new(source);
        proof {
            scanner.lemma_wf();
            lemma_skip_errors_safe(scanner@);
        }
        self.advance(&mut scanner);
        loop
            invariant
                scanner.wf(),
                scan_safe(scanner@),
                self.wf(),
                self.function_info.parameters_type_tag_table == tables.parameters_type_tag_table,
                self.compiler.scope_depth == old(self).compiler.scope_depth,
                self.compiler_stack@ == old(self).compiler_stack@,
            ensures
                self.previous.token_type == TokenType::Eof,
            decreases cursor_measure(self.at(scanner@)),
        {
            proof {
                scanner.lemma_wf();
            }
            if self.match_consume(&TokenType::Eof, &mut scanner) {
                break;
            }
            self.declaration(&mut scanner);
            proof {
                scanner.lemma_wf();
            }
        }
        self.end_compiler();
        !self.had_err
    }

    /// `return;` or `return expression;`: the value's type is checked against
    /// the declared return type of the function being compiled (a missing
    /// declaration is reported); emits the value (`void` when there is none)
    /// and `Return`.
    pub fn return_stmt(&mut self, scanner: &mut Scanner)
        requires
            old(scanner).wf(),
            scan_safe(old(scanner)@),
            old(self).wf(),
        ensures
            kept_up(*final(self), *final(scanner), *old(self), old(scanner)@),
            ({
                let declared = old(self).function_info.return_type_tag_table@.get(
                    old(self).compiler.function.function.name@,
                );
                let (c1, reps) = cursor_advance(old(self).at(old(scanner)@));
                match declared {
                    Option::None => {
                        &&& final(self).same_but_errors(old(self))
                        &&& final(self).reported(
                            old(self),
                            old(self).previous@,
                            "Function name was not found in the table!."@,
                        )
                        &&& final(scanner)@ == old(scanner)@
                    },
                    Option::Some(d) => {
                        &&& final(self).compiler.has_returned
                        &&& final(self).chunk().code@.len() >= 1
                        &&& final(self).chunk().code@.last() == spec_op_byte(OpCode::Return)
                        &&& old(self).current.token_type == TokenType::Semicolon ==> {
                            &&& final(self).chunk().code@ == old(self).chunk().code@.push(
                                spec_op_byte(OpCode::Void),
                            ).push(spec_op_byte(OpCode::Return))
                            &&& final(self).at(final(scanner)@) == c1
                            &&& final(self).reports_made(
                                old(self),
                                reps + if d == TypeTag::Void {
                                    Seq::<Report>::empty()
                                } else {
                                    seq![Report { token: c1.previous, message: missing_return_message(d) }]
                                },
                            )
                        }
                    },
                }
            }),
    {
        let expected = match self.function_info.return_type_tag_table.get(
            self.compiler.function.function.name.as_str(),
        ) {
            Some(t) => t.clone(),
            None => {
                self.error("Function name was not found in the table!.");
                return ;
            },
        };
        proof {
            scanner.lemma_wf();
        }
        if self.match_consume(&TokenType::Semicolon, scanner) {
            let ghost mid = *self;
            let ghost reps = cursor_advance(old(self).at(old(scanner)@)).1;
            proof {
                lemma_advanced_cursor(*old(self), mid, old(scanner)@, scanner@);
            }
            if expected != TypeTag::Void {
                let e = expected.to_string();
                let m = join3("Expected [", e.as_str(), "] found [void]");
                self.error(m.as_str());
                proof {
                    let rep = seq![Report { token: mid.previous@, message: missing_return_message(expected) }];
                    assert(m@ =~= missing_return_message(expected));
                    lemma_reported_is_report(mid, *self, mid.previous@, m@);
                    lemma_reports_compose(mid, *self, old(self).painc_mode, old(self).had_err, old(self).diagnostics@, reps, rep);
                }
            } else {
                assert(reps + Seq::<Report>::empty() =~= reps);
            }
            self.emit_byte(OpCode::Void.to_byte());
            self.emit_byte(OpCode::Return.to_byte());
        } else {
            self.expression(scanner);
            let type_tag = match self.type_tag.pop() {
                Some(t) => t,
                None => TypeTag::Void,
            };
            if expected != type_tag {
                let e = expected.to_string();
                let f = type_tag.to_string();
                let head = join3("Expected [", e.as_str(), "] found [");
                let m = join3(head.as_str(), f.as_str(), "]!. ");
                self.error(m.as_str());
            }
            self.emit_byte(OpCode::Return.to_byte());
            self.consume(
                TokenType::Semicolon,
                "Expect ';' at the end of the return statement",
                scanner,
            );
        }
        self.compiler.has_returned = true;
    }

    /// `for (let ...; condition; increment) statement`: the declaration, the
    /// condition with a `JumpIfFalse` out of the loop, the increment (jumped over
    /// the first time and looping back to the condition), then the body looping
    /// back to the increment; the loop's `stop`s are patched to its end, and the
    /// declared value is popped.
    pub fn for_stmt(&mut self, scanner: &mut Scanner)
        requires
            old(scanner).wf(),
            scan_safe(old(scanner)@),
            old(self).wf(),
        ensures
            kept_up(*final(self), *final(scanner), *old(self), old(scanner)@),
            old(self).compiler.scope_depth <= i32::MAX - 3 ==> old(self).chunk().code@.len()
                < final(self).chunk().code@.len(),
        decreases cursor_measure(old(self).at(old(scanner)@)), 8nat,
    {
        self.consume(TokenType::LeftParen, "Expect '(' at the start of 'for' clauses body", scanner);
        self.consume(TokenType::Let, "Expect 'let' to initialize a clause", scanner);
        self.variable_declaration(scanner);
        let loop_start = self.compiler.function.function.chunk.code.len();
        proof {
            scanner.lemma_wf();
        }
        self.expression(scanner);
        let jump_if_false = self.emit_jump(OpCode::JumpIfFalse.to_byte() as usize);
        self.emit_byte(OpCode::Pop.to_byte());
        self.consume(TokenType::Semicolon, "Expect ';' after a condition clause", scanner);
        let body_jump = self.emit_jump(OpCode::Jump.to_byte() as usize);
        let increment_start = self.compiler.function.function.chunk.code.len();
        proof {
            scanner.lemma_wf();
        }
        self.expression(scanner);
        self.emit_byte(OpCode::Pop.to_byte());
        self.loop_back(loop_start);
        self.patch_if_within(body_jump);
        self.consume(TokenType::RigtParen, "Expect ')' at the end of 'for' clauses body", scanner);
        self.control_flow.loop_starts.push(increment_start);
        self.control_flow.stops.push(Vec::new());
        self.control_flow.locals_in.push(self.compiler.local_count);
        proof {
            scanner.lemma_wf();
        }
        self.statement(scanner);
        self.loop_back(increment_start);
        self.patch_if_within(jump_if_false);
        self.control_flow.loop_starts.pop();
        self.control_flow.locals_in.pop();
        match self.control_flow.stops.pop() {
            Some(stops) => self.patch_stops(stops),
            None => {},
        }
        self.emit_byte(OpCode::Pop.to_byte());
    }

    /// One case of a `match`: `value => { block },` compared with the matched
    /// value (`Dup`, `EqualTo`, `JumpIfFalse` to the next case); the case's type
    /// and the jump to the end of the `match` are collected.
    fn match_case(&mut self, scanner: &mut Scanner, jumps: &mut Vec<usize>, type_tags: &mut Vec<TypeTag>)
        requires
            old(scanner).wf(),
            scan_safe(old(scanner)@),
            old(self).wf(),
            old(self).compiler.scope_depth < i32::MAX,
        ensures
            kept_up(*final(self), *final(scanner), *old(self), old(scanner)@),
            old(self).current.token_type != TokenType::Eof ==> cursor_measure(
                final(self).at(final(scanner)@),
            ) < cursor_measure(old(self).at(old(scanner)@)),
            final(jumps)@.len() == old(jumps)@.len() + 1,
            final(jumps)@.drop_last() == old(jumps)@,
            old(self).chunk().code@.len() <= final(jumps)@.last(),
        decreases cursor_measure(old(self).at(old(scanner)@)), 10nat,
    {
        self.emit_byte(OpCode::Dup.to_byte());
        self.expression(scanner);
        let t = match self.type_tag.pop() {
            Some(t) => t,
            None => TypeTag::Void,
        };
        type_tags.push(t);
        self.emit_byte(OpCode::EqualTo.to_byte());
        let next_jump = self.emit_jump(OpCode::JumpIfFalse.to_byte() as usize);
        self.consume(TokenType::FatArrowLeft, "Expect '=>' after case.", scanner);
        let ghost outer = self.compiler.locals@;
        let ghost depth = self.compiler.scope_depth as int;
        self.begin_scope();
        self.consume(TokenType::LeftBrace, "Expect '{' at the start of the case", scanner);
        self.emit_byte(OpCode::Pop.to_byte());
        self.emit_byte(OpCode::Pop.to_byte());
        proof {
            scanner.lemma_wf();
        }
        self.block(scanner);
        let j = self.emit_jump(OpCode::Jump.to_byte() as usize);
        jumps.push(j);
        self.patch_if_within(next_jump);
        self.emit_byte(OpCode::Pop.to_byte());
        proof {
            if scoped(*old(self)) {
                lemma_kept_locals_grown(outer, self.compiler.locals@, depth);
            }
        }
        self.end_scope();
        self.consume(TokenType::Comma, "Expect ',' at the end of the case's block.", scanner);
    }

    /// `match value { case, ..., _ => { block } }`: each case compares with the
    /// value and runs its block; the default case runs when none matched. Every
    /// case's type is checked against the value's. Cases are read until `_` or
    /// the end of the source.
    #[verifier::rlimit(60)]
    pub fn match_stmt(&mut self, scanner: &mut Scanner)
        requires
            old(scanner).wf(),
            scan_safe(old(scanner)@),
            old(self).wf(),
        ensures
            kept_up(*final(self), *final(scanner), *old(self), old(scanner)@),
            old(self).compiler.scope_depth <= i32::MAX - 3 ==> old(self).chunk().code@.len()
                < final(self).chunk().code@.len(),
        decreases cursor_measure(old(self).at(old(scanner)@)), 11nat,
    {
        if self.compiler.scope_depth > i32::MAX - 3 {
            self.error("Too many nested blocks.");
            return ;
        }
        let mut jumps: Vec<usize> = Vec::new();
        let mut type_tags: Vec<TypeTag> = Vec::new();
        self.expression(scanner);
        let ftype_tag = match self.type_tag.pop() {
            Some(t) => t,
            None => TypeTag::Void,
        };
        let ghost outer = self.compiler.locals@;
        let ghost depth = self.compiler.scope_depth as int;
        self.begin_scope();
        self.consume(TokenType::LeftBrace, "Expect '{' after match body.", scanner);
        proof {
            scanner.lemma_wf();
        }
        self.match_case(scanner, &mut jumps, &mut type_tags);
        while self.current.token_type != TokenType::WildCard && self.current.token_type
            != TokenType::Eof
            invariant
                scanner.wf(),
                scan_safe(scanner@),
                self.wf(),
                self.compiler.scope_depth == old(self).compiler.scope_depth + 1,
                old(self).compiler.scope_depth <= i32::MAX - 3,
                self.compiler_stack@ == old(self).compiler_stack@,
                self.compiler.function.function.name == old(self).compiler.function.function.name,
                self.compiler.function.function.arity == old(self).compiler.function.function.arity,
                self.function_info.parameters_type_tag_table
                    == old(self).function_info.parameters_type_tag_table,
                old(self).chunk().code@.len() <= self.chunk().code@.len(),
                code_kept_from(old(self).chunk().code@, self.chunk().code@, 257),
                forall|k: int|
                    0 <= k < jumps@.len() ==> old(self).chunk().code@.len() <= #[trigger] jumps@[k],
                outer == old(self).compiler.locals@,
                depth == old(self).compiler.scope_depth,
                scoped(*old(self)) ==> scoped(*self) && crate::compiler::expr::locals_grown(
                    outer,
                    self.compiler.locals@,
                    depth + 1,
                ),
                cursor_measure(self.at(scanner@)) <= cursor_measure(old(self).at(old(scanner)@)),
            decreases cursor_measure(self.at(scanner@)),
        {
            proof {
                scanner.lemma_wf();
            }
            let ghost prev = jumps@;
            self.match_case(scanner, &mut jumps, &mut type_tags);
            proof {
                scanner.lemma_wf();
                assert forall|k: int| 0 <= k < jumps@.len() implies old(self).chunk().code@.len()
                    <= #[trigger] jumps@[k] by {
                    if k < prev.len() {
                        assert(jumps@[k] == jumps@.drop_last()[k]);
                    }
                }
            }
        }
        self.consume(TokenType::WildCard, "Expect '_' at the end of the of the match cases.", scanner);
        self.consume(TokenType::FatArrowLeft, "Expect '=>' after a case", scanner);
        let ghost cases = self.compiler.locals@;
        self.begin_scope();
        self.consume(TokenType::LeftBrace, "Expect '{' after a fat arrow", scanner);
        self.emit_byte(OpCode::Pop.to_byte());
        proof {
            scanner.lemma_wf();
        }
        self.block(scanner);
        let j = self.emit_jump(OpCode::Jump.to_byte() as usize);
        jumps.push(j);
        proof {
            if scoped(*old(self)) {
                lemma_kept_locals_grown(cases, self.compiler.locals@, depth + 1);
            }
        }
        self.end_scope();
        self.consume(TokenType::RightBrace, "Excpet '}' at the end of the match body.", scanner);
        proof {
            if scoped(*old(self)) {
                lemma_kept_locals_grown(outer, self.compiler.locals@, depth);
            }
        }
        self.end_scope();
        self.check_case_types(&ftype_tag, &type_tags);
        let ghost before_patch = self.chunk().code@;
        self.patch_all(&jumps, Ghost(old(self).chunk().code@.len() as int));
        assert(code_kept_from(old(self).chunk().code@, self.chunk().code@, 257)) by {
            assert forall|i: int| 257 <= i < old(self).chunk().code@.len() implies self.chunk().code@[i]
                == old(self).chunk().code@[i] by {
                assert(self.chunk().code@[i] == before_patch[i]);
            }
        }
    }

    /// Reports each case type that differs from the matched value's type.
    fn check_case_types(&mut self, ftype_tag: &TypeTag, type_tags: &Vec<TypeTag>)
        ensures
            final(self).with_reading_state_of(old(self)) == *old(self),
            final(self).current == old(self).current,
            final(self).previous == old(self).previous,
    {
        let mut i: usize = 0;
        while i < type_tags.len()
            invariant
                self.with_reading_state_of(old(self)) == *old(self),
                self.current == old(self).current,
                self.previous == old(self).previous,
            decreases type_tags.len() - i,
        {
            if *ftype_tag != type_tags[i] {
                let f = ftype_tag.to_string();
                let t = type_tags[i].to_string();
                let head = join3("Missmatched type expected [", f.as_str(), "] due the value matched on was [");
                let mid = join3(head.as_str(), f.as_str(), "] found [");
                let m = join3(mid.as_str(), t.as_str(), "]");
                self.error(m.as_str());
            }
            i = i + 1;
        }
    }

    /// Patches each of the jumps at `jumps` to the end of the code.
    fn patch_all(&mut self, jumps: &Vec<usize>, Ghost(lo): Ghost<int>)
        requires
            forall|k: int| 0 <= k < jumps@.len() ==> lo <= #[trigger] jumps@[k],
        ensures
            final(self).with_chunk(old(self).chunk()) == *old(self),
            final(self).chunk().code@.len() == old(self).chunk().code@.len(),
            forall|i: int|
                0 <= i < lo && i < old(self).chunk().code@.len()
                    ==> #[trigger] final(self).chunk().code@[i] == old(self).chunk().code@[i],
    {
        let mut k: usize = 0;
        while k < jumps.len()
            invariant
                self.with_chunk(old(self).chunk()) == *old(self),
                self.chunk().code@.len() == old(self).chunk().code@.len(),
                forall|k: int| 0 <= k < jumps@.len() ==> lo <= #[trigger] jumps@[k],
                forall|i: int|
                    0 <= i < lo && i < old(self).chunk().code@.len() ==> #[trigger] self.chunk().code@[i]
                        == old(self).chunk().code@[i],
            decreases jumps.len() - k,
        {
            self.patch_if_within(jumps[k]);
            k = k + 1;
        }
    }

    /// `fn name(parameters) [-> type] { body }`: at the top level the function
    /// is a global (its name a constant, defined with `DefineGlobal`), in a scope
    /// a local; then the function is compiled (see `function`).
    pub fn fn_declaration(&mut self, scanner: &mut Scanner)
        requires
            old(scanner).wf(),
            scan_safe(old(scanner)@),
            old(self).wf(),
        ensures
            kept_up(*final(self), *final(scanner), *old(self), old(scanner)@),
            ({
                let c = cursor_consume(
                    old(self).at(old(scanner)@),
                    TokenType::Identifier,
                    "Expect a functions name"@,
                ).0;
                let n = old(self).chunk().constants.values@.len();
                let locals = old(self).compiler.locals@;
                let code = final(self).chunk().code@;
                let consts = final(self).chunk().constants.values@;
                locals.len() + 2 < i32::MAX && n < usize::MAX - 1 ==> {
                    &&& consts.last() matches Value::Function(f) && f.name@ == c.previous.text
                    &&& old(self).compiler.scope_depth == 0 ==> {
                        &&& code.len() >= 2
                        &&& code.last() == n as u8
                        &&& code[code.len() - 2] == spec_op_byte(OpCode::DefineGlobal)
                        &&& consts[n as int] matches Value::Str(text) && text@ == c.previous.text
                        &&& final(self).compiler.locals == old(self).compiler.locals
                    }
                    &&& old(self).compiler.scope_depth != 0 ==> {
                        &&& final(self).compiler.locals@.len() == locals.len() + 1
                        &&& final(self).compiler.locals@.drop_last() == locals
                        &&& final(self).compiler.locals@.last().name@ == c.previous
                        &&& final(self).compiler.locals@.last().depth == old(
                            self,
                        ).compiler.scope_depth
                    }
                }
            }),
        decreases cursor_measure(old(self).at(old(scanner)@)), 12nat,
    {
        self.consume(TokenType::Identifier, "Expect a functions name", scanner);
        let function_name = self.previous.start.clone();
        if self.compiler.locals.len() + 2 >= i32::MAX as usize
            || self.compiler.function.function.chunk.constants.values.len() >= usize::MAX - 1 {
            self.error("Too many local variables in function.");
            return ;
        }
        let global_slot = if self.compiler.scope_depth == 0 {
            self.declare_variable();
            let token = self.previous.clone();
            Some(self.identifier_constant(&token))
        } else {
            self.declare_variable();
            self.mark_initialized();
            None
        };
        proof {
            scanner.lemma_wf();
        }
        self.function(FunctionType::Function, scanner, function_name.as_str());
        if let Some(x) = global_slot {
            self.emit_bytes(OpCode::DefineGlobal.to_byte(), x);
        }
    }

    /// Compiles a function named `function_name` with a compiler of its own: its
    /// parameters become its first locals, typed by their annotations (more than
    /// 255 are reported), then its body; the compiled function becomes a constant
    /// of the enclosing function, loaded with `Constant`.
    #[verifier::rlimit(80)]
    pub fn function(&mut self, function_type: FunctionType, scanner: &mut Scanner, function_name: &str)
        requires
            old(scanner).wf(),
            scan_safe(old(scanner)@),
            old(self).wf(),
        ensures
            kept_up(*final(self), *final(scanner), *old(self), old(scanner)@),
            old(self).chunk().constants.values@.len() < usize::MAX ==> {
                let consts = old(self).chunk().constants.values@;
                &&& final(self).chunk().code@ == old(self).chunk().code@.push(
                    spec_op_byte(OpCode::Constant),
                ).push(consts.len() as u8)
                &&& final(self).chunk().constants.values@.len() == consts.len() + 1
                &&& final(self).chunk().constants.values@.drop_last() == consts
                &&& final(self).chunk().constants.values@.last() matches Value::Function(f) && {
                    &&& f.name@ == function_name@
                    &&& f.chunk.code@.len() >= 2
                    &&& f.chunk.code@.last() == spec_op_byte(OpCode::Return)
                    &&& f.chunk.code@[f.chunk.code@.len() - 2] == spec_op_byte(OpCode::Return)
                }
            },
            final(self).with_chunk(old(self).chunk()).compiler == old(self).compiler,
        decreases cursor_measure(old(self).at(old(scanner)@)), 10nat,
    {
        let mut enclosing = Compiler::new(function_type);
        std::mem::swap(&mut self.compiler, &mut enclosing);
        self.compiler_stack.push(enclosing);
        self.compiler.function.function.name = string_from(function_name);
        self.begin_scope();
        self.consume(TokenType::LeftParen, "Expect '('  after function name.", scanner);
        if !self.check(&TokenType::RigtParen) {
            loop
                invariant
                    scanner.wf(),
                    scan_safe(scanner@),
                    self.wf(),
                    self.compiler.scope_depth == 1,
                    self.compiler.locals@.len() >= 1,
                    self.compiler_stack@.len() == old(self).compiler_stack@.len() + 1,
                    self.compiler_stack@.drop_last() == old(self).compiler_stack@,
                    self.compiler_stack@.last() == old(self).compiler,
                    self.compiler.function.function.name@ == function_name@,
                    self.function_info.parameters_type_tag_table
                        == old(self).function_info.parameters_type_tag_table,
                    cursor_measure(self.at(scanner@)) <= cursor_measure(old(self).at(old(scanner)@)),
                decreases cursor_measure(self.at(scanner@)),
            {
                if self.compiler.function.function.arity < usize::MAX {
                    self.compiler.function.function.arity = self.compiler.function.function.arity + 1;
                }
                if self.compiler.function.function.arity > 255 {
                    self.error_at_current("Can't have more than 255 parameters");
                }
                if self.compiler.locals.len() + 2 >= i32::MAX as usize
                    || self.compiler.function.function.chunk.constants.values.len() >= usize::MAX - 1 {
                    self.error("Too many local variables in function.");
                    break;
                }
                proof {
                    scanner.lemma_wf();
                }
                self.parse_variable("Expect a parameter's name", scanner);
                self.define_variable();
                self.consume(TokenType::Colon, "Expect ':' after paramters, and a type", scanner);
                proof {
                    scanner.lemma_wf();
                }
                let expected_type = self.annotation_type(scanner);
                match self.compiler.locals.pop() {
                    Some(mut local) => {
                        local.type_tag = expected_type;
                        self.compiler.locals.push(local);
                    },
                    None => {},
                }
                proof {
                    scanner.lemma_wf();
                }
                if !self.match_consume(&TokenType::Comma, scanner) {
                    break;
                }
                proof {
                    scanner.lemma_wf();
                }
            }
        }
        self.consume(TokenType::RigtParen, "Expect ')' after parameters.", scanner);
        proof {
            scanner.lemma_wf();
        }
        if self.match_consume(&TokenType::Arrow, scanner) {
            proof {
                scanner.lemma_wf();
                lemma_skip_errors_safe(scanner@);
            }
            self.advance(scanner);
        }
        self.consume(TokenType::LeftBrace, "Expect '{' before function body.", scanner);
        proof {
            scanner.lemma_wf();
        }
        self.block(scanner);
        self.end_compiler();
        let compiled = crate::value::clone_function(&self.compiler.function.function);
        match self.compiler_stack.pop() {
            Some(c) => {
                self.compiler = c;
            },
            None => {},
        }
        assert(self.compiler_stack@ =~= old(self).compiler_stack@);
        assert(self.chunk() == old(self).chunk());
        if self.compiler.function.function.chunk.constants.values.len() < usize::MAX {
            let function_value = self.make_constant(Value::Function(Box::new(compiled)));
            self.emit_bytes(OpCode::Constant.to_byte(), function_value);
        } else {
            self.error("Too many constants in one chunk.");
        }
    }
}

} // verus!
