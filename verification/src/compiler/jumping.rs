//! Leaving a loop (`stop`) and going on with its next round (`skip`).
use vstd::prelude::*;

use crate::chunk::{spec_op_byte, OpCode};
use crate::compiler::parser::{
    cursor_consume, lemma_reported_is_report, lemma_reports_compose, Parser, Report,
};
use crate::scanner::{scan_safe, Scanner, TokenType};

verus! {

/// How many locals a jump out of a loop pops: those declared since the loop
/// began with `count` locals, `local_count` being live now.
pub open spec fn pop_count(count: i32, local_count: i32) -> nat {
    if count < local_count {
        (local_count - count) as nat
    } else {
        0
    }
}

/// `n` `Pop` instructions.
pub open spec fn pops(n: nat) -> Seq<u8> {
    Seq::new(n, |i: int| spec_op_byte(OpCode::Pop))
}

impl Parser {
    /// Emits a `Pop` for each local declared since the loop began with `count`
    /// locals.
    fn pop_loop_locals(&mut self, count: i32)
        ensures
            final(self).chunk().code@ == old(self).chunk().code@ + pops(
                pop_count(count, old(self).compiler.local_count),
            ),
            final(self).chunk().line@ == old(self).chunk().line@ + Seq::new(
                pop_count(count, old(self).compiler.local_count),
                |i: int| old(self).previous.line as u32,
            ),
            final(self).chunk().constants == old(self).chunk().constants,
            final(self).same_but_chunk(old(self)),
    {
        let mut i = count;
        let ghost line = old(self).previous.line as u32;
        let ghost n0 = pop_count(count, old(self).compiler.local_count);
        proof {
            assert(self.chunk().code@ + pops(0) =~= self.chunk().code@);
            assert(self.chunk().line@ + Seq::new(0, |k: int| line) =~= self.chunk().line@);
        }
        while i < self.compiler.local_count
            invariant
                i == count || (count < i && i <= self.compiler.local_count),
                line == old(self).previous.line as u32,
                self.compiler.local_count == old(self).compiler.local_count,
                self.previous == old(self).previous,
                self.chunk().code@ == old(self).chunk().code@ + pops(pop_count(count, i)),
                self.chunk().line@ == old(self).chunk().line@ + Seq::new(
                    pop_count(count, i),
                    |k: int| line,
                ),
                self.chunk().constants == old(self).chunk().constants,
                self.same_but_chunk(old(self)),
            decreases self.compiler.local_count - i,
        {
            let ghost code0 = self.chunk().code@;
            let ghost line0 = self.chunk().line@;
            self.emit_byte(OpCode::Pop.to_byte());
            proof {
                assert(pop_count(count, (i + 1) as i32) == pop_count(count, i) + 1);
                assert(code0.push(spec_op_byte(OpCode::Pop)) =~= old(self).chunk().code@ + pops(
                    pop_count(count, (i + 1) as i32),
                ));
                assert(line0.push(line) =~= old(self).chunk().line@ + Seq::new(
                    pop_count(count, (i + 1) as i32),
                    |k: int| line,
                ));
            }
            i = i + 1;
        }
        proof {
            if count < old(self).compiler.local_count {
                assert(i == old(self).compiler.local_count);
            } else {
                assert(i == count);
            }
        }
    }

    /// `stop;`: jumps out of the innermost loop. It reports a `stop` outside any
    /// loop, reads the `;`, emits a `Jump` with a placeholder offset, pops the
    /// locals declared since the loop began, and records the offset's position
    /// (as a byte) among the loop's exits.
    #[verifier::rlimit(50)]
    pub fn stop_stmt(&mut self, scanner: &mut Scanner)
        requires
            old(scanner).wf(),
            scan_safe(old(scanner)@),
            old(self).control_flow.locals_in@.len() > 0,
        ensures
            final(scanner).wf(),
            scan_safe(final(scanner)@),
            ({
                let c0 = old(self).at(old(scanner)@);
                let no_loop = old(self).control_flow.stops@.len() == 0;
                let e0 = if no_loop {
                    seq![Report { token: c0.previous, message: "'stop' used outside of a loop."@ }]
                } else {
                    Seq::<Report>::empty()
                };
                let (c1, e1) = cursor_consume(
                    c0,
                    TokenType::Semicolon,
                    "Expect ';' after variable declaration."@,
                );
                let line = c1.previous.line as u32;
                let n = pop_count(
                    old(self).control_flow.locals_in@.last(),
                    old(self).compiler.local_count,
                );
                let exit = (old(self).chunk().code@.len() + 1) as u8;
                let stops = old(self).control_flow.stops@;
                &&& final(self).at(final(scanner)@) == c1
                &&& final(self).reports_made(old(self), e0 + e1)
                &&& final(self).chunk().code@ == old(self).chunk().code@ + seq![
                    spec_op_byte(OpCode::Jump),
                    0xffu8,
                    0xffu8,
                ] + pops(n)
                &&& final(self).chunk().line@ == old(self).chunk().line@ + Seq::new(
                    3 + n,
                    |i: int| line,
                )
                &&& final(self).chunk().constants == old(self).chunk().constants
                &&& no_loop ==> final(self).control_flow.stops == old(self).control_flow.stops
                &&& !no_loop ==> final(self).control_flow.stops@.len() == stops.len()
                    && final(self).control_flow.stops@.drop_last() == stops.drop_last()
                    && final(self).control_flow.stops@.last()@ == stops.last()@.push(exit)
                &&& final(self).control_flow.loop_starts == old(self).control_flow.loop_starts
                &&& final(self).control_flow.locals_in == old(self).control_flow.locals_in
            }),
            final(self).with_chunk(old(self).chunk()).with_control_flow_of(
                old(self),
            ).with_reading_state_of(old(self)) == *old(self),
            crate::compiler::parser::cursor_measure(final(self).at(final(scanner)@))
                <= crate::compiler::parser::cursor_measure(old(self).at(old(scanner)@)),
    {
        let ghost p0 = *self;
        let ghost c0 = self.at(scanner@);
        let ghost e0 = if self.control_flow.stops@.len() == 0 {
            seq![Report { token: c0.previous, message: "'stop' used outside of a loop."@ }]
        } else {
            Seq::<Report>::empty()
        };
        if self.control_flow.stops.len() == 0 {
            self.error("'stop' used outside of a loop.");
            proof {
                lemma_reported_is_report(p0, *self, c0.previous, "'stop' used outside of a loop."@);
            }
        }
        let ghost p1 = *self;
        self.consume(TokenType::Semicolon, "Expect ';' after variable declaration.", scanner);
        proof {
            let (c1, e1) = cursor_consume(
                c0,
                TokenType::Semicolon,
                "Expect ';' after variable declaration."@,
            );
            lemma_reports_compose(p1, *self, p0.painc_mode, p0.had_err, p0.diagnostics@, e0, e1);
        }
        let ghost p2 = *self;
        let exit_jump = self.emit_jump(OpCode::Jump.to_byte() as usize);
        let count = self.control_flow.locals_in[self.control_flow.locals_in.len() - 1];
        let ghost p3 = *self;
        self.pop_loop_locals(count);
        proof {
            let n = pop_count(count, p0.compiler.local_count);
            let line = p2.previous.line as u32;
            assert(self.chunk().code@ =~= p0.chunk().code@ + seq![
                spec_op_byte(OpCode::Jump),
                0xffu8,
                0xffu8,
            ] + pops(n));
            assert(self.chunk().line@ =~= p0.chunk().line@ + Seq::new(3 + n, |i: int| line));
        }
        if self.control_flow.stops.len() > 0 {
            match self.control_flow.stops.pop() {
                Some(mut jumps) => {
                    jumps.push(exit_jump as u8);
                    self.control_flow.stops.push(jumps);
                },
                None => {},
            }
            proof {
                assert(self.control_flow.stops@.drop_last() =~= p0.control_flow.stops@.drop_last());
            }
        }
    }

    /// `skip;`: jumps back to the start of the innermost loop. It reads the `;`,
    /// pops the locals declared since the loop began, and emits a `Loop` back to
    /// the loop's start (see `emit_loop`). It needs a loop to be open.
    #[verifier::rlimit(50)]
    pub fn skip_stmt(&mut self, scanner: &mut Scanner)
        requires
            old(scanner).wf(),
            scan_safe(old(scanner)@),
            old(self).control_flow.loop_starts@.len() > 0,
            old(self).control_flow.locals_in@.len() > 0,
            old(self).control_flow.loop_starts@.last() <= old(self).chunk().code@.len() + pop_count(
                old(self).control_flow.locals_in@.last(),
                old(self).compiler.local_count,
            ) + 1,
            old(self).chunk().code@.len() + pop_count(
                old(self).control_flow.locals_in@.last(),
                old(self).compiler.local_count,
            ) + 3 <= usize::MAX,
        ensures
            final(scanner).wf(),
            scan_safe(final(scanner)@),
            ({
                let c0 = old(self).at(old(scanner)@);
                let (c1, e1) = cursor_consume(
                    c0,
                    TokenType::Semicolon,
                    "Expect ';' after variable declaration."@,
                );
                let line = c1.previous.line as u32;
                let n = pop_count(
                    old(self).control_flow.locals_in@.last(),
                    old(self).compiler.local_count,
                );
                let len = old(self).chunk().code@.len() + n;
                let offset = (len + 1 - old(self).control_flow.loop_starts@.last() + 2) as usize;
                let too_far = seq![Report { token: c1.previous, message: "Loop body too large."@ }];
                &&& final(self).at(final(scanner)@) == c1
                &&& offset <= 0xffff ==> final(self).reports_made(old(self), e1)
                &&& offset > 0xffff ==> final(self).reports_made(old(self), e1 + too_far)
                &&& final(self).chunk().code@ == old(self).chunk().code@ + pops(n) + seq![
                    spec_op_byte(OpCode::Loop),
                    ((offset >> 8u64) & 0xff) as u8,
                    (offset & 0xff) as u8,
                ]
                &&& final(self).chunk().line@ == old(self).chunk().line@ + Seq::new(
                    n + 3,
                    |i: int| line,
                )
                &&& final(self).chunk().constants == old(self).chunk().constants
            }),
            final(self).with_chunk(old(self).chunk()).with_reading_state_of(old(self)) == *old(
                self,
            ),
            crate::compiler::parser::cursor_measure(final(self).at(final(scanner)@))
                <= crate::compiler::parser::cursor_measure(old(self).at(old(scanner)@)),
    {
        let ghost p0 = *self;
        let ghost c0 = self.at(scanner@);
        self.consume(TokenType::Semicolon, "Expect ';' after variable declaration.", scanner);
        let ghost p1 = *self;
        let loop_start = self.control_flow.loop_starts[self.control_flow.loop_starts.len() - 1];
        let count = self.control_flow.locals_in[self.control_flow.locals_in.len() - 1];
        self.pop_loop_locals(count);
        let ghost p2 = *self;
        self.emit_loop(loop_start);
        proof {
            let (c1, e1) = cursor_consume(
                c0,
                TokenType::Semicolon,
                "Expect ';' after variable declaration."@,
            );
            let n = pop_count(count, p0.compiler.local_count);
            let line = p1.previous.line as u32;
            let len = p0.chunk().code@.len() + n;
            let offset = (len + 1 - loop_start + 2) as usize;
            if offset > 0xffff {
                lemma_reported_is_report(p2, *self, p2.previous@, "Loop body too large."@);
                lemma_reports_compose(
                    p2,
                    *self,
                    p0.painc_mode,
                    p0.had_err,
                    p0.diagnostics@,
                    e1,
                    seq![Report { token: c1.previous, message: "Loop body too large."@ }],
                );
            }
            assert(self.chunk().code@ =~= p0.chunk().code@ + pops(n) + seq![
                spec_op_byte(OpCode::Loop),
                ((offset >> 8u64) & 0xff) as u8,
                (offset & 0xff) as u8,
            ]);
            assert(self.chunk().line@ =~= p0.chunk().line@ + Seq::new(n + 3, |i: int| line));
        }
    }
}

} // verus!
