//! Declaring variables and constants.
use vstd::prelude::*;

use crate::compiler::parser::{
    cursor_advance, cursor_consume, lemma_reports_compose, lemma_skip_errors_safe, Parser, Report,
};
use crate::compiler::type_safety::TypeTag;
use crate::scanner::{scan_safe, Scanner, TokenType};
use crate::value::Value;

verus! {

impl Parser {
    /// Reads a variable's name, after a `~` that makes it mutable, and declares it
    /// (see `declare_variable`). In a scope it is a local, made mutable as read, and
    /// the result is 0; otherwise its name is added to the constants and the result
    /// is the constant's index (see `identifier_constant`). A missing name is
    /// reported with `error_message`.
    pub fn parse_variable(&mut self, error_message: &str, scanner: &mut Scanner) -> (r: u8)
        requires
            old(scanner).wf(),
            scan_safe(old(scanner)@),
            old(self).wf(),
            old(self).compiler.locals@.len() + 1 < i32::MAX,
            old(self).chunk().constants.values@.len() < usize::MAX,
        ensures
            final(scanner).wf(),
            scan_safe(final(scanner)@),
            final(self).wf(),
            crate::compiler::parser::cursor_measure(final(self).at(final(scanner)@))
                <= crate::compiler::parser::cursor_measure(old(self).at(old(scanner)@)),
            final(self).compiler_stack == old(self).compiler_stack,
            final(self).compiler.function.function.name == old(self).compiler.function.function.name,
            final(self).compiler.function.function.arity == old(self).compiler.function.function.arity,
            final(self).function_info == old(self).function_info,
            ({
                let c0 = old(self).at(old(scanner)@);
                let is_mut = c0.current.token_type == TokenType::Tilde;
                let (c1, e1) = if is_mut {
                    cursor_advance(c0)
                } else {
                    (c0, Seq::<Report>::empty())
                };
                let (c2, e2) = cursor_consume(c1, TokenType::Identifier, error_message@);
                let depth = old(self).compiler.scope_depth;
                let locals = old(self).compiler.locals@;
                let constants = old(self).chunk().constants.values@;
                &&& final(self).at(final(scanner)@) == c2
                &&& final(self).reports_made(old(self), e1 + e2)
                &&& depth != 0 ==> final(self).compiler.locals@.len() == locals.len() + 1
                    && final(self).compiler.locals@.drop_last() == locals
                    && final(self).compiler.locals@.last().name@ == c2.previous
                    && final(self).compiler.locals@.last().depth == -1
                    && final(self).compiler.locals@.last().type_tag == TypeTag::Void
                    && final(self).compiler.locals@.last().is_mut == (depth > 0 && is_mut)
                &&& depth == 0 ==> final(self).compiler.locals == old(self).compiler.locals
                &&& depth > 0 ==> r == 0 && final(self).chunk().constants == old(self).chunk().constants
                &&& depth <= 0 ==> r == constants.len() as u8 && final(self).chunk().constants.values@.len() == constants.len() + 1
                    && final(self).chunk().constants.values@.drop_last() == constants
                    && (final(self).chunk().constants.values@.last() matches Value::Str(text)
                    && text@ == c2.previous.text)
                &&& final(self).chunk().code == old(self).chunk().code
                &&& final(self).chunk().line == old(self).chunk().line
                &&& final(self).compiler.scope_depth == depth
            }),
    {
        let ghost p0 = *self;
        let ghost c0 = self.at(scanner@);
        proof {
            scanner.lemma_wf();
            lemma_skip_errors_safe(scanner@);
        }
        let is_mut = self.match_consume(&TokenType::Tilde, scanner);
        let ghost p1 = *self;
        let ghost (c1, e1) = if is_mut {
            cursor_advance(c0)
        } else {
            (c0, Seq::<Report>::empty())
        };
        self.consume(TokenType::Identifier, error_message, scanner);
        proof {
            let (c2, e2) = cursor_consume(c1, TokenType::Identifier, error_message@);
            lemma_reports_compose(p1, *self, p0.painc_mode, p0.had_err, p0.diagnostics@, e1, e2);
        }
        let ghost p2 = *self;
        self.declare_variable();
        if self.compiler.scope_depth > 0 {
            match self.compiler.locals.pop() {
                Some(mut local) => {
                    local.is_mut = is_mut;
                    self.compiler.locals.push(local);
                },
                None => {},
            }
            proof {
                assert(self.compiler.locals@.drop_last() =~= p0.compiler.locals@);
            }
            return 0;
        }
        let token = self.previous.clone();
        let r = self.identifier_constant(&token);
        proof {
            if p0.compiler.scope_depth != 0 {
                assert(self.compiler.locals@.drop_last() =~= p0.compiler.locals@);
            }
        }
        r
    }

    /// Reads a constant's name and returns it; a missing name is reported with
    /// `error_message` (the text of the token before is returned then).
    pub fn parse_const(&mut self, error_message: &str, scanner: &mut Scanner) -> (r: String)
        requires
            old(scanner).wf(),
            scan_safe(old(scanner)@),
        ensures
            final(scanner).wf(),
            scan_safe(final(scanner)@),
            ({
                let (c, reps) = cursor_consume(
                    old(self).at(old(scanner)@),
                    TokenType::Identifier,
                    error_message@,
                );
                &&& final(self).at(final(scanner)@) == c
                &&& final(self).reports_made(old(self), reps)
                &&& r@ == c.previous.text
            }),
            final(self).with_reading_state_of(old(self)) == *old(self),
            crate::compiler::parser::cursor_measure(final(self).at(final(scanner)@))
                <= crate::compiler::parser::cursor_measure(old(self).at(old(scanner)@)),
    {
        self.consume(TokenType::Identifier, error_message, scanner);
        self.previous.start.clone()
    }

    /// Records the constant `name` with its value and type.
    pub fn define_const(&mut self, name: String, value: Value, type_tag: &TypeTag)
        ensures
            final(self).const_table@ == old(self).const_table@.insert(name@, (value, *type_tag)),
            *final(self) == (Parser { const_table: final(self).const_table, ..*old(self) }),
    {
        self.const_table.insert(name, (value, type_tag.clone()));
    }
}

} // verus!
