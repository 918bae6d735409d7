//! Scopes and local variables of the function being compiled.
use vstd::prelude::*;

use crate::chunk::{spec_op_byte, OpCode};
use crate::compiler::parser::{Local, Parser};
use crate::compiler::type_safety::TypeTag;
use crate::scanner::{SpecToken, Token};

verus! {

/// Whether two identifier tokens name the same variable: same length, same text.
pub open spec fn names_equal(a: SpecToken, b: SpecToken) -> bool {
    a.length == b.length && a.text == b.text
}

/// How many of `locals` stay when a scope closes and leaves `depth` as the
/// current depth: the locals at the end deeper than `depth` go.
pub open spec fn kept_locals(locals: Seq<Local>, depth: int) -> nat
    decreases locals.len(),
{
    if locals.len() > 0 && locals.last().depth > depth {
        kept_locals(locals.drop_last(), depth)
    } else {
        locals.len()
    }
}

/// The position of the first of `locals`, from `from` on, named as `name`; -1
/// when there is none.
pub open spec fn find_local(locals: Seq<Local>, name: SpecToken, from: int) -> int
    decreases locals.len() - from,
{
    if from < 0 || from >= locals.len() {
        -1
    } else if names_equal(name, locals[from].name@) {
        from
    } else {
        find_local(locals, name, from + 1)
    }
}

/// Facts about `kept_locals`.
pub proof fn lemma_kept_locals(locals: Seq<Local>, depth: int)
    ensures
        kept_locals(locals, depth) <= locals.len(),
        forall|i: int|
            kept_locals(locals, depth) <= i < locals.len() ==> #[trigger] locals[i].depth > depth,
    decreases locals.len(),
{
    if locals.len() > 0 && locals.last().depth > depth {
        lemma_kept_locals(locals.drop_last(), depth);
        assert forall|i: int| kept_locals(locals, depth) <= i < locals.len() implies #[trigger] locals[i].depth
            > depth by {
            if i < locals.len() - 1 {
                assert(locals.drop_last()[i] == locals[i]);
            }
        }
    }
}

/// Facts about `find_local`.
pub proof fn lemma_find_local(locals: Seq<Local>, name: SpecToken, from: int)
    requires
        0 <= from,
    ensures
        find_local(locals, name, from) == -1 || from <= find_local(locals, name, from)
            < locals.len(),
        find_local(locals, name, from) != -1 ==> names_equal(
            name,
            locals[find_local(locals, name, from)].name@,
        ),
    decreases locals.len() - from,
{
    if from < locals.len() && !names_equal(name, locals[from].name@) {
        lemma_find_local(locals, name, from + 1);
    }
}

/// A scope takes its locals with it: closing it, back to the depth `depth`
/// that every outer local lies at or below, drops exactly the locals declared
/// deeper inside it. With nothing declared inside, nothing is dropped.
pub proof fn lemma_scope_drops_its_locals(outer: Seq<Local>, inner: Seq<Local>, depth: int)
    requires
        forall|i: int| 0 <= i < outer.len() ==> #[trigger] outer[i].depth <= depth,
        forall|i: int| 0 <= i < inner.len() ==> #[trigger] inner[i].depth > depth,
    ensures
        kept_locals(outer + inner, depth) == outer.len(),
        kept_locals(outer, depth) == outer.len(),
    decreases inner.len(),
{
    if inner.len() > 0 {
        assert((outer + inner).drop_last() =~= outer + inner.drop_last());
        assert((outer + inner).last() == inner.last());
        lemma_scope_drops_its_locals(outer, inner.drop_last(), depth);
    } else {
        assert(outer + inner =~= outer);
        if outer.len() > 0 {
            assert(outer.last().depth <= depth);
        }
    }
}

/// A local added after the others is found by its name when no earlier local has
/// that name: `resolve_local` gives its slot.
pub proof fn lemma_find_added_local(locals: Seq<Local>, local: Local, name: SpecToken)
    requires
        find_local(locals, name, 0) == -1,
        names_equal(name, local.name@),
    ensures
        find_local(locals.push(local), name, 0) == locals.len(),
{
    lemma_find_local_push(locals, local, name, 0);
}

/// Looking from `from` in `locals` with one more local at the end finds what it
/// found before, or that local.
proof fn lemma_find_local_push(locals: Seq<Local>, local: Local, name: SpecToken, from: int)
    requires
        0 <= from <= locals.len(),
        find_local(locals, name, from) == -1,
        names_equal(name, local.name@),
    ensures
        find_local(locals.push(local), name, from) == locals.len(),
    decreases locals.len() - from,
{
    if from < locals.len() {
        assert(locals.push(local)[from] == locals[from]);
        lemma_find_local_push(locals, local, name, from + 1);
    } else {
        assert(locals.push(local)[from] == local);
    }
}

impl Parser {
    /// Opens a scope: the scope depth grows by one.
    pub fn begin_scope(&mut self)
        requires
            old(self).compiler.scope_depth < i32::MAX,
        ensures
            final(self).compiler.scope_depth == old(self).compiler.scope_depth + 1,
            final(self).compiler.locals == old(self).compiler.locals,
            final(self).compiler.local_count == old(self).compiler.local_count,
            final(self).with_scopes_of(old(self)) == *old(self),
    {
        self.compiler.scope_depth = self.compiler.scope_depth + 1;
    }

    /// Closes a scope: the scope depth drops by one, and the locals at the end
    /// that are deeper go, each with a `Pop` instruction.
    pub fn end_scope(&mut self)
        requires
            old(self).wf(),
            old(self).compiler.scope_depth > i32::MIN,
        ensures
            final(self).wf(),
            final(self).compiler.scope_depth == old(self).compiler.scope_depth - 1,
            ({
                let k = kept_locals(old(self).compiler.locals@, old(self).compiler.scope_depth - 1);
                let n = old(self).compiler.locals@.len() - k;
                &&& final(self).compiler.locals@ == old(self).compiler.locals@.take(k as int)
                &&& final(self).chunk().code@ == old(self).chunk().code@ + Seq::new(
                    n as nat,
                    |i: int| spec_op_byte(OpCode::Pop),
                )
                &&& final(self).chunk().line@ == old(self).chunk().line@ + Seq::new(
                    n as nat,
                    |i: int| old(self).previous.line as u32,
                )
            }),
            final(self).chunk().constants == old(self).chunk().constants,
            final(self).with_scopes_of(old(self)).same_but_chunk(old(self)),
    {
        self.compiler.scope_depth = self.compiler.scope_depth - 1;
        let ghost depth = self.compiler.scope_depth as int;
        let ghost k = kept_locals(old(self).compiler.locals@, depth);
        let ghost pop = spec_op_byte(OpCode::Pop);
        let ghost line = old(self).previous.line as u32;
        proof {
            lemma_kept_locals(old(self).compiler.locals@, depth);
            assert(old(self).compiler.locals@.take(old(self).compiler.locals@.len() as int)
                =~= old(self).compiler.locals@);
            assert(self.chunk().code@ + Seq::new(0, |i: int| pop) =~= self.chunk().code@);
            assert(self.chunk().line@ + Seq::new(0, |i: int| line) =~= self.chunk().line@);
        }
        while self.compiler.locals.len() > 0 && self.compiler.locals[(self.compiler.local_count
            - 1) as usize].depth > self.compiler.scope_depth
            invariant
                self.wf(),
                self.compiler.scope_depth == depth,
                depth == old(self).compiler.scope_depth - 1,
                k == kept_locals(old(self).compiler.locals@, depth),
                k == kept_locals(self.compiler.locals@, depth),
                k <= self.compiler.locals@.len() <= old(self).compiler.locals@.len(),
                self.compiler.locals@ == old(self).compiler.locals@.take(
                    self.compiler.locals@.len() as int,
                ),
                pop == spec_op_byte(OpCode::Pop),
                line == old(self).previous.line as u32,
                self.previous == old(self).previous,
                self.chunk().code@ == old(self).chunk().code@ + Seq::new(
                    (old(self).compiler.locals@.len() - self.compiler.locals@.len()) as nat,
                    |i: int| pop,
                ),
                self.chunk().line@ == old(self).chunk().line@ + Seq::new(
                    (old(self).compiler.locals@.len() - self.compiler.locals@.len()) as nat,
                    |i: int| line,
                ),
                self.chunk().constants == old(self).chunk().constants,
                self.with_scopes_of(old(self)).same_but_chunk(old(self)),
            decreases self.compiler.locals@.len(),
        {
            let ghost before = self.compiler.locals@;
            let ghost code0 = self.chunk().code@;
            let ghost line0 = self.chunk().line@;
            let ghost n0 = (old(self).compiler.locals@.len() - before.len()) as nat;
            self.emit_byte(pop_byte());
            self.compiler.locals.pop();
            self.compiler.local_count = self.compiler.local_count - 1;
            proof {
                assert(before.last().depth > depth);
                assert(kept_locals(before, depth) == kept_locals(before.drop_last(), depth));
                lemma_kept_locals(before.drop_last(), depth);
                assert(self.compiler.locals@ =~= before.drop_last());
                assert(self.compiler.locals@ =~= old(self).compiler.locals@.take(
                    self.compiler.locals@.len() as int,
                ));
                assert(code0.push(pop) =~= old(self).chunk().code@ + Seq::new(n0 + 1, |i: int| pop));
                assert(line0.push(line) =~= old(self).chunk().line@ + Seq::new(n0 + 1, |i: int| line));
            }
        }
    }

    /// Adds a local named `name`, not yet initialized (depth -1), not mutable,
    /// of type `Void`.
    pub fn add_local(&mut self, name: Token)
        requires
            old(self).wf(),
            old(self).compiler.locals@.len() + 1 < i32::MAX,
        ensures
            final(self).wf(),
            final(self).compiler.locals@ == old(self).compiler.locals@.push(
                Local { name, depth: -1i32, is_mut: false, type_tag: TypeTag::Void },
            ),
            final(self).compiler.scope_depth == old(self).compiler.scope_depth,
            final(self).with_scopes_of(old(self)) == *old(self),
    {
        self.compiler.locals.push(
            Local { name: name, depth: -1, is_mut: false, type_tag: TypeTag::Void },
        );
        self.compiler.local_count = self.compiler.local_count + 1;
    }

    /// Whether the two tokens name the same variable (see `names_equal`).
    pub fn identifiers_equal(token_a: &Token, token_b: &Token) -> (r: bool)
        ensures
            r == names_equal(token_a@, token_b@),
    {
        if token_a.length != token_b.length {
            return false;
        }
        token_a.start == token_b.start
    }

    /// Looks `name` up among the locals, from the first: its slot (as a byte),
    /// whether it is mutable and its type. Reading a local inside its own
    /// initializer reports an error.
    pub fn resolve_local(&mut self, name: &Token) -> (r: Option<(u8, bool, TypeTag)>)
        requires
            old(self).wf(),
        ensures
            ({
                let j = find_local(old(self).compiler.locals@, name@, 0);
                let local = old(self).compiler.locals@[j];
                &&& j == -1 ==> r is None && *final(self) == *old(self)
                &&& j != -1 ==> r == Some((j as u8, local.is_mut, local.type_tag))
                &&& j != -1 && local.depth == -1 ==> final(self).same_but_errors(old(self))
                    && final(self).reported(
                    old(self),
                    old(self).previous@,
                    "Can't read local variable in its own initializer."@,
                ) && final(self).diagnostics@.len() >= 0
                &&& j != -1 && local.depth != -1 ==> *final(self) == *old(self)
            }),
    {
        proof {
            lemma_find_local(self.compiler.locals@, name@, 0);
        }
        let mut i: i32 = 0;
        while i < self.compiler.local_count
            invariant
                *self == *old(self),
                self.wf(),
                0 <= i <= self.compiler.local_count,
                find_local(self.compiler.locals@, name@, 0) == find_local(
                    self.compiler.locals@,
                    name@,
                    i as int,
                ),
            decreases self.compiler.local_count - i,
        {
            let is_mut = self.compiler.locals[i as usize].is_mut;
            let depth = self.compiler.locals[i as usize].depth;
            let type_tag = self.compiler.locals[i as usize].type_tag.clone();
            if Self::identifiers_equal(name, &self.compiler.locals[i as usize].name) {
                if depth == -1 {
                    self.error("Can't read local variable in its own initializer.");
                }
                return Some((i as u8, is_mut, type_tag));
            }
            i = i + 1;
        }
        None
    }

    /// Marks the last local initialized: its depth becomes the scope depth.
    pub fn mark_initialized(&mut self)
        requires
            old(self).wf(),
            old(self).compiler.locals@.len() >= 1,
        ensures
            final(self).wf(),
            final(self).compiler.locals@ == old(self).compiler.locals@.update(
                old(self).compiler.locals@.len() - 1,
                Local { depth: old(self).compiler.scope_depth, ..old(self).compiler.locals@.last() },
            ),
            final(self).compiler.scope_depth == old(self).compiler.scope_depth,
            final(self).with_scopes_of(old(self)) == *old(self),
    {
        let depth = self.compiler.scope_depth;
        match self.compiler.locals.pop() {
            Some(mut local) => {
                local.depth = depth;
                self.compiler.locals.push(local);
            },
            None => {},
        }
        proof {
            assert(self.compiler.locals@ =~= old(self).compiler.locals@.update(
                old(self).compiler.locals@.len() - 1,
                Local { depth: old(self).compiler.scope_depth, ..old(self).compiler.locals@.last() },
            ));
        }
    }

    /// Declares the variable named by the previous token: in a scope it becomes a
    /// new local (see `add_local`); at the top level nothing happens.
    pub fn declare_variable(&mut self)
        requires
            old(self).wf(),
            old(self).compiler.locals@.len() + 1 < i32::MAX,
        ensures
            final(self).wf(),
            old(self).compiler.scope_depth == 0 ==> *final(self) == *old(self),
            old(self).compiler.scope_depth != 0 ==> final(self).compiler.locals@ == old(
                self,
            ).compiler.locals@.push(
                Local { name: old(self).previous, depth: -1i32, is_mut: false, type_tag: TypeTag::Void },
            ),
            final(self).compiler.scope_depth == old(self).compiler.scope_depth,
            final(self).with_scopes_of(old(self)) == *old(self),
    {
        if self.compiler.scope_depth == 0 {
            return ;
        }
        let name = self.previous.clone();
        self.add_local(name);
    }

    /// Defines the variable just declared: marks the last local initialized
    /// (see `mark_initialized`).
    pub fn define_variable(&mut self)
        requires
            old(self).wf(),
            old(self).compiler.locals@.len() >= 1,
        ensures
            final(self).wf(),
            final(self).compiler.locals@ == old(self).compiler.locals@.update(
                old(self).compiler.locals@.len() - 1,
                Local { depth: old(self).compiler.scope_depth, ..old(self).compiler.locals@.last() },
            ),
            final(self).compiler.scope_depth == old(self).compiler.scope_depth,
            final(self).with_scopes_of(old(self)) == *old(self),
    {
        self.mark_initialized();
    }
}

/// The byte of the `Pop` instruction.
fn pop_byte() -> (b: u8)
    ensures
        b == spec_op_byte(OpCode::Pop),
{
    OpCode::Pop.to_byte()
}

} // verus!
