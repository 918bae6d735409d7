//! The parser's state, and reading tokens with error reporting.
use vstd::prelude::*;

use vstd::hash_map::StringHashMap;

use crate::compiler::type_safety::TypeTag;
use crate::scanner::{
    lemma_scan_progress, lemma_scan_safe_step, scan_panics, scan_safe, spec_scan, ScanState,
    Scanner, SpecToken, Token, TokenType,
};
use crate::text::string_from;
use crate::chunk::Chunk;
use crate::value::{Function, Value};

verus! {

/// A local variable: its name, the scope depth it was declared at (-1 while its
/// initializer is compiled), whether it may be assigned, and its type.
pub struct Local {
    pub name: Token,
    pub depth: i32,
    pub is_mut: bool,
    pub type_tag: TypeTag,
}

/// Whether code being compiled is a function's body or the top-level script.
#[derive(Debug, Clone, Copy, PartialEq, Eq, Structural)]
pub enum FunctionType {
    Function,
    Script,
}

/// The function being compiled.
pub struct Functions {
    pub function: Function,
    pub function_type: FunctionType,
}

/// The compiler of one function: its locals, its scope depth and its code.
pub struct Compiler {
    pub locals: Vec<Local>,
    pub local_count: i32,
    pub scope_depth: i32,
    pub function: Functions,
    pub has_returned: bool,
}

/// The declared parameter types and return type of each function, by name.
pub struct FunctionInfo {
    pub parameters_type_tag_table: StringHashMap<Vec<TypeTag>>,
    pub return_type_tag_table: StringHashMap<TypeTag>,
}

/// Where loops start, the jumps of their `stop`s, and how many locals were live
/// when they started.
pub struct ControlFlow {
    pub loop_starts: Vec<usize>,
    pub stops: Vec<Vec<u8>>,
    pub locals_in: Vec<i32>,
}

/// Facts about the expression just compiled: whether the variables read are
/// mutable, and the slot of the last local read.
pub struct Info {
    pub is_mut: Vec<bool>,
    pub last_local_slot: Option<u8>,
}

/// Where an error is reported: at the end of the source, at no token (for an
/// error token, whose text is the message), or at a token of the given byte
/// length and text.
#[derive(Debug)]
pub enum ErrorLocation {
    End,
    Nowhere,
    At(usize, String),
}

/// A compile error: the line, where on it, and the message.
#[derive(Debug)]
pub struct Diagnostic {
    pub line: usize,
    pub location: ErrorLocation,
    pub message: String,
}

/// The parser: the tokens around the current position, the error state, the
/// compiler of the current function and those around it, named constants, the
/// stack of the types of the values the code computes, and what the compiler
/// knows about functions, loops and variables; the compile errors reported; and
/// the bits of the float literals of the source, by their text, which the caller
/// reads (float arithmetic happens outside this library).
pub struct Parser {
    pub current: Token,
    pub previous: Token,
    pub prevprev: Token,
    pub had_err: bool,
    pub painc_mode: bool,
    pub compiler: Compiler,
    pub compiler_stack: Vec<Compiler>,
    pub const_table: StringHashMap<(Value, TypeTag)>,
    pub type_tag: Vec<TypeTag>,
    pub expected_type: Option<TypeTag>,
    pub control_flow: ControlFlow,
    pub function_info: FunctionInfo,
    pub info: Info,
    pub diagnostics: Vec<Diagnostic>,
    pub float_bits: StringHashMap<u64>,
}

/// Whether `d` reports `message` at `token`.
pub open spec fn reports(d: Diagnostic, token: SpecToken, message: Seq<char>) -> bool {
    &&& d.line == token.line
    &&& d.message@ == message
    &&& if token.token_type == TokenType::Eof {
        d.location is End
    } else if token.token_type == TokenType::Error {
        d.location is Nowhere
    } else {
        d.location matches ErrorLocation::At(len, text) && len == token.length && text@
            == token.text
    }
}

/// The tokens that `advance` reads from `st` before the first that is not an error
/// token: the error tokens, the token it stops at, and the scanner state after it.
pub open spec fn spec_skip_errors(st: ScanState) -> (Seq<SpecToken>, SpecToken, ScanState)
    decreases st.source.len() - st.current,
{
    let (t, st2) = spec_scan(st);
    if t.token_type == TokenType::Error && 0 <= st.current < st2.current <= st.source.len() {
        let (errs, t2, st3) = spec_skip_errors(st2);
        (seq![t] + errs, t2, st3)
    } else {
        (Seq::empty(), t, st2)
    }
}

/// Whether reading the next non-error token from `st` makes the scanner panic.
pub open spec fn advance_panics(st: ScanState) -> bool
    decreases st.source.len() - st.current,
{
    let (t, st2) = spec_scan(st);
    ||| scan_panics(st)
    ||| t.token_type == TokenType::Error && 0 <= st.current < st2.current <= st.source.len()
        && advance_panics(st2)
}

/// Reading tokens moves forward through the source, and stops only at its end.
pub proof fn lemma_skip_errors(st: ScanState)
    requires
        0 <= st.current <= st.source.len(),
        !advance_panics(st),
    ensures
        spec_skip_errors(st).2.source == st.source,
        st.current <= spec_skip_errors(st).2.current <= st.source.len(),
        spec_skip_errors(st).1.token_type != TokenType::Error,
        spec_skip_errors(st).1.token_type != TokenType::Eof ==> st.current < spec_skip_errors(
            st,
        ).2.current,
        spec_skip_errors(st).1.token_type == TokenType::Eof ==> spec_skip_errors(st).2.current
            == st.source.len(),
    decreases st.source.len() - st.current,
{
    lemma_scan_progress(st);
    let (t, st2) = spec_scan(st);
    if t.token_type == TokenType::Error {
        lemma_skip_errors(st2);
    }
}

/// From a state that scans safely, reading the next non-error token does not
/// panic and leaves a state that scans safely.
pub proof fn lemma_skip_errors_safe(st: ScanState)
    requires
        0 <= st.current <= st.source.len(),
        scan_safe(st),
    ensures
        !advance_panics(st),
        scan_safe(spec_skip_errors(st).2),
    decreases st.source.len() - st.current,
{
    lemma_scan_progress(st);
    lemma_scan_safe_step(st);
    let (t, st2) = spec_scan(st);
    if t.token_type == TokenType::Error {
        lemma_skip_errors_safe(st2);
    }
}

/// How much is left to read: the characters after the scanner's position, and one
/// more while the current token is not the end of the source. Every read of a
/// token lowers it or keeps it, and a read past a token other than the end lowers it.
pub open spec fn parse_measure(st: ScanState, current: TokenType) -> int {
    st.source.len() - st.current + if current == TokenType::Eof {
        0int
    } else {
        1int
    }
}

/// Whether `synchronize` stops at the current token of kind `current`, after one
/// of kind `previous`: at the end of the source, after a `;`, or before a token
/// that starts a statement or a block.
pub open spec fn sync_stop(previous: TokenType, current: TokenType) -> bool {
    ||| current == TokenType::Eof
    ||| previous == TokenType::Semicolon
    ||| current == TokenType::Print
    ||| current == TokenType::Println
    ||| current == TokenType::Let
    ||| current == TokenType::Const
    ||| current == TokenType::Fn
    ||| current == TokenType::If
    ||| current == TokenType::While
    ||| current == TokenType::Loop
    ||| current == TokenType::Match
    ||| current == TokenType::LeftBrace
    ||| current == TokenType::RightBrace
}

/// What `synchronize` reads from the scanner state `st`, with `previous` and
/// `current` the tokens it starts at: the error tokens met, the previous and
/// current tokens it stops at, and the scanner state there.
pub open spec fn spec_sync(previous: SpecToken, current: SpecToken, st: ScanState) -> (
    Seq<SpecToken>,
    SpecToken,
    SpecToken,
    ScanState,
)
    decreases parse_measure(st, current.token_type),
{
    if sync_stop(previous.token_type, current.token_type) || !(0 <= st.current
        <= st.source.len()) || advance_panics(st) {
        (Seq::empty(), previous, current, st)
    } else {
        proof {
            lemma_skip_errors(st);
        }
        let (errs, t, st2) = spec_skip_errors(st);
        let (errs2, p, c, st3) = spec_sync(current, t, st2);
        (errs + errs2, p, c, st3)
    }
}

/// Reporting the error tokens `e1` and then `e2` leaves the error state that
/// reporting `e1 + e2` at once leaves.
pub proof fn lemma_errors_compose(
    x: Parser,
    y: Parser,
    painc: bool,
    had_err: bool,
    diags: Seq<Diagnostic>,
    e1: Seq<SpecToken>,
    e2: Seq<SpecToken>,
)
    requires
        x.errors_reported_after(painc, had_err, diags, e1),
        y.reported_all(&x, e2),
    ensures
        y.errors_reported_after(painc, had_err, diags, e1 + e2),
{
    if e1.len() == 0 {
        assert(e1 + e2 =~= e2);
    } else {
        assert((e1 + e2)[0] == e1[0]);
    }
}

/// Where a parser stands in its input: the previous and current tokens and the
/// state of the scanner.
pub struct Cursor {
    pub previous: SpecToken,
    pub current: SpecToken,
    pub scan: ScanState,
}

/// An error to report: the token it is reported at, and the message.
pub struct Report {
    pub token: SpecToken,
    pub message: Seq<char>,
}

/// The reports for error tokens: each reported with its own text.
pub open spec fn error_reports(errs: Seq<SpecToken>) -> Seq<Report> {
    errs.map_values(|t: SpecToken| Report { token: t, message: t.text })
}

/// What `advance` does from `c`: the cursor after it and the reports it makes.
pub open spec fn cursor_advance(c: Cursor) -> (Cursor, Seq<Report>) {
    let (errs, t, st) = spec_skip_errors(c.scan);
    (Cursor { previous: c.current, current: t, scan: st }, error_reports(errs))
}

/// What `consume` does from `c`: it advances when the current token has kind
/// `tt`, and otherwise reports `message` at the current token.
pub open spec fn cursor_consume(c: Cursor, tt: TokenType, message: Seq<char>) -> (
    Cursor,
    Seq<Report>,
) {
    if c.current.token_type == tt {
        cursor_advance(c)
    } else {
        (c, seq![Report { token: c.current, message }])
    }
}

/// How much is left to read from `c` (see `parse_measure`).
pub open spec fn cursor_measure(c: Cursor) -> int {
    parse_measure(c.scan, c.current.token_type)
}

/// Making the reports `r1` and then `r2` leaves the error state that making
/// `r1 + r2` at once leaves.
pub proof fn lemma_reports_compose(
    x: Parser,
    y: Parser,
    painc: bool,
    had_err: bool,
    diags: Seq<Diagnostic>,
    r1: Seq<Report>,
    r2: Seq<Report>,
)
    requires
        x.reports_made_after(painc, had_err, diags, r1),
        y.reports_made(&x, r2),
    ensures
        y.reports_made_after(painc, had_err, diags, r1 + r2),
{
    if r1.len() == 0 {
        assert(r1 + r2 =~= r2);
    } else {
        assert((r1 + r2)[0] == r1[0]);
    }
}

/// `advance` in terms of cursors: it moves as `cursor_advance` says and makes its
/// reports, and changes nothing else.
pub proof fn lemma_advanced_cursor(x: Parser, y: Parser, st: ScanState, st2: ScanState)
    requires
        y.advanced(&x, st, st2),
    ensures
        y.at(st2) == cursor_advance(x.at(st)).0,
        y.reports_made(&x, cursor_advance(x.at(st)).1),
        y.with_reading_state_of(&x) == x,
{
    let (errs, t, st3) = spec_skip_errors(st);
    let reps = error_reports(errs);
    assert(reps.len() == errs.len());
    if errs.len() > 0 {
        assert(reps[0] == Report { token: errs[0], message: errs[0].text });
    }
}

/// A report made by `error_at`, `error` or `error_at_current` is the one report
/// `reports_made` speaks of.
pub proof fn lemma_reported_is_report(x: Parser, y: Parser, token: SpecToken, message: Seq<char>)
    requires
        y.reported(&x, token, message),
    ensures
        y.reports_made(&x, seq![Report { token, message }]),
{
}

/// Only the first error is reported until the parser leaves error recovery: a
/// second report, made while recovering, leaves the error state that the first
/// report left.
pub proof fn lemma_first_error_wins(
    o: Parser,
    x: Parser,
    y: Parser,
    t1: SpecToken,
    m1: Seq<char>,
    t2: SpecToken,
    m2: Seq<char>,
)
    requires
        x.reported(&o, t1, m1),
        y.reported(&x, t2, m2),
    ensures
        y.reported(&o, t1, m1),
        y.same_errors(&x),
{
}

/// `synchronize` stops at a statement boundary: at the end of the source, after a
/// `;`, or before a token that starts a statement or a block.
pub proof fn lemma_sync_stops(previous: SpecToken, current: SpecToken, st: ScanState)
    requires
        0 <= st.current <= st.source.len(),
        scan_safe(st),
    ensures
        sync_stop(spec_sync(previous, current, st).1.token_type, spec_sync(previous, current, st).2.token_type),
    decreases parse_measure(st, current.token_type),
{
    if !sync_stop(previous.token_type, current.token_type) {
        lemma_skip_errors_safe(st);
        lemma_skip_errors(st);
        let (errs, t, st2) = spec_skip_errors(st);
        lemma_sync_stops(current, t, st2);
    }
}

impl Parser {
    /// Whether `self` and `o` agree on everything but the error state (`had_err`,
    /// `painc_mode` and the diagnostics).
    pub open spec fn same_but_errors(&self, o: &Parser) -> bool {
        &&& self.current == o.current
        &&& self.previous == o.previous
        &&& self.prevprev == o.prevprev
        &&& self.compiler == o.compiler
        &&& self.compiler_stack == o.compiler_stack
        &&& self.const_table == o.const_table
        &&& self.type_tag == o.type_tag
        &&& self.expected_type == o.expected_type
        &&& self.control_flow == o.control_flow
        &&& self.function_info == o.function_info
        &&& self.info == o.info
        &&& self.float_bits == o.float_bits
    }

    /// The chunk being written: that of the function being compiled.
    pub open spec fn chunk(&self) -> Chunk {
        self.compiler.function.function.chunk
    }

    /// `self` with the chunk being written replaced by `c`.
    pub open spec fn with_chunk(self, c: Chunk) -> Parser {
        Parser {
            compiler: Compiler {
                function: Functions {
                    function: Function { chunk: c, ..self.compiler.function.function },
                    ..self.compiler.function
                },
                ..self.compiler
            },
            ..self
        }
    }

    /// Whether `self` and `o` agree on everything but the chunk being written.
    pub open spec fn same_but_chunk(&self, o: &Parser) -> bool {
        self.with_chunk(o.chunk()) == *o
    }

    /// `self` with the locals, their count and the scope depth of the current
    /// function taken from `o`.
    pub open spec fn with_scopes_of(self, o: &Parser) -> Parser {
        Parser {
            compiler: Compiler {
                locals: o.compiler.locals,
                local_count: o.compiler.local_count,
                scope_depth: o.compiler.scope_depth,
                ..self.compiler
            },
            ..self
        }
    }

    /// `self` with the stack of types taken from `o`.
    pub open spec fn with_type_tags_of(self, o: &Parser) -> Parser {
        Parser { type_tag: o.type_tag, ..self }
    }

    /// `self` with the facts about the last expression taken from `o`.
    pub open spec fn with_info_of(self, o: &Parser) -> Parser {
        Parser { info: o.info, ..self }
    }

    /// Whether `self` and `o` have the same error state.
    pub open spec fn same_errors(&self, o: &Parser) -> bool {
        &&& self.painc_mode == o.painc_mode
        &&& self.had_err == o.had_err
        &&& self.diagnostics@ == o.diagnostics@
    }

    /// Whether the error state of `self` is the error state (`painc`, `had_err`,
    /// `diags`) after reporting `message` at `token` (see `error_at`): nothing is
    /// reported while recovering from an error.
    pub open spec fn reported_after(
        &self,
        painc: bool,
        had_err: bool,
        diags: Seq<Diagnostic>,
        token: SpecToken,
        message: Seq<char>,
    ) -> bool {
        &&& self.painc_mode
        &&& self.had_err == (had_err || !painc)
        &&& painc ==> self.diagnostics@ == diags
        &&& !painc ==> self.diagnostics@.len() == diags.len() + 1 && self.diagnostics@.drop_last()
            == diags && reports(self.diagnostics@.last(), token, message)
    }

    /// Whether `self` is `o` after reporting `message` at `token` (see `error_at`).
    pub open spec fn reported(&self, o: &Parser, token: SpecToken, message: Seq<char>) -> bool {
        self.reported_after(o.painc_mode, o.had_err, o.diagnostics@, token, message)
    }

    /// Whether the error state of `self` is the error state (`painc`, `had_err`,
    /// `diags`) after the error tokens `errs` were read, each reported with its own
    /// text as the message.
    pub open spec fn errors_reported_after(
        &self,
        painc: bool,
        had_err: bool,
        diags: Seq<Diagnostic>,
        errs: Seq<SpecToken>,
    ) -> bool {
        if errs.len() == 0 {
            &&& self.painc_mode == painc
            &&& self.had_err == had_err
            &&& self.diagnostics@ == diags
        } else {
            self.reported_after(painc, had_err, diags, errs[0], errs[0].text)
        }
    }

    /// Whether the error state of `self` is the error state (`painc`, `had_err`,
    /// `diags`) after the reports `reports` were made in order: only the first is
    /// recorded, unless an error was already being recovered from.
    pub open spec fn reports_made_after(
        &self,
        painc: bool,
        had_err: bool,
        diags: Seq<Diagnostic>,
        reports: Seq<Report>,
    ) -> bool {
        if reports.len() == 0 {
            &&& self.painc_mode == painc
            &&& self.had_err == had_err
            &&& self.diagnostics@ == diags
        } else {
            self.reported_after(painc, had_err, diags, reports[0].token, reports[0].message)
        }
    }

    /// Whether `self` is `o` after the reports `reports` were made.
    pub open spec fn reports_made(&self, o: &Parser, reports: Seq<Report>) -> bool {
        self.reports_made_after(o.painc_mode, o.had_err, o.diagnostics@, reports)
    }

    /// Where `self` stands with the scanner in state `st`.
    pub open spec fn at(&self, st: ScanState) -> Cursor {
        Cursor { previous: self.previous@, current: self.current@, scan: st }
    }

    /// `self` with the tables of function signatures taken from `o`.
    pub open spec fn with_function_info_of(self, o: &Parser) -> Parser {
        Parser { function_info: o.function_info, ..self }
    }

    /// `self` with the loop bookkeeping taken from `o`.
    pub open spec fn with_control_flow_of(self, o: &Parser) -> Parser {
        Parser { control_flow: o.control_flow, ..self }
    }

    /// Whether `self` stands at the same tokens as `o`.
    pub open spec fn at_same(self, o: Parser) -> bool {
        &&& self.current == o.current
        &&& self.previous == o.previous
    }

    /// `self` with the tokens and the error state taken from `o`.
    pub open spec fn with_reading_state_of(self, o: &Parser) -> Parser {
        Parser {
            current: o.current,
            previous: o.previous,
            had_err: o.had_err,
            painc_mode: o.painc_mode,
            diagnostics: o.diagnostics,
            ..self
        }
    }

    /// Whether `self` is `o` after the error tokens `errs` were read, each reported
    /// with its own text as the message.
    pub open spec fn reported_all(&self, o: &Parser, errs: Seq<SpecToken>) -> bool {
        self.errors_reported_after(o.painc_mode, o.had_err, o.diagnostics@, errs)
    }

    /// Whether `self` is `o` after `advance` moved from the scanner state `st` to
    /// `st_new`.
    pub open spec fn advanced(&self, o: &Parser, st: ScanState, st_new: ScanState) -> bool {
        let (errs, t, st2) = spec_skip_errors(st);
        &&& st_new == st2
        &&& self.current@ == t
        &&& self.previous@ == o.current@
        &&& self.reported_all(o, errs)
        &&& self.prevprev == o.prevprev
        &&& self.compiler == o.compiler
        &&& self.compiler_stack == o.compiler_stack
        &&& self.const_table == o.const_table
        &&& self.type_tag == o.type_tag
        &&& self.expected_type == o.expected_type
        &&& self.control_flow == o.control_flow
        &&& self.function_info == o.function_info
        &&& self.info == o.info
        &&& self.float_bits == o.float_bits
    }

    /// The invariant of the parser: its locals are counted, and the count fits.
    pub open spec fn wf(&self) -> bool {
        &&& self.compiler.local_count == self.compiler.locals@.len()
        &&& self.compiler.locals@.len() < i32::MAX
    }

    /// The token being looked at is `current`, the one before it `previous`.
    pub fn check(&self, token_type: &TokenType) -> (r: bool)
        ensures
            r == (self.current.token_type == *token_type),
    {
        self.current.token_type == *token_type
    }

    /// Reports `message` at `token`, unless an error is being recovered from:
    /// then nothing is reported. Either way the parser is then recovering and has
    /// seen an error.
    pub fn error_at(&mut self, token: &Token, message: &str)
        ensures
            final(self).same_but_errors(old(self)),
            final(self).reported(old(self), token@, message@),
    {
        if self.painc_mode {
            return;
        }
        self.painc_mode = true;
        let location = if token.token_type == TokenType::Eof {
            ErrorLocation::End
        } else if token.token_type == TokenType::Error {
            ErrorLocation::Nowhere
        } else {
            ErrorLocation::At(token.length, token.start.clone())
        };
        self.diagnostics.push(
            Diagnostic { line: token.line, location, message: string_from(message) },
        );
        self.had_err = true;
        proof {
            assert(self.diagnostics@.drop_last() =~= old(self).diagnostics@);
        }
    }

    /// Reports `message` at the current token (see `error_at`).
    pub fn error_at_current(&mut self, message: &str)
        ensures
            final(self).same_but_errors(old(self)),
            final(self).reported(old(self), old(self).current@, message@),
    {
        let current_token = self.current.clone();
        self.error_at(&current_token, message);
    }

    /// Reports `message` at the previous token (see `error_at`).
    pub fn error(&mut self, message: &str)
        ensures
            final(self).same_but_errors(old(self)),
            final(self).reported(old(self), old(self).previous@, message@),
    {
        let previous_token = self.previous.clone();
        self.error_at(&previous_token, message);
    }

    /// Moves to the next token: the current token becomes the previous one, and the
    /// next token that is not an error token becomes the current one. Error tokens
    /// on the way are reported (see `reported_all`).
    pub fn advance(&mut self, scanner: &mut Scanner)
        requires
            old(scanner).wf(),
            !advance_panics(old(scanner)@),
        ensures
            final(scanner).wf(),
            final(self).advanced(old(self), old(scanner)@, final(scanner)@),
            final(self).current.token_type != TokenType::Error,
            final(scanner)@.source == old(scanner)@.source,
            parse_measure(final(scanner)@, final(self).current.token_type) <= parse_measure(
                old(scanner)@,
                old(self).current.token_type,
            ),
            old(self).current.token_type != TokenType::Eof ==> parse_measure(
                final(scanner)@,
                final(self).current.token_type,
            ) < parse_measure(old(scanner)@, old(self).current.token_type),
            scan_safe(old(scanner)@) ==> scan_safe(final(scanner)@),
            final(self).at(final(scanner)@) == cursor_advance(old(self).at(old(scanner)@)).0,
            final(self).reports_made(old(self), cursor_advance(old(self).at(old(scanner)@)).1),
            final(self).with_reading_state_of(old(self)) == *old(self),
    {
        proof {
            old(scanner).lemma_wf();
            lemma_skip_errors(old(scanner)@);
            if scan_safe(old(scanner)@) {
                lemma_skip_errors_safe(old(scanner)@);
            }
        }
        self.previous = self.current.clone();
        let ghost st0 = scanner@;
        let ghost mut seen: Seq<SpecToken> = Seq::empty();
        proof {
            scanner.lemma_wf();
            assert(seen + spec_skip_errors(st0).0 =~= spec_skip_errors(st0).0);
        }
        loop
            invariant
                st0 == old(scanner)@,
                spec_skip_errors(st0).2.source == st0.source,
                st0.current <= spec_skip_errors(st0).2.current <= st0.source.len(),
                spec_skip_errors(st0).1.token_type != TokenType::Eof ==> st0.current
                    < spec_skip_errors(st0).2.current,
                scan_safe(st0) ==> scan_safe(spec_skip_errors(st0).2),
                scanner.wf(),
                !advance_panics(scanner@),
                spec_skip_errors(st0) == (
                    seen + spec_skip_errors(scanner@).0,
                    spec_skip_errors(scanner@).1,
                    spec_skip_errors(scanner@).2,
                ),
                seen.len() == 0 ==> self.reported_all(old(self), Seq::empty()),
                seen.len() > 0 ==> self.reported(old(self), seen[0], seen[0].text),
                self.previous@ == old(self).current@,
                self.prevprev == old(self).prevprev,
                self.compiler == old(self).compiler,
                self.compiler_stack == old(self).compiler_stack,
                self.const_table == old(self).const_table,
                self.type_tag == old(self).type_tag,
                self.expected_type == old(self).expected_type,
                self.control_flow == old(self).control_flow,
                self.function_info == old(self).function_info,
                self.info == old(self).info,
                self.float_bits == old(self).float_bits,
            decreases scanner@.source.len() - scanner@.current,
        {
            proof {
                scanner.lemma_wf();
                lemma_scan_progress(scanner@);
            }
            let ghost before = scanner@;
            self.current = scanner.scan_tokens();
            if self.current.token_type != TokenType::Error {
                proof {
                    assert(spec_skip_errors(before) == (Seq::<SpecToken>::empty(), self.current@, scanner@));
                    assert(seen + Seq::<SpecToken>::empty() =~= seen);
                    assert(spec_skip_errors(st0).0 == seen);
                    assert(self.advanced(old(self), old(scanner)@, scanner@));
                    lemma_advanced_cursor(*old(self), *self, old(scanner)@, scanner@);
                }
                return;
            }
            let ghost tok = self.current@;
            proof {
                let (e2, t2, s2) = spec_skip_errors(scanner@);
                assert(spec_skip_errors(before) == (seq![tok] + e2, t2, s2));
                assert(seen + (seq![tok] + e2) =~= seen.push(tok) + e2);
            }
            let token_location = self.current.start.clone();
            self.error_at_current(token_location.as_str());
            proof {
                seen = seen.push(tok);
            }
        }
    }

    /// Reads the next token when the current one has kind `token_type`: returns
    /// whether it did.
    pub fn match_consume(&mut self, token_type: &TokenType, scanner: &mut Scanner) -> (r: bool)
        requires
            old(scanner).wf(),
            scan_safe(old(scanner)@),
        ensures
            final(scanner).wf(),
            scan_safe(final(scanner)@),
            r == (old(self).current.token_type == *token_type),
            r ==> final(self).advanced(old(self), old(scanner)@, final(scanner)@),
            !r ==> *final(self) == *old(self) && final(scanner)@ == old(scanner)@,
            final(scanner)@.source == old(scanner)@.source,
            parse_measure(final(scanner)@, final(self).current.token_type) <= parse_measure(
                old(scanner)@,
                old(self).current.token_type,
            ),
            r && old(self).current.token_type != TokenType::Eof ==> parse_measure(
                final(scanner)@,
                final(self).current.token_type,
            ) < parse_measure(old(scanner)@, old(self).current.token_type),
            r ==> final(self).at(final(scanner)@) == cursor_advance(old(self).at(old(scanner)@)).0,
            r ==> final(self).reports_made(
                old(self),
                cursor_advance(old(self).at(old(scanner)@)).1,
            ),
            final(self).with_reading_state_of(old(self)) == *old(self),
    {
        if !self.check(token_type) {
            return false;
        } else {
            proof {
                old(scanner).lemma_wf();
                lemma_skip_errors_safe(old(scanner)@);
            }
            self.advance(scanner);
            return true;
        }
    }

    /// Reads the next token when the current one has kind `token_type`; otherwise
    /// reports `message` at the current token and reads nothing.
    pub fn consume(&mut self, token_type: TokenType, message: &str, scanner: &mut Scanner)
        requires
            old(scanner).wf(),
            scan_safe(old(scanner)@),
        ensures
            final(scanner).wf(),
            scan_safe(final(scanner)@),
            old(self).current.token_type == token_type ==> final(self).advanced(
                old(self),
                old(scanner)@,
                final(scanner)@,
            ),
            old(self).current.token_type != token_type ==> {
                &&& final(self).same_but_errors(old(self))
                &&& final(self).reported(old(self), old(self).current@, message@)
                &&& final(scanner)@ == old(scanner)@
            },
            final(scanner)@.source == old(scanner)@.source,
            parse_measure(final(scanner)@, final(self).current.token_type) <= parse_measure(
                old(scanner)@,
                old(self).current.token_type,
            ),
            final(self).at(final(scanner)@) == cursor_consume(
                old(self).at(old(scanner)@),
                token_type,
                message@,
            ).0,
            final(self).reports_made(
                old(self),
                cursor_consume(old(self).at(old(scanner)@), token_type, message@).1,
            ),
            old(self).current.token_type == token_type && token_type != TokenType::Eof
                ==> parse_measure(final(scanner)@, final(self).current.token_type) < parse_measure(
                old(scanner)@,
                old(self).current.token_type,
            ),
            final(self).with_reading_state_of(old(self)) == *old(self),
    {
        if self.current.token_type == token_type {
            proof {
                old(scanner).lemma_wf();
                lemma_skip_errors_safe(old(scanner)@);
            }
            self.advance(scanner);
            return ;
        }
        self.error_at_current(message);
    }

    /// Leaves error recovery: reads tokens until the end of the source, a token
    /// after a `;`, or a token that starts a statement or a block (see `spec_sync`).
    /// Error tokens read on the way are reported again.
    pub fn synchronize(&mut self, scanner: &mut Scanner)
        requires
            old(scanner).wf(),
            scan_safe(old(scanner)@),
        ensures
            final(scanner).wf(),
            scan_safe(final(scanner)@),
            ({
                let (errs, p, c, st) = spec_sync(
                    old(self).previous@,
                    old(self).current@,
                    old(scanner)@,
                );
                &&& final(scanner)@ == st
                &&& final(self).previous@ == p
                &&& final(self).current@ == c
                &&& final(self).errors_reported_after(
                    false,
                    old(self).had_err,
                    old(self).diagnostics@,
                    errs,
                )
            }),
            final(self).prevprev == old(self).prevprev,
            final(self).compiler == old(self).compiler,
            final(self).compiler_stack == old(self).compiler_stack,
            final(self).const_table == old(self).const_table,
            final(self).type_tag == old(self).type_tag,
            final(self).expected_type == old(self).expected_type,
            final(self).control_flow == old(self).control_flow,
            final(self).function_info == old(self).function_info,
            final(self).info == old(self).info,
            final(self).float_bits == old(self).float_bits,
            final(scanner)@.source == old(scanner)@.source,
            parse_measure(final(scanner)@, final(self).current.token_type) <= parse_measure(
                old(scanner)@,
                old(self).current.token_type,
            ),
    {
        self.painc_mode = false;
        let ghost s0 = spec_sync(old(self).previous@, old(self).current@, old(scanner)@);
        let ghost mut seen: Seq<SpecToken> = Seq::empty();
        proof {
            assert(seen + s0.0 =~= s0.0);
        }
        while self.current.token_type != TokenType::Eof
            invariant
                scanner.wf(),
                scan_safe(scanner@),
                s0 == spec_sync(old(self).previous@, old(self).current@, old(scanner)@),
                ({
                    let (e, p, c, st) = spec_sync(self.previous@, self.current@, scanner@);
                    s0 == (seen + e, p, c, st)
                }),
                self.errors_reported_after(false, old(self).had_err, old(self).diagnostics@, seen),
                self.prevprev == old(self).prevprev,
                self.compiler == old(self).compiler,
                self.compiler_stack == old(self).compiler_stack,
                self.const_table == old(self).const_table,
                self.type_tag == old(self).type_tag,
                self.expected_type == old(self).expected_type,
                self.control_flow == old(self).control_flow,
                self.function_info == old(self).function_info,
                self.info == old(self).info,
                self.float_bits == old(self).float_bits,
                scanner@.source == old(scanner)@.source,
                parse_measure(scanner@, self.current.token_type) <= parse_measure(
                    old(scanner)@,
                    old(self).current.token_type,
                ),
            decreases parse_measure(scanner@, self.current.token_type),
        {
            proof {
                scanner.lemma_wf();
                lemma_skip_errors_safe(scanner@);
                lemma_skip_errors(scanner@);
            }
            if self.previous.token_type == TokenType::Semicolon {
                proof {
                    assert(seen + Seq::<SpecToken>::empty() =~= seen);
                }
                return ;
            }
            match self.current.token_type {
                TokenType::Print
                | TokenType::Println
                | TokenType::Let
                | TokenType::Const
                | TokenType::Fn
                | TokenType::If
                | TokenType::While
                | TokenType::Loop
                | TokenType::Match
                | TokenType::LeftBrace
                | TokenType::RightBrace => {
                    proof {
                        assert(seen + Seq::<SpecToken>::empty() =~= seen);
                    }
                    return ;
                },
                _ => {
                    let ghost x = *self;
                    let ghost st = scanner@;
                    let ghost (e1, t1, st1) = spec_skip_errors(st);
                    self.advance(scanner);
                    proof {
                        lemma_errors_compose(
                            x,
                            *self,
                            false,
                            old(self).had_err,
                            old(self).diagnostics@,
                            seen,
                            e1,
                        );
                        let (e2, p2, c2, st2) = spec_sync(self.previous@, self.current@, scanner@);
                        assert(seen + (e1 + e2) =~= (seen + e1) + e2);
                        seen = seen + e1;
                    }
                },
            }
        }
        proof {
            assert(seen + Seq::<SpecToken>::empty() =~= seen);
        }
    }
}

impl Compiler {
    /// The compiler of a new function of kind `function_type`: one reserved local
    /// (empty name, depth 0, not mutable, `Void`), at scope depth 0, with an
    /// empty function that has not returned.
    pub fn new(function_type: FunctionType) -> (c: Compiler)
        ensures
            c.locals@.len() == 1,
            c.locals@[0].name@ == (SpecToken {
                token_type: TokenType::Eof,
                text: Seq::empty(),
                length: 0,
                line: 0,
            }),
            c.locals@[0].depth == 0,
            !c.locals@[0].is_mut,
            c.locals@[0].type_tag == TypeTag::Void,
            c.local_count == 1,
            c.scope_depth == 0,
            c.function.function_type == function_type,
            c.function.function.arity == 0,
            c.function.function.name@.len() == 0,
            c.function.function.chunk.code@.len() == 0,
            c.function.function.chunk.line@.len() == 0,
            c.function.function.chunk.constants.values@.len() == 0,
            !c.has_returned,
    {
        let mut locals: Vec<Local> = Vec::new();
        locals.push(
            Local { name: Token::default(), depth: 0, is_mut: false, type_tag: TypeTag::Void },
        );
        Compiler {
            locals,
            local_count: 1,
            scope_depth: 0,
            function: Functions { function: Function::new(), function_type },
            has_returned: false,
        }
    }
}

impl Parser {
    /// A parser before the first token: empty tokens, no error, the compiler of
    /// the top-level script, and every table and stack empty; the slot of the last
    /// local read is 0.
    pub fn new() -> (p: Parser)
        ensures
            p.wf(),
            p.current@ == p.previous@,
            p.prevprev@ == p.previous@,
            p.previous@ == (SpecToken {
                token_type: TokenType::Eof,
                text: Seq::empty(),
                length: 0,
                line: 0,
            }),
            !p.had_err,
            !p.painc_mode,
            p.compiler.locals@.len() == 1,
            p.compiler.scope_depth == 0,
            p.compiler.function.function_type == FunctionType::Script,
            p.chunk().code@.len() == 0,
            p.chunk().line@.len() == 0,
            p.chunk().constants.values@.len() == 0,
            !p.compiler.has_returned,
            p.compiler_stack@.len() == 0,
            p.const_table@ == Map::<Seq<char>, (Value, TypeTag)>::empty(),
            p.type_tag@.len() == 0,
            p.expected_type is None,
            p.control_flow.loop_starts@.len() == 0,
            p.control_flow.stops@.len() == 0,
            p.control_flow.locals_in@.len() == 0,
            p.info.is_mut@.len() == 0,
            p.info.last_local_slot == Some(0u8),
            p.function_info.parameters_type_tag_table@ == Map::<Seq<char>, Vec<TypeTag>>::empty(),
            p.function_info.return_type_tag_table@ == Map::<Seq<char>, TypeTag>::empty(),
            p.diagnostics@.len() == 0,
            p.float_bits@ == Map::<Seq<char>, u64>::empty(),
    {
        Parser {
            current: Token::default(),
            previous: Token::default(),
            prevprev: Token::default(),
            had_err: false,
            painc_mode: false,
            compiler: Compiler::new(FunctionType::Script),
            compiler_stack: Vec::new(),
            const_table: StringHashMap::new(),
            type_tag: Vec::new(),
            expected_type: None,
            control_flow: ControlFlow {
                loop_starts: Vec::new(),
                stops: Vec::new(),
                locals_in: Vec::new(),
            },
            function_info: FunctionInfo {
                parameters_type_tag_table: StringHashMap::new(),
                return_type_tag_table: StringHashMap::new(),
            },
            info: Info { is_mut: Vec::new(), last_local_slot: Some(0) },
            diagnostics: Vec::new(),
            float_bits: StringHashMap::new(),
        }
    }
}

} // verus!
