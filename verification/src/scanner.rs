//! The scanner: turns source text into tokens, one token per call.
use vstd::prelude::*;

use crate::text::{
    char_is_alphabetic, char_is_numeric, chars_of, is_alphabetic, is_numeric, len_utf8,
    lemma_utf8_len_bound, string_from, string_of, utf8_len, utf8_len_range,
};

verus! {

/// The kinds of tokens of the language.
#[derive(Debug, Clone, Copy, PartialEq, Eq, Structural)]
pub enum TokenType {
    // Single-character tokens.
    LeftParen,
    RigtParen,
    LeftBrace,
    RightBrace,
    Comma,
    Dot,
    Minus,
    Plus,
    Semicolon,
    Slash,
    Star,
    Modulo,
    Colon,
    LeftBracket,
    RightBracket,
    WildCard,
    // One or two character tokens.
    Bang,
    BangEqual,
    Equal,
    EqualEqual,
    Greater,
    GreaterEqual,
    Lesser,
    LesserEqual,
    FatArrowLeft,
    PlusEqual,
    MinusEqual,
    DoubleColon,
    DotDot,
    // Literals.
    Identifier,
    String,
    Number,
    Char,
    // Keywords.
    Print,
    Println,
    Let,
    Tilde,
    Const,
    Fn,
    To,
    If,
    Else,
    Or,
    And,
    While,
    Loop,
    Stop,
    Skip,
    Return,
    Arrow,
    Match,
    For,
    In,
    True,
    False,
    Int,
    Str,
    Float,
    Bool,
    Unt,
    Array,
    Opt,
    OptSome,
    OptNone,
    Void,
    Nai,
    Abs,
    Floor,
    Ceil,
    Round,
    SetKw,
    Fix,
    Sqrt,
    IsEmpty,
    Trim,
    Reverse,
    // Other.
    Error,
    Eof,
}

/// A token: its kind, its text (for an error token, the message), the length of
/// that text in bytes, and the line it ends on.
pub struct Token {
    pub token_type: TokenType,
    pub start: String,
    pub length: usize,
    pub line: usize,
}

/// The mathematical content of a token.
pub struct SpecToken {
    pub token_type: TokenType,
    pub text: Seq<char>,
    pub length: nat,
    pub line: nat,
}

impl View for Token {
    type V = SpecToken;

    open spec fn view(&self) -> SpecToken {
        SpecToken {
            token_type: self.token_type,
            text: self.start@,
            length: self.length as nat,
            line: self.line as nat,
        }
    }
}

impl Token {
    /// The empty token of kind `Eof` on line 0, which a parser holds before its first read.
    pub fn default() -> (t: Token)
        ensures
            t@ == (SpecToken { token_type: TokenType::Eof, text: Seq::empty(), length: 0, line: 0 }),
    {
        Token { token_type: TokenType::Eof, start: String::new(), length: 0, line: 0 }
    }

    /// A copy of the token.
    pub fn clone(&self) -> (t: Token)
        ensures
            t == *self,
    {
        Token {
            token_type: self.token_type,
            start: self.start.clone(),
            length: self.length,
            line: self.line,
        }
    }
}

/// Where a scanner stands: the source, the start of the token being read, the
/// position reached, and the current line.
pub struct ScanState {
    pub source: Seq<char>,
    pub start: int,
    pub current: int,
    pub line: int,
}

/// Scans `source` into tokens, one `scan_tokens` call at a time.
pub struct Scanner {
    source: Vec<char>,
    start: usize,
    current: usize,
    line: usize,
}

impl View for Scanner {
    type V = ScanState;

    closed spec fn view(&self) -> ScanState {
        ScanState {
            source: self.source@,
            start: self.start as int,
            current: self.current as int,
            line: self.line as int,
        }
    }
}

/// The character at `i`, or `'\0'` past the end (what the scanner peeks there).
pub open spec fn char_at(src: Seq<char>, i: int) -> char {
    if 0 <= i < src.len() {
        src[i]
    } else {
        '\0'
    }
}

/// Whitespace and comments skipped from `pos`; `in_comment` when inside a `//` comment.
/// The result is the position of the next token and the line number there.
pub open spec fn skip_trivia(src: Seq<char>, pos: int, line: int, in_comment: bool) -> (int, int)
    decreases src.len() - pos,
{
    if pos < 0 || pos >= src.len() {
        (pos, line)
    } else if in_comment {
        if src[pos] == '\n' {
            skip_trivia(src, pos + 1, line + 1, false)
        } else {
            skip_trivia(src, pos + 1, line, true)
        }
    } else if src[pos] == ' ' || src[pos] == '\r' || src[pos] == '\t' {
        skip_trivia(src, pos + 1, line, false)
    } else if src[pos] == '\n' {
        skip_trivia(src, pos + 1, line + 1, false)
    } else if src[pos] == '/' && char_at(src, pos + 1) == '/' {
        skip_trivia(src, pos + 1, line, true)
    } else {
        (pos, line)
    }
}

/// The end of the run of numeric characters that starts at `i`.
pub open spec fn numeric_end(src: Seq<char>, i: int) -> int
    decreases src.len() - i,
{
    if 0 <= i < src.len() && char_is_numeric(src[i]) {
        numeric_end(src, i + 1)
    } else {
        i
    }
}

/// Whether `c` may continue an identifier.
pub open spec fn is_ident_char(c: char) -> bool {
    char_is_alphabetic(c) || char_is_numeric(c) || c == '_'
}

/// The end of the run of identifier characters that starts at `i`.
pub open spec fn ident_end(src: Seq<char>, i: int) -> int
    decreases src.len() - i,
{
    if 0 <= i < src.len() && is_ident_char(src[i]) {
        ident_end(src, i + 1)
    } else {
        i
    }
}

/// Scanning the body of a string literal from `i`: the position of the closing quote
/// (or the end of the source) and the line number there.
pub open spec fn string_end(src: Seq<char>, i: int, line: int) -> (int, int)
    decreases src.len() - i,
{
    if i < 0 || i >= src.len() || src[i] == '"' {
        (i, line)
    } else if src[i] == '\n' {
        string_end(src, i + 1, line + 1)
    } else {
        string_end(src, i + 1, line)
    }
}

/// The end of a number literal whose first digit is at `p`: digits, then a fraction
/// when a `.` is followed by a digit.
pub open spec fn number_end(src: Seq<char>, p: int) -> int {
    let q = numeric_end(src, p + 1);
    if char_at(src, q) == '.' && char_is_numeric(char_at(src, q + 1)) {
        numeric_end(src, q + 1)
    } else {
        q
    }
}

/// The keyword spelled by `text`, or `Identifier`.
pub open spec fn keyword(text: Seq<char>) -> TokenType {
    if text == seq!['p', 'r', 'i', 'n', 't'] {
        TokenType::Print
    } else if text == seq!['a', 'b', 's'] {
        TokenType::Abs
    } else if text == seq!['f', 'l', 'o', 'o', 'r'] {
        TokenType::Floor
    } else if text == seq!['c', 'e', 'i', 'l'] {
        TokenType::Ceil
    } else if text == seq!['R', 'o', 'u', 'n', 'd'] {
        TokenType::Round
    } else if text == seq!['s', 'e', 't'] {
        TokenType::SetKw
    } else if text == seq!['f', 'i', 'x'] {
        TokenType::Fix
    } else if text == seq!['s', 'q', 'r', 't'] {
        TokenType::Sqrt
    } else if text == seq!['i', 's', '_', 'e', 'm', 'p', 't', 'y'] {
        TokenType::IsEmpty
    } else if text == seq!['t', 'r', 'i', 'm'] {
        TokenType::Trim
    } else if text == seq!['r', 'e', 'v'] {
        TokenType::Reverse
    } else {
        TokenType::Identifier
    }
}

/// The kind of the token made of the single character `c`, if `c` is one of them.
pub open spec fn single_char_token(c: char) -> Option<TokenType> {
    if c == '(' {
        Option::Some(TokenType::LeftParen)
    } else if c == ')' {
        Option::Some(TokenType::RigtParen)
    } else if c == '{' {
        Option::Some(TokenType::LeftBrace)
    } else if c == '}' {
        Option::Some(TokenType::RightBrace)
    } else if c == ';' {
        Option::Some(TokenType::Semicolon)
    } else if c == ',' {
        Option::Some(TokenType::Comma)
    } else if c == '.' {
        Option::Some(TokenType::Dot)
    } else if c == '-' {
        Option::Some(TokenType::Minus)
    } else if c == '+' {
        Option::Some(TokenType::Plus)
    } else if c == '/' {
        Option::Some(TokenType::Slash)
    } else if c == '*' {
        Option::Some(TokenType::Star)
    } else {
        Option::None
    }
}

/// For `!`, `=`, `<` and `>`: the kind of the two-character token they make with
/// a following `=`, and the kind of the one-character token otherwise.
pub open spec fn operator_tokens(c: char) -> Option<(TokenType, TokenType)> {
    if c == '!' {
        Option::Some((TokenType::BangEqual, TokenType::Bang))
    } else if c == '=' {
        Option::Some((TokenType::EqualEqual, TokenType::Equal))
    } else if c == '<' {
        Option::Some((TokenType::LesserEqual, TokenType::Lesser))
    } else if c == '>' {
        Option::Some((TokenType::GreaterEqual, TokenType::Greater))
    } else {
        Option::None
    }
}

/// The message of the error token for a character that starts no token.
pub open spec fn unexpected_message() -> Seq<char> {
    seq![
        'U', 'n', 'e', 'x', 'p', 'e', 'c', 't', 'e', 'd', ' ', 'c', 'h', 'a', 'r', 'a', 'c', 't',
        'e', 'r', '.',
    ]
}

/// The token for `src[start..end]` of kind `tt` on line `line`.
pub open spec fn lexeme_token(src: Seq<char>, tt: TokenType, start: int, end: int, line: int) -> SpecToken {
    SpecToken {
        token_type: tt,
        text: src.subrange(start, end),
        length: utf8_len(src.subrange(start, end)),
        line: line as nat,
    }
}

/// Whether the next call of `scan_tokens` from `st` reaches the end of the source
/// inside a string literal: the scanner then reads past the end and panics.
pub open spec fn scan_panics(st: ScanState) -> bool {
    let (p, l) = skip_trivia(st.source, st.current, st.line, false);
    &&& p < st.source.len()
    &&& st.source[p] == '"'
    &&& string_end(st.source, p + 1, l).0 >= st.source.len()
}

/// The token that `scan_tokens` returns from `st`, and the state after it.
pub open spec fn spec_scan(st: ScanState) -> (SpecToken, ScanState) {
    let src = st.source;
    let (p, l) = skip_trivia(src, st.current, st.line, false);
    let at = |end: int, line: int| ScanState { source: src, start: p, current: end, line };
    if p >= src.len() {
        (lexeme_token(src, TokenType::Eof, p, p, l), at(p, l))
    } else {
        let c = src[p];
        if single_char_token(c) is Some {
            (lexeme_token(src, single_char_token(c)->0, p, p + 1, l), at(p + 1, l))
        } else if operator_tokens(c) is Some {
            let (with_eq, alone) = operator_tokens(c)->0;
            if char_at(src, p + 1) == '=' {
                (lexeme_token(src, with_eq, p, p + 2, l), at(p + 2, l))
            } else {
                (lexeme_token(src, alone, p, p + 1, l), at(p + 1, l))
            }
        } else if c == '"' {
            let (q, l2) = string_end(src, p + 1, l);
            (lexeme_token(src, TokenType::String, p, q + 1, l2), at(q + 1, l2))
        } else if char_is_numeric(c) {
            let e = number_end(src, p);
            (lexeme_token(src, TokenType::Number, p, e, l), at(e, l))
        } else if char_is_alphabetic(c) {
            let e = ident_end(src, p + 1);
            (lexeme_token(src, keyword(src.subrange(p, e)), p, e, l), at(e, l))
        } else {
            (
                SpecToken {
                    token_type: TokenType::Error,
                    text: unexpected_message(),
                    length: 21,
                    line: l as nat,
                },
                at(p + 1, l),
            )
        }
    }
}

/// Facts about the trivia skipped from a position.
pub proof fn lemma_skip_trivia(src: Seq<char>, pos: int, line: int, in_comment: bool)
    requires
        0 <= pos <= src.len(),
    ensures
        pos <= skip_trivia(src, pos, line, in_comment).0 <= src.len(),
        line <= skip_trivia(src, pos, line, in_comment).1,
        skip_trivia(src, pos, line, in_comment).1 - line <= skip_trivia(src, pos, line, in_comment).0
            - pos,
    decreases src.len() - pos,
{
    if pos < src.len() {
        if in_comment {
            lemma_skip_trivia(src, pos + 1, if src[pos] == '\n' { line + 1 } else { line }, src[pos] != '\n');
        } else if src[pos] == ' ' || src[pos] == '\r' || src[pos] == '\t' || src[pos] == '\n' {
            lemma_skip_trivia(src, pos + 1, if src[pos] == '\n' { line + 1 } else { line }, false);
        } else if src[pos] == '/' && char_at(src, pos + 1) == '/' {
            lemma_skip_trivia(src, pos + 1, line, true);
        }
    }
}

/// The scan of a string body moves forward and counts at most one line per character.
pub proof fn lemma_string_end(src: Seq<char>, i: int, line: int)
    requires
        0 <= i <= src.len(),
    ensures
        i <= string_end(src, i, line).0 <= src.len(),
        line <= string_end(src, i, line).1,
        string_end(src, i, line).1 - line <= string_end(src, i, line).0 - i,
        string_end(src, i, line).0 < src.len() ==> src[string_end(src, i, line).0] == '"',
    decreases src.len() - i,
{
    if i < src.len() && src[i] != '"' {
        lemma_string_end(src, i + 1, if src[i] == '\n' { line + 1 } else { line });
    }
}

/// A run of numeric characters moves forward and stays within the source.
pub proof fn lemma_numeric_end(src: Seq<char>, i: int)
    requires
        0 <= i <= src.len(),
    ensures
        i <= numeric_end(src, i) <= src.len(),
    decreases src.len() - i,
{
    if i < src.len() && char_is_numeric(src[i]) {
        lemma_numeric_end(src, i + 1);
    }
}

/// A run of identifier characters moves forward and stays within the source.
pub proof fn lemma_ident_end(src: Seq<char>, i: int)
    requires
        0 <= i <= src.len(),
    ensures
        i <= ident_end(src, i) <= src.len(),
    decreases src.len() - i,
{
    if i < src.len() && is_ident_char(src[i]) {
        lemma_ident_end(src, i + 1);
    }
}

/// Each token read moves the scanner forward, except the end-of-source token, which
/// leaves it at the end; positions stay within the source and lines never go back.
pub proof fn lemma_scan_progress(st: ScanState)
    requires
        0 <= st.current <= st.source.len(),
        !scan_panics(st),
    ensures
        spec_scan(st).1.source == st.source,
        st.current <= spec_scan(st).1.current <= st.source.len(),
        st.line <= spec_scan(st).1.line,
        spec_scan(st).0.token_type != TokenType::Eof ==> st.current < spec_scan(st).1.current,
        spec_scan(st).0.token_type == TokenType::Eof ==> spec_scan(st).1.current
            == st.source.len(),
{
    let src = st.source;
    lemma_skip_trivia(src, st.current, st.line, false);
    let (p, l) = skip_trivia(src, st.current, st.line, false);
    if p < src.len() {
        let c = src[p];
        if c == '"' {
            lemma_string_end(src, p + 1, l);
        } else if char_is_numeric(c) {
            lemma_numeric_end(src, p + 1);
            let q = numeric_end(src, p + 1);
            if char_at(src, q) == '.' && char_is_numeric(char_at(src, q + 1)) {
                lemma_numeric_end(src, q + 1);
            }
        } else if char_is_alphabetic(c) {
            lemma_ident_end(src, p + 1);
        }
    }
}

/// Whether no call of `scan_tokens` from `st` on, up to the end of the source,
/// panics: no string literal met on the way is left unterminated.
pub open spec fn scan_safe(st: ScanState) -> bool
    decreases st.source.len() - st.current,
{
    &&& !scan_panics(st)
    &&& {
        let (t, st2) = spec_scan(st);
        t.token_type != TokenType::Eof && 0 <= st.current < st2.current <= st.source.len()
            ==> scan_safe(st2)
    }
}

/// Scanning from a state that scans safely leads to a state that scans safely.
pub proof fn lemma_scan_safe_step(st: ScanState)
    requires
        0 <= st.current <= st.source.len(),
        scan_safe(st),
    ensures
        scan_safe(spec_scan(st).1),
{
    lemma_scan_progress(st);
    let (t, st2) = spec_scan(st);
    if t.token_type == TokenType::Eof {
        assert(st2.current == st.source.len());
        assert(skip_trivia(st2.source, st2.current, st2.line, false) == (st2.current, st2.line));
        assert(spec_scan(st2).0.token_type == TokenType::Eof);
    }
}

/// Once the scanner has reached the end of the source, it stays there: every
/// further call gives `Eof` again and moves nothing but the token's start.
pub proof fn lemma_eof_sticky(st: ScanState)
    requires
        0 <= st.current <= st.source.len(),
        spec_scan(st).0.token_type == TokenType::Eof,
    ensures
        spec_scan(spec_scan(st).1).0.token_type == TokenType::Eof,
        spec_scan(spec_scan(st).1).1.current == spec_scan(st).1.current,
        spec_scan(spec_scan(st).1).1.line == spec_scan(st).1.line,
        !scan_panics(spec_scan(st).1),
{
    lemma_skip_trivia(st.source, st.current, st.line, false);
    let st2 = spec_scan(st).1;
    assert(skip_trivia(st2.source, st2.current, st2.line, false) == (st2.current, st2.line));
}

/// The number of line breaks (`\n`) in `s`.
pub open spec fn newlines(s: Seq<char>) -> nat
    decreases s.len(),
{
    if s.len() == 0 {
        0
    } else {
        (if s[0] == '\n' { 1nat } else { 0nat }) + newlines(s.drop_first())
    }
}

/// Line breaks of a concatenation add up.
pub proof fn lemma_newlines_concat(a: Seq<char>, b: Seq<char>)
    ensures
        newlines(a + b) == newlines(a) + newlines(b),
    decreases a.len(),
{
    if a.len() > 0 {
        assert((a + b).drop_first() =~= a.drop_first() + b);
        lemma_newlines_concat(a.drop_first(), b);
    } else {
        assert(a + b =~= b);
    }
}

/// The line reached by skipping trivia counts the line breaks skipped.
proof fn lemma_skip_trivia_lines(src: Seq<char>, pos: int, line: int, in_comment: bool)
    requires
        0 <= pos <= src.len(),
    ensures
        skip_trivia(src, pos, line, in_comment).1 == line + newlines(
            src.subrange(pos, skip_trivia(src, pos, line, in_comment).0),
        ),
    decreases src.len() - pos,
{
    lemma_skip_trivia(src, pos, line, in_comment);
    let q = skip_trivia(src, pos, line, in_comment).0;
    if pos < src.len() && q > pos {
        let nl = src[pos] == '\n';
        let next_line = if nl { line + 1 } else { line };
        if in_comment {
            lemma_skip_trivia_lines(src, pos + 1, next_line, !nl);
        } else if src[pos] == ' ' || src[pos] == '\r' || src[pos] == '\t' || nl {
            lemma_skip_trivia_lines(src, pos + 1, next_line, false);
        } else {
            lemma_skip_trivia_lines(src, pos + 1, line, true);
        }
        assert(src.subrange(pos, q).drop_first() =~= src.subrange(pos + 1, q));
    } else {
        assert(src.subrange(pos, q) =~= Seq::<char>::empty());
    }
}

/// The line reached at the end of a string body counts the line breaks in it.
proof fn lemma_string_end_lines(src: Seq<char>, i: int, line: int)
    requires
        0 <= i <= src.len(),
    ensures
        string_end(src, i, line).1 == line + newlines(src.subrange(i, string_end(src, i, line).0)),
    decreases src.len() - i,
{
    lemma_string_end(src, i, line);
    let q = string_end(src, i, line).0;
    if i < src.len() && src[i] != '"' {
        lemma_string_end_lines(src, i + 1, if src[i] == '\n' { line + 1 } else { line });
        assert(src.subrange(i, q).drop_first() =~= src.subrange(i + 1, q));
    } else {
        assert(src.subrange(i, q) =~= Seq::<char>::empty());
    }
}

/// The line of a token read from `st` is the scanner's line plus the line breaks
/// in the whitespace and comments skipped before it, and, for a string literal,
/// in the literal itself; the scanner is left on that line.
pub proof fn lemma_scan_lines(st: ScanState)
    requires
        0 <= st.current <= st.source.len(),
        0 <= st.line,
        !scan_panics(st),
    ensures
        ({
            let (t, st2) = spec_scan(st);
            let skipped = st.source.subrange(
                st.current,
                skip_trivia(st.source, st.current, st.line, false).0,
            );
            &&& st2.line == t.line
            &&& t.line == st.line + newlines(skipped) + if t.token_type == TokenType::String {
                newlines(t.text)
            } else {
                0
            }
        }),
{
    let src = st.source;
    lemma_skip_trivia(src, st.current, st.line, false);
    lemma_skip_trivia_lines(src, st.current, st.line, false);
    let (p, l) = skip_trivia(src, st.current, st.line, false);
    if p < src.len() && src[p] == '"' {
        lemma_string_end(src, p + 1, l);
        lemma_string_end_lines(src, p + 1, l);
        let q = string_end(src, p + 1, l).0;
        let body = src.subrange(p + 1, q);
        assert(src.subrange(p, q + 1) =~= seq![src[p]] + (body + seq![src[q]]));
        lemma_newlines_concat(seq![src[p]], body + seq![src[q]]);
        lemma_newlines_concat(body, seq![src[q]]);
        assert(newlines(seq![src[p]]) == 0) by {
            assert(seq![src[p]].drop_first() =~= Seq::<char>::empty());
            reveal_with_fuel(newlines, 2);
        }
        assert(newlines(seq![src[q]]) == 0) by {
            assert(seq![src[q]].drop_first() =~= Seq::<char>::empty());
            reveal_with_fuel(newlines, 2);
        }
    }
}

/// One call of `scan_tokens` from `st`, as a whole: the whitespace and comments
/// at the start (up to where `skip_trivia` stops) are skipped; the end-of-source
/// token comes exactly when nothing but them is left, and every call after it
/// gives it again; any other token moves the scanner forward, and unless it is an
/// error token its text is the source from the skipped trivia to where the scanner
/// stops; the line is counted as `lemma_scan_lines` says.
pub proof fn lemma_scan_step(st: ScanState)
    requires
        0 <= st.current <= st.source.len(),
        0 <= st.line,
        !scan_panics(st),
    ensures
        ({
            let (t, st2) = spec_scan(st);
            let p = skip_trivia(st.source, st.current, st.line, false).0;
            let skipped = st.source.subrange(st.current, p);
            &&& st.current <= p <= st.source.len()
            &&& (t.token_type == TokenType::Eof <==> p == st.source.len())
            &&& t.token_type == TokenType::Eof ==> spec_scan(st2).0.token_type == TokenType::Eof
            &&& t.token_type != TokenType::Eof ==> st.current < st2.current <= st.source.len()
            &&& t.token_type != TokenType::Eof && t.token_type != TokenType::Error ==> {
                &&& p < st2.current
                &&& t.text == st.source.subrange(p, st2.current)
            }
            &&& t.length == utf8_len(t.text)
            &&& st2.line == t.line
            &&& t.line == st.line + newlines(skipped) + if t.token_type == TokenType::String {
                newlines(t.text)
            } else {
                0
            }
        }),
{
    let src = st.source;
    lemma_skip_trivia(src, st.current, st.line, false);
    lemma_scan_progress(st);
    lemma_scan_lines(st);
    lemma_token_length(st);
    let (p, l) = skip_trivia(src, st.current, st.line, false);
    let (t, st2) = spec_scan(st);
    if t.token_type == TokenType::Eof {
        lemma_eof_sticky(st);
    }
    if p < src.len() {
        let c = src[p];
        if c == '"' {
            lemma_string_end(src, p + 1, l);
        } else if char_is_numeric(c) {
            lemma_numeric_end(src, p + 1);
            let q = numeric_end(src, p + 1);
            if char_at(src, q) == '.' && char_is_numeric(char_at(src, q + 1)) {
                lemma_numeric_end(src, q + 1);
            }
        } else if char_is_alphabetic(c) {
            lemma_ident_end(src, p + 1);
        }
    }
}

/// A token's length is the number of bytes of its text (for an error token, of
/// its message).
pub proof fn lemma_token_length(st: ScanState)
    ensures
        spec_scan(st).0.length == utf8_len(spec_scan(st).0.text),
{
    lemma_unexpected_message_len();
}

impl Scanner {
    /// The scanner's invariant: positions within the source, and the line number no
    /// larger than one more than the characters read.
    pub closed spec fn wf(&self) -> bool {
        &&& self.start <= self.current <= self.source.len()
        &&& self.source.len() <= usize::MAX / 4
        &&& 1 <= self.line <= self.current + 1
    }

    /// The positions of a well-formed scanner lie within its source.
    pub proof fn lemma_wf(&self)
        requires
            self.wf(),
        ensures
            0 <= self@.start <= self@.current <= self@.source.len(),
            self@.line >= 1,
    {
    }

    /// Whether every call of `scan_tokens` from here to the end of the source
    /// returns normally (see `scan_safe`).
    pub fn scans_safely(&self) -> (r: bool)
        requires
            self.wf(),
        ensures
            r == scan_safe(self@),
    {
        let mut probe = Scanner {
            source: self.source.clone(),
            start: self.start,
            current: self.current,
            line: self.line,
        };
        assert(probe@ == self@);
        loop
            invariant
                probe.wf(),
                scan_safe(probe@) == scan_safe(self@),
            decreases probe@.source.len() - probe@.current,
        {
            if probe.at_unterminated_string() {
                return false;
            }
            proof {
                lemma_scan_progress(probe@);
            }
            let ghost before = probe@;
            let t = probe.scan_tokens();
            if t.token_type == TokenType::Eof {
                return true;
            }
        }
    }

    /// Whether the next call of `scan_tokens` would panic (see `scan_panics`).
    pub open spec fn panics_next(&self) -> bool {
        scan_panics(self@)
    }

    /// A scanner at the start of `source`, on line 1.
    pub fn new(source: &str) -> (s: Scanner)
        requires
            source@.len() <= usize::MAX / 4,
        ensures
            s.wf(),
            s@ == (ScanState { source: source@, start: 0, current: 0, line: 1 }),
    {
        Scanner { source: chars_of(source), start: 0, current: 0, line: 1 }
    }

    /// Whether the next call of `scan_tokens` would read past the end of the source
    /// inside an unterminated string literal.
    pub fn at_unterminated_string(&self) -> (r: bool)
        requires
            self.wf(),
        ensures
            r == self.panics_next(),
    {
        let ghost src = self@.source;
        let mut pos = self.current;
        let mut line = self.line;
        let mut in_comment = false;
        proof {
            lemma_skip_trivia(src, pos as int, line as int, false);
        }
        let ghost target = skip_trivia(src, pos as int, line as int, false);
        // Skip trivia as `inconsumable` does, without moving the scanner.
        let mut done = false;
        while !done && pos < self.source.len()
            invariant
                self.wf(),
                src == self@.source,
                self.current <= pos <= src.len(),
                !done ==> skip_trivia(src, pos as int, line as int, in_comment) == target,
                done ==> target == (pos as int, line as int) && !in_comment,
                line as int <= pos as int + 1,
            decreases src.len() - pos, if done { 0int } else { 1int },
        {
            let c = self.source[pos];
            if in_comment {
                if c == '\n' {
                    line = line + 1;
                    in_comment = false;
                }
                pos = pos + 1;
            } else if c == ' ' || c == '\r' || c == '\t' {
                pos = pos + 1;
            } else if c == '\n' {
                line = line + 1;
                pos = pos + 1;
            } else if c == '/' && pos + 1 < self.source.len() && self.source[pos + 1] == '/' {
                in_comment = true;
                pos = pos + 1;
            } else {
                done = true;
            }
        }
        assert(target == (pos as int, line as int));
        if pos >= self.source.len() || self.source[pos] != '"' {
            return false;
        }
        let mut q = pos + 1;
        while q < self.source.len() && self.source[q] != '"'
            invariant
                pos < q <= src.len(),
                src == self@.source,
                string_end(src, q as int, 0).0 == string_end(src, pos + 1, 0).0,
            decreases src.len() - q,
        {
            proof {
                lemma_string_end_pos(src, q + 1, 0, 1);
            }
            q = q + 1;
        }
        proof {
            assert(string_end(src, pos + 1, 0).0 == string_end(src, pos + 1, line as int).0) by {
                lemma_string_end_pos(src, pos + 1, 0, line as int);
            }
        }
        q >= self.source.len()
    }

    /// Reads the next token, skipping whitespace and `//` comments before it.
    pub fn scan_tokens(&mut self) -> (t: Token)
        requires
            old(self).wf(),
            !old(self).panics_next(),
        ensures
            final(self).wf(),
            (t@, final(self)@) == spec_scan(old(self)@),
    {
        let ghost st = self@;
        self.inconsumable();
        self.start = self.current;
        let ghost p = self.current as int;
        let ghost l = self.line as int;
        assert((p, l) == skip_trivia(st.source, st.current, st.line, false));
        if self.is_at_end() {
            return self.make_token(TokenType::Eof);
        }
        let c = self.advance();
        proof {
            reveal_strlit("=");
            assert("="@ =~= seq!['=']);
        }
        assert(self@.source == st.source && self@.start == p && self@.current == p + 1 && self@.line == l);
        assert(c == st.source[p]);
        let t = if c == '(' {
            self.make_token(TokenType::LeftParen)
        } else if c == ')' {
            self.make_token(TokenType::RigtParen)
        } else if c == '{' {
            self.make_token(TokenType::LeftBrace)
        } else if c == '}' {
            self.make_token(TokenType::RightBrace)
        } else if c == ';' {
            self.make_token(TokenType::Semicolon)
        } else if c == ',' {
            self.make_token(TokenType::Comma)
        } else if c == '.' {
            self.make_token(TokenType::Dot)
        } else if c == '-' {
            self.make_token(TokenType::Minus)
        } else if c == '+' {
            self.make_token(TokenType::Plus)
        } else if c == '/' {
            self.make_token(TokenType::Slash)
        } else if c == '*' {
            self.make_token(TokenType::Star)
        } else if c == '!' {
            if self.match_tokens('=') {
                self.make_token(TokenType::BangEqual)
            } else {
                self.make_token(TokenType::Bang)
            }
        } else if c == '=' {
            if self.match_tokens('=') {
                self.make_token(TokenType::EqualEqual)
            } else {
                self.make_token(TokenType::Equal)
            }
        } else if c == '<' {
            if self.match_tokens('=') {
                self.make_token(TokenType::LesserEqual)
            } else {
                self.make_token(TokenType::Lesser)
            }
        } else if c == '>' {
            if self.match_tokens('=') {
                self.make_token(TokenType::GreaterEqual)
            } else {
                self.make_token(TokenType::Greater)
            }
        } else if c == '"' {
            let t = self.strings();
            assert((t@, self@) == spec_scan(st));
            t
        } else if is_numeric(c) {
            let t = self.numbers();
            assert((t@, self@) == spec_scan(st));
            t
        } else if is_alphabetic(c) {
            let t = self.identifier();
            assert((t@, self@) == spec_scan(st));
            t
        } else {
            proof {
                reveal_strlit("Unexpected character.");
                lemma_unexpected_message_len();
                assert("Unexpected character."@ =~= unexpected_message());
            }
            let t = self.error_token("Unexpected character.");
            assert((t@, self@) == spec_scan(st));
            t
        };
        t
    }

    fn is_at_end(&self) -> (r: bool)
        ensures
            r == (self.current >= self.source.len()),
    {
        self.current >= self.source.len()
    }

    fn make_token(&mut self, token_type: TokenType) -> (t: Token)
        requires
            old(self).wf(),
        ensures
            *final(self) == *old(self),
            t@ == lexeme_token(
                old(self)@.source,
                token_type,
                old(self)@.start,
                old(self)@.current,
                old(self)@.line,
            ),
    {
        let text = string_of(&self.source, self.start, self.current);
        let length = utf8_len_range(&self.source, self.start, self.current);
        Token { token_type, start: text, length, line: self.line }
    }

    fn error_token(&mut self, message: &str) -> (t: Token)
        requires
            old(self).wf(),
            message@.len() <= usize::MAX / 4,
        ensures
            *final(self) == *old(self),
            t@ == (SpecToken {
                token_type: TokenType::Error,
                text: message@,
                length: utf8_len(message@),
                line: old(self).line as nat,
            }),
    {
        Token {
            token_type: TokenType::Error,
            start: string_from(message),
            length: message_length(message),
            line: self.line,
        }
    }

    fn advance(&mut self) -> (c: char)
        requires
            old(self).start <= old(self).current < old(self).source.len(),
            old(self).source.len() <= usize::MAX / 4,
            1 <= old(self).line <= old(self).current + 2,
        ensures
            c == old(self).source@[old(self).current as int],
            *final(self) == (Scanner { current: (old(self).current + 1) as usize, ..*old(self) }),
    {
        let c = self.source[self.current];
        self.current = self.current + 1;
        c
    }

    /// Reads the next character when it is `expected`; returns whether it did.
    fn match_tokens(&mut self, expected: char) -> (r: bool)
        requires
            old(self).wf(),
        ensures
            final(self).wf(),
            r == (old(self).current < old(self).source.len() && old(self).source@[old(
                self,
            ).current as int] == expected),
            r ==> *final(self) == (Scanner { current: (old(self).current + 1) as usize, ..*old(self) }),
            !r ==> *final(self) == *old(self),
    {
        if self.is_at_end() {
            return false;
        }
        if self.source[self.current] != expected {
            return false;
        }
        self.current = self.current + 1;
        true
    }

    fn inconsumable(&mut self)
        requires
            old(self).wf(),
        ensures
            final(self).wf(),
            final(self).source == old(self).source,
            final(self).start == old(self).start,
            (final(self).current as int, final(self).line as int) == skip_trivia(
                old(self)@.source,
                old(self)@.current,
                old(self)@.line,
                false,
            ),
    {
        let ghost target = skip_trivia(self@.source, self@.current, self@.line, false);
        loop
            invariant
                target == skip_trivia(old(self)@.source, old(self)@.current, old(self)@.line, false),
                self.wf(),
                self.source == old(self).source,
                self.start == old(self).start,
                skip_trivia(self@.source, self@.current, self@.line, false) == target,
            decreases self.source.len() - self.current,
        {
            let c = self.peek();
            if c == ' ' || c == '\r' || c == '\t' {
                self.advance();
            } else if c == '\n' {
                self.line = self.line + 1;
                self.advance();
            } else if c == '/' {
                if self.peek_next() == '/' {
                    let ghost c0 = self.current;
                    self.advance();
                    while self.peek() != '\n' && !self.is_at_end()
                        invariant
                            self.current > c0,
                            self.wf(),
                            self.source == old(self).source,
                            self.start == old(self).start,
                            skip_trivia(self@.source, self@.current, self@.line, true) == target,
                        decreases self.source.len() - self.current,
                    {
                        self.advance();
                    }
                    if !self.is_at_end() {
                        self.line = self.line + 1;
                        self.advance();
                    }
                } else {
                    return;
                }
            } else {
                return;
            }
        }
    }

    fn peek(&self) -> (c: char)
        ensures
            c == char_at(self@.source, self@.current),
    {
        if self.current < self.source.len() {
            self.source[self.current]
        } else {
            '\0'
        }
    }

    fn peek_next(&self) -> (c: char)
        ensures
            c == (if self.current >= self.source.len() {
                '\0'
            } else {
                char_at(self@.source, self@.current + 1)
            }),
    {
        if self.is_at_end() {
            return '\0';
        }
        if self.current + 1 < self.source.len() {
            self.source[self.current + 1]
        } else {
            '\0'
        }
    }

    fn strings(&mut self) -> (t: Token)
        requires
            old(self).wf(),
            old(self).current >= 1,
            string_end(old(self)@.source, old(self)@.current, old(self)@.line).0 < old(
                self,
            ).source.len(),
        ensures
            final(self).wf(),
            final(self).source == old(self).source,
            final(self).start == old(self).start,
            ({
                let (q, l2) = string_end(old(self)@.source, old(self)@.current, old(self)@.line);
                &&& final(self)@.current == q + 1
                &&& final(self)@.line == l2
                &&& t@ == lexeme_token(
                    old(self)@.source,
                    TokenType::String,
                    old(self)@.start,
                    q + 1,
                    l2,
                )
            }),
    {
        let ghost target = string_end(self@.source, self@.current, self@.line);
        while self.peek() != '"' && !self.is_at_end()
            invariant
                self.wf(),
                self.source == old(self).source,
                self.start == old(self).start,
                string_end(self@.source, self@.current, self@.line) == target,
                target.0 < self.source.len(),
            decreases self.source.len() - self.current,
        {
            if self.peek() == '\n' {
                self.line = self.line + 1;
            }
            self.advance();
        }
        self.advance();
        self.make_token(TokenType::String)
    }

    fn numbers(&mut self) -> (t: Token)
        requires
            old(self).wf(),
            old(self).current >= 1,
        ensures
            final(self).wf(),
            final(self).source == old(self).source,
            final(self).start == old(self).start,
            final(self).line == old(self).line,
            final(self)@.current == number_end(old(self)@.source, old(self)@.current - 1),
            t@ == lexeme_token(
                old(self)@.source,
                TokenType::Number,
                old(self)@.start,
                number_end(old(self)@.source, old(self)@.current - 1),
                old(self)@.line,
            ),
    {
        let ghost src = self@.source;
        proof {
            lemma_numeric_end(src, self@.current);
        }
        while is_numeric(self.peek())
            invariant
                self.wf(),
                self.source == old(self).source,
                self.start == old(self).start,
                self.line == old(self).line,
                src == self@.source,
                numeric_end(src, self@.current) == numeric_end(src, old(self)@.current),
            decreases self.source.len() - self.current,
        {
            self.advance();
        }
        let ghost q = self@.current;
        assert(q == numeric_end(src, old(self)@.current));
        if self.peek() == '.' && is_numeric(self.peek_next()) {
            self.advance();
            proof {
                lemma_numeric_end(src, self@.current);
            }
            while is_numeric(self.peek())
                invariant
                    self.wf(),
                    self.source == old(self).source,
                    self.start == old(self).start,
                    self.line == old(self).line,
                    src == self@.source,
                    numeric_end(src, self@.current) == numeric_end(src, q + 1),
                decreases self.source.len() - self.current,
            {
                self.advance();
            }
        }
        self.make_token(TokenType::Number)
    }

    fn identifier(&mut self) -> (t: Token)
        requires
            old(self).wf(),
            old(self).start < old(self).current,
        ensures
            final(self).wf(),
            final(self).source == old(self).source,
            final(self).start == old(self).start,
            final(self).line == old(self).line,
            final(self)@.current == ident_end(old(self)@.source, old(self)@.current),
            t@ == lexeme_token(
                old(self)@.source,
                keyword(
                    old(self)@.source.subrange(
                        old(self)@.start,
                        ident_end(old(self)@.source, old(self)@.current),
                    ),
                ),
                old(self)@.start,
                ident_end(old(self)@.source, old(self)@.current),
                old(self)@.line,
            ),
    {
        let ghost src = self@.source;
        while is_alphabetic(self.peek()) || is_numeric(self.peek()) || self.peek() == '_'
            invariant
                self.wf(),
                self.source == old(self).source,
                self.start == old(self).start,
                self.line == old(self).line,
                src == self@.source,
                ident_end(src, self@.current) == ident_end(src, old(self)@.current),
            decreases self.source.len() - self.current,
        {
            self.advance();
        }
        let token_type = self.identifier_type();
        self.make_token(token_type)
    }

    fn identifier_type(&mut self) -> (tt: TokenType)
        requires
            old(self).wf(),
        ensures
            *final(self) == *old(self),
            tt == keyword(old(self)@.source.subrange(old(self)@.start, old(self)@.current)),
    {
        if self.text_is(&['p', 'r', 'i', 'n', 't']) {
            TokenType::Print
        } else if self.text_is(&['a', 'b', 's']) {
            TokenType::Abs
        } else if self.text_is(&['f', 'l', 'o', 'o', 'r']) {
            TokenType::Floor
        } else if self.text_is(&['c', 'e', 'i', 'l']) {
            TokenType::Ceil
        } else if self.text_is(&['R', 'o', 'u', 'n', 'd']) {
            TokenType::Round
        } else if self.text_is(&['s', 'e', 't']) {
            TokenType::SetKw
        } else if self.text_is(&['f', 'i', 'x']) {
            TokenType::Fix
        } else if self.text_is(&['s', 'q', 'r', 't']) {
            TokenType::Sqrt
        } else if self.text_is(&['i', 's', '_', 'e', 'm', 'p', 't', 'y']) {
            TokenType::IsEmpty
        } else if self.text_is(&['t', 'r', 'i', 'm']) {
            TokenType::Trim
        } else if self.text_is(&['r', 'e', 'v']) {
            TokenType::Reverse
        } else {
            TokenType::Identifier
        }
    }

    /// Whether the text of the token being read is `word`.
    fn text_is(&self, word: &[char]) -> (r: bool)
        requires
            self.wf(),
        ensures
            r == (self@.source.subrange(self@.start, self@.current) == word@),
    {
        if self.current - self.start != word.len() {
            return false;
        }
        let mut i: usize = 0;
        while i < word.len()
            invariant
                self.wf(),
                self.current - self.start == word@.len(),
                0 <= i <= word.len(),
                forall|k: int|
                    0 <= k < i ==> self.source@[self.start + k] == #[trigger] word@[k],
            decreases word.len() - i,
        {
            if self.source[self.start + i] != word[i] {
                assert(self@.source.subrange(self@.start, self@.current)[i as int] != word@[i as int]);
                return false;
            }
            i = i + 1;
        }
        assert(self@.source.subrange(self@.start, self@.current) =~= word@);
        true
    }
}

/// The byte length of a message, for error tokens.
fn message_length(message: &str) -> (n: usize)
    requires
        message@.len() <= usize::MAX / 4,
    ensures
        n == utf8_len(message@),
{
    let chars = chars_of(message);
    assert(chars@.subrange(0, chars@.len() as int) =~= chars@);
    utf8_len_range(&chars, 0, chars.len())
}

/// The message of the error token is 21 bytes long.
pub proof fn lemma_unexpected_message_len()
    ensures
        utf8_len(unexpected_message()) == 21,
{
    let m = unexpected_message();
    assert forall|i: int| 0 <= i < m.len() implies (#[trigger] m[i] as u32) < 0x80 by {}
    lemma_ascii_utf8_len(m);
}

/// ASCII text takes one byte per character.
pub proof fn lemma_ascii_utf8_len(s: Seq<char>)
    requires
        forall|i: int| 0 <= i < s.len() ==> (#[trigger] s[i] as u32) < 0x80,
    ensures
        utf8_len(s) == s.len(),
    decreases s.len(),
{
    if s.len() > 0 {
        assert forall|i: int| 0 <= i < s.drop_last().len() implies (#[trigger] s.drop_last()[i] as u32) < 0x80 by {
            assert(s.drop_last()[i] == s[i]);
        }
        lemma_ascii_utf8_len(s.drop_last());
        assert((s[s.len() - 1] as u32) < 0x80);
    }
}

/// String scanning does not depend on the line it starts from, apart from the lines it counts.
pub proof fn lemma_string_end_pos(src: Seq<char>, i: int, l1: int, l2: int)
    ensures
        string_end(src, i, l1).0 == string_end(src, i, l2).0,
        string_end(src, i, l1).1 - l1 == string_end(src, i, l2).1 - l2,
    decreases src.len() - i,
{
    if 0 <= i < src.len() && src[i] != '"' {
        if src[i] == '\n' {
            lemma_string_end_pos(src, i + 1, l1 + 1, l2 + 1);
        } else {
            lemma_string_end_pos(src, i + 1, l1, l2);
        }
    }
}

} // verus!
