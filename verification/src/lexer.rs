//! The lexer: characters to tokens and spans.
//!
//! Scanning is one left-to-right pass over the source characters,
//! maintaining an index and a 1-based line and column. Whitespace is
//! skipped (each newline increments the line and resets the column); the
//! first character of a token dispatches to a keyword/identifier scan, a
//! number scan, or a symbol match. Every emitted token is paired with a
//! span; the end-of-input token gets a zero-width span at the cursor.
//!
//! The whole scan is mirrored by spec functions (`spec_next`,
//! `spec_lex_from`): the executable lexer returns exactly what they
//! describe, which pins down the token stream as a function of the source.

use vstd::prelude::*;
use vstd::slice::{slice_subrange, slice_to_vec};

use crate::ast::ident::{Ident, IdentV};
use crate::ast::literal::NumLit;
use crate::chars::{
    all_ascii_digits, chars_eq, chars_of, is_alphabetic_char, is_alphanumeric_char,
    is_ascii_digit_char, is_numeric_char, is_whitespace_char, push_all, spec_decimal_value,
};
use crate::error::LexError;
use crate::span::{loc_le, Location, Span};
use crate::token::{Token, TokenV};

verus! {

/// The lexer cursor state: index into the source, 1-based line and
/// column, and the position of the most recently consumed character
/// (the pending span end).
#[verifier::ext_equal]
pub ghost struct LexSt {
    pub index: int,
    pub line: int,
    pub column: int,
    pub end_line: int,
    pub end_col: int,
}

/// The state of a fresh lexer.
pub open spec fn initial_st() -> LexSt {
    LexSt { index: 0, line: 1, column: 1, end_line: 0, end_col: 0 }
}

/// The cursor position as a `Location`.
pub open spec fn st_loc(st: LexSt) -> Location {
    Location { line: st.line as usize, column: st.column as usize }
}

/// The pending span end as a `Location`.
pub open spec fn st_end_loc(st: LexSt) -> Location {
    Location { line: st.end_line as usize, column: st.end_col as usize }
}

/// A well-formed cursor: in bounds, 1-based, and far enough from the
/// `usize` limit that stepping can never overflow.
pub open spec fn st_wf(src: Seq<char>, st: LexSt) -> bool {
    &&& src.len() < usize::MAX
    &&& 0 <= st.index <= src.len()
    &&& 1 <= st.line
    &&& 1 <= st.column
    &&& st.line + (src.len() - st.index) <= usize::MAX
    &&& st.column + (src.len() - st.index) <= usize::MAX
    &&& 0 <= st.end_line <= usize::MAX
    &&& 0 <= st.end_col <= usize::MAX
}

/// The character under the cursor, or NUL past the end.
pub open spec fn spec_current(src: Seq<char>, i: int) -> char {
    if 0 <= i < src.len() {
        src[i]
    } else {
        '\0'
    }
}

/// Consumes a run of newlines: each one increments the line.
pub open spec fn spec_skip_newlines(src: Seq<char>, i: int, line: int) -> (int, int)
    decreases src.len() - i,
    when 0 <= i <= src.len()
{
    if i < src.len() && src[i] == '\n' {
        spec_skip_newlines(src, i + 1, line + 1)
    } else {
        (i, line)
    }
}

/// One step of the cursor: records the current position as the pending
/// span end, advances the index, then advances the column, collapsing a
/// run of newlines into a line increment and a column reset.
pub open spec fn spec_step1(src: Seq<char>, st: LexSt) -> LexSt {
    let i = st.index + 1;
    if i >= src.len() {
        LexSt { index: i, end_line: st.line, end_col: st.column, ..st }
    } else if src[i] == '\n' {
        let (i2, l2) = spec_skip_newlines(src, i, st.line);
        LexSt { index: i2, line: l2, column: 1, end_line: st.line, end_col: st.column }
    } else {
        LexSt {
            index: i,
            line: st.line,
            column: st.column + 1,
            end_line: st.line,
            end_col: st.column,
        }
    }
}

/// Skips whitespace characters.
pub open spec fn spec_skip_ws(src: Seq<char>, st: LexSt) -> LexSt
    decreases src.len() - st.index,
    when 0 <= st.index <= src.len()
{
    if st.index < src.len() && is_whitespace_char(src[st.index]) {
        let st1 = spec_step1(src, st);
        if st.index < st1.index <= src.len() {
            spec_skip_ws(src, st1)
        } else {
            st1
        }
    } else {
        st
    }
}

/// The end of the alphanumeric run starting at `i`.
pub open spec fn run_end_alnum(src: Seq<char>, i: int) -> int
    decreases src.len() - i,
    when 0 <= i
{
    if i < src.len() && is_alphanumeric_char(src[i]) {
        run_end_alnum(src, i + 1)
    } else {
        i
    }
}

/// The end of the numeric run starting at `i`.
pub open spec fn run_end_num(src: Seq<char>, i: int) -> int
    decreases src.len() - i,
    when 0 <= i
{
    if i < src.len() && is_numeric_char(src[i]) {
        run_end_num(src, i + 1)
    } else {
        i
    }
}

/// Steps the cursor once per character up to index `stop`.
pub open spec fn spec_scan_to(src: Seq<char>, st: LexSt, stop: int) -> LexSt
    decreases stop - st.index,
{
    if st.index < stop {
        let st1 = spec_step1(src, st);
        if st.index < st1.index <= stop {
            spec_scan_to(src, st1, stop)
        } else {
            st1
        }
    } else {
        st
    }
}

/// What one call of `Lexer::next` produces: the token or the error
/// reason, the new cursor, and the spans it pushes.
#[verifier::ext_equal]
pub ghost struct NextOut {
    pub token: Result<TokenV, Seq<char>>,
    pub st: LexSt,
    pub pushed: Seq<Span>,
}

/// The span of a token scanned from `from` whose last character stood at
/// the pending end of `to`.
pub open spec fn token_span(from: LexSt, to: LexSt) -> Span {
    Span { from: st_loc(from), to: st_end_loc(to) }
}

/// The keyword table: `fn`, `let`, `mod`, `return`; any other word is an
/// identifier.
pub open spec fn spec_word_token(raw: Seq<char>) -> TokenV {
    if raw == "fn"@ {
        TokenV::KwFn
    } else if raw == "let"@ {
        TokenV::KwLet
    } else if raw == "mod"@ {
        TokenV::KwMod
    } else if raw == "return"@ {
        TokenV::KwReturn
    } else {
        TokenV::Ident(IdentV { raw, span: crate::span::unknown_span() })
    }
}

/// The single-character symbol tokens.
pub open spec fn spec_symbol_token(c: char) -> Option<TokenV> {
    if c == '+' {
        Some(TokenV::Plus)
    } else if c == '(' {
        Some(TokenV::LParen)
    } else if c == ')' {
        Some(TokenV::RParen)
    } else if c == '[' {
        Some(TokenV::LBracket)
    } else if c == ']' {
        Some(TokenV::RBracket)
    } else if c == '{' {
        Some(TokenV::LBrace)
    } else if c == '}' {
        Some(TokenV::RBrace)
    } else if c == '*' {
        Some(TokenV::Star)
    } else if c == ',' {
        Some(TokenV::Comma)
    } else if c == ';' {
        Some(TokenV::Semi)
    } else if c == '=' {
        Some(TokenV::Equal)
    } else {
        None
    }
}

/// One token scanned from state `st`: skip whitespace, then dispatch on
/// the class of the next character.
pub open spec fn spec_next(src: Seq<char>, st: LexSt) -> NextOut {
    let stw = spec_skip_ws(src, st);
    if stw.index >= src.len() {
        NextOut { token: Ok(TokenV::EOF), st: stw, pushed: Seq::empty() }
    } else {
        let c = src[stw.index];
        if is_alphabetic_char(c) {
            let stop = run_end_alnum(src, stw.index + 1);
            let st2 = spec_scan_to(src, spec_step1(src, stw), stop);
            let raw = src.subrange(stw.index, stop);
            NextOut {
                token: Ok(spec_word_token(raw)),
                st: st2,
                pushed: seq![token_span(stw, st2)],
            }
        } else if is_numeric_char(c) {
            let stop = run_end_num(src, stw.index + 1);
            let st2 = spec_scan_to(src, spec_step1(src, stw), stop);
            let raw = src.subrange(stw.index, stop);
            let token = if all_ascii_digits(raw) && spec_decimal_value(raw) <= i32::MAX as int {
                Ok(
                    TokenV::NumLit(
                        NumLit {
                            value: spec_decimal_value(raw) as i32,
                            span: crate::span::unknown_span(),
                        },
                    ),
                )
            } else {
                Err("Could not convert '"@ + raw + "' into an `i32`"@)
            };
            NextOut { token, st: st2, pushed: seq![token_span(stw, st2)] }
        } else if c == '-' {
            let st1 = spec_step1(src, stw);
            if spec_current(src, st1.index) == '>' {
                let st2 = spec_step1(src, st1);
                NextOut {
                    token: Ok(TokenV::RArrow),
                    st: st2,
                    pushed: seq![token_span(stw, st2)],
                }
            } else {
                NextOut {
                    token: Err(
                        "Expected '->' but found "@ + seq![spec_current(src, st1.index)],
                    ),
                    st: st1,
                    pushed: Seq::empty(),
                }
            }
        } else if c == ':' {
            if spec_current(src, stw.index + 1) == ':' {
                let st2 = spec_step1(src, spec_step1(src, stw));
                NextOut {
                    token: Ok(TokenV::ColonColon),
                    st: st2,
                    pushed: seq![token_span(stw, st2)],
                }
            } else {
                let st1 = spec_step1(src, stw);
                NextOut {
                    token: Ok(TokenV::Colon),
                    st: st1,
                    pushed: seq![token_span(stw, st1)],
                }
            }
        } else {
            let st1 = spec_step1(src, stw);
            match spec_symbol_token(c) {
                Some(t) => NextOut {
                    token: Ok(t),
                    st: st1,
                    pushed: seq![token_span(stw, st1)],
                },
                None => NextOut {
                    token: Err("Unexpected character '"@ + seq![c] + "'"@),
                    st: st1,
                    pushed: seq![token_span(stw, st1)],
                },
            }
        }
    }
}

/// The whole token stream from state `st`: tokens until `EOF`, then the
/// `EOF` token with a zero-width span at the final cursor.
pub open spec fn spec_lex_from(src: Seq<char>, st: LexSt) -> Result<
    (Seq<TokenV>, Seq<Span>),
    Seq<char>,
>
    decreases src.len() - st.index,
    when 0 <= st.index <= src.len()
{
    let out = spec_next(src, st);
    match out.token {
        Err(m) => Err(m),
        Ok(t) => if t is EOF {
            let loc = st_loc(out.st);
            Ok((seq![TokenV::EOF], out.pushed + seq![Span { from: loc, to: loc }]))
        } else if st.index < out.st.index <= src.len() {
            match spec_lex_from(src, out.st) {
                Err(m) => Err(m),
                Ok((ts, ss)) => Ok((seq![t] + ts, out.pushed + ss)),
            }
        } else {
            Err(Seq::empty())
        },
    }
}

/// The token stream of a source text.
pub open spec fn spec_lex(src: Seq<char>) -> Result<(Seq<TokenV>, Seq<Span>), Seq<char>> {
    spec_lex_from(src, initial_st())
}

/// Newline skipping stays in bounds and increments the line by exactly
/// the characters consumed.
pub proof fn lemma_skip_newlines(src: Seq<char>, i: int, line: int)
    requires
        0 <= i <= src.len(),
    ensures
        ({
            let (i2, l2) = spec_skip_newlines(src, i, line);
            i <= i2 <= src.len() && l2 - line == i2 - i
        }),
    decreases src.len() - i,
{
    if i < src.len() && src[i] == '\n' {
        lemma_skip_newlines(src, i + 1, line + 1);
    }
}

/// One step from a well-formed in-bounds cursor: the index strictly
/// advances and stays in bounds, the position never moves backwards, the
/// pending end is the position stepped from, and well-formedness is kept.
pub proof fn lemma_step1(src: Seq<char>, st: LexSt)
    requires
        st_wf(src, st),
        st.index < src.len(),
    ensures
        ({
            let st1 = spec_step1(src, st);
            &&& st_wf(src, st1)
            &&& st.index < st1.index <= src.len()
            &&& loc_le(st_loc(st), st_loc(st1))
            &&& st1.end_line == st.line
            &&& st1.end_col == st.column
        }),
{
    let i = st.index + 1;
    let st1 = spec_step1(src, st);
    if i >= src.len() {
        assert(i == src.len());
        assert(st_wf(src, st1));
        assert(loc_le(st_loc(st), st_loc(st1)));
    } else if src[i] == '\n' {
        assert(spec_skip_newlines(src, i, st.line) == spec_skip_newlines(src, i + 1, st.line + 1));
        lemma_skip_newlines(src, i + 1, st.line + 1);
        let (i2, l2) = spec_skip_newlines(src, i, st.line);
        assert(i + 1 <= i2 <= src.len());
        assert(l2 - (st.line + 1) == i2 - (i + 1));
        assert(st1 == (LexSt {
            index: i2,
            line: l2,
            column: 1,
            end_line: st.line,
            end_col: st.column,
        }));
        assert(st_wf(src, st1));
        assert(st.line < l2 <= usize::MAX);
        assert(loc_le(st_loc(st), st_loc(st1)));
    } else {
        assert(st_wf(src, st1));
        assert(loc_le(st_loc(st), st_loc(st1)));
    }
}

/// Whitespace skipping keeps the cursor well formed and never moves it
/// backwards.
pub proof fn lemma_skip_ws(src: Seq<char>, st: LexSt)
    requires
        st_wf(src, st),
    ensures
        ({
            let out = spec_skip_ws(src, st);
            &&& st_wf(src, out)
            &&& st.index <= out.index <= src.len()
            &&& loc_le(st_loc(st), st_loc(out))
        }),
    decreases src.len() - st.index,
{
    if st.index < src.len() && is_whitespace_char(src[st.index]) {
        lemma_step1(src, st);
        lemma_skip_ws(src, spec_step1(src, st));
    }
}

/// A run's end lies between its start and the end of input.
pub proof fn lemma_run_end_alnum(src: Seq<char>, i: int)
    requires
        0 <= i <= src.len(),
    ensures
        i <= run_end_alnum(src, i) <= src.len(),
    decreases src.len() - i,
{
    if i < src.len() && is_alphanumeric_char(src[i]) {
        lemma_run_end_alnum(src, i + 1);
    }
}

/// A run's end lies between its start and the end of input.
pub proof fn lemma_run_end_num(src: Seq<char>, i: int)
    requires
        0 <= i <= src.len(),
    ensures
        i <= run_end_num(src, i) <= src.len(),
    decreases src.len() - i,
{
    if i < src.len() && is_numeric_char(src[i]) {
        lemma_run_end_num(src, i + 1);
    }
}

/// A bounded scan keeps the cursor well formed; if it consumes anything,
/// the pending end is no earlier than the starting position.
pub proof fn lemma_scan_to(src: Seq<char>, st: LexSt, stop: int)
    requires
        st_wf(src, st),
        stop <= src.len(),
    ensures
        ({
            let out = spec_scan_to(src, st, stop);
            &&& st_wf(src, out)
            &&& st.index <= out.index <= src.len()
            &&& loc_le(st_loc(st), st_loc(out))
            &&& (out == st || loc_le(st_loc(st), st_end_loc(out)))
        }),
    decreases stop - st.index,
{
    if st.index < stop {
        lemma_step1(src, st);
        let st1 = spec_step1(src, st);
        if st1.index <= stop {
            lemma_scan_to(src, st1, stop);
        }
    }
}

/// One scanned token keeps the cursor well formed, strictly advances it
/// unless the token is `EOF`, and pushes only well-formed spans: one per
/// token, none for `EOF`.
pub proof fn lemma_next(src: Seq<char>, st: LexSt)
    requires
        st_wf(src, st),
    ensures
        ({
            let out = spec_next(src, st);
            &&& st_wf(src, out.st)
            &&& st.index <= out.st.index <= src.len()
            &&& (match out.token {
                Ok(t) => if t is EOF {
                    out.pushed.len() == 0
                } else {
                    out.st.index > st.index && out.pushed.len() == 1
                },
                Err(_) => true,
            })
            &&& forall|i: int| 0 <= i < out.pushed.len() ==> (#[trigger] out.pushed[i]).wf()
        }),
{
    lemma_skip_ws(src, st);
    let stw = spec_skip_ws(src, st);
    if stw.index < src.len() {
        let c = src[stw.index];
        lemma_step1(src, stw);
        let st1 = spec_step1(src, stw);
        if is_alphabetic_char(c) {
            lemma_run_end_alnum(src, stw.index + 1);
            let stop = run_end_alnum(src, stw.index + 1);
            lemma_scan_to(src, st1, stop);
            let st2 = spec_scan_to(src, st1, stop);
            assert(st_end_loc(st1) == st_loc(stw));
            assert(token_span(stw, st2).wf());
        } else if is_numeric_char(c) {
            lemma_run_end_num(src, stw.index + 1);
            let stop = run_end_num(src, stw.index + 1);
            lemma_scan_to(src, st1, stop);
            let st2 = spec_scan_to(src, st1, stop);
            assert(st_end_loc(st1) == st_loc(stw));
            assert(token_span(stw, st2).wf());
        } else if c == '-' {
            if spec_current(src, st1.index) == '>' {
                lemma_step1(src, st1);
                let st2 = spec_step1(src, st1);
                assert(st_end_loc(st2) == st_loc(st1));
                assert(token_span(stw, st2).wf());
            }
        } else if c == ':' {
            if spec_current(src, stw.index + 1) == ':' {
                lemma_step1(src, st1);
                let st2 = spec_step1(src, st1);
                assert(st_end_loc(st2) == st_loc(st1));
                assert(token_span(stw, st2).wf());
            } else {
                assert(st_end_loc(st1) == st_loc(stw));
                assert(token_span(stw, st1).wf());
            }
        } else {
            assert(st_end_loc(st1) == st_loc(stw));
            assert(token_span(stw, st1).wf());
        }
    }
}

/// Lex/emit duality: a successful scan yields as many spans as tokens,
/// ends in exactly one `EOF` token, and every span runs forward.
pub proof fn lemma_lex_duality(src: Seq<char>, st: LexSt)
    requires
        st_wf(src, st),
    ensures
        (match spec_lex_from(src, st) {
            Ok((ts, ss)) => {
                &&& ts.len() == ss.len()
                &&& ts.len() >= 1
                &&& ts.last() == TokenV::EOF
                &&& forall|i: int| 0 <= i < ts.len() - 1 ==> !((#[trigger] ts[i]) is EOF)
                &&& forall|i: int| 0 <= i < ss.len() ==> (#[trigger] ss[i]).wf()
            },
            Err(_) => true,
        }),
    decreases src.len() - st.index,
{
    lemma_next(src, st);
    let out = spec_next(src, st);
    match out.token {
        Err(_) => {},
        Ok(t) => {
            if t is EOF {
            } else {
                lemma_lex_duality(src, out.st);
            }
        },
    }
}

/// The lexer over a borrowed character slice.
pub struct Lexer<'a> {
    pub source: &'a [char],
    pub spans: Vec<Span>,
    pub index: usize,
    pub line: usize,
    pub column: usize,
    pub start: Location,
    pub end: Location,
}

impl<'a> Lexer<'a> {
    /// The cursor state of this lexer.
    pub open spec fn st(self) -> LexSt {
        LexSt {
            index: self.index as int,
            line: self.line as int,
            column: self.column as int,
            end_line: self.end.line as int,
            end_col: self.end.column as int,
        }
    }

    /// A well-formed lexer: its cursor is well formed for its source.
    pub open spec fn wf(self) -> bool {
        st_wf(self.source@, self.st())
    }

    /// A lexer at the start of `input`, at line 1, column 1.
    pub fn new(input: &'a [char]) -> (r: Self)
        requires
            input@.len() < usize::MAX,
        ensures
            r.source@ == input@,
            r.st() == initial_st(),
            r.spans@ == Seq::<Span>::empty(),
            r.wf(),
    {
        Lexer {
            source: input,
            spans: Vec::new(),
            index: 0,
            line: 1,
            column: 1,
            start: Location::new(),
            end: Location::new(),
        }
    }

    /// Records the cursor as the start of the token being scanned.
    fn start(&mut self)
        ensures
            final(self).source == old(self).source,
            final(self).spans == old(self).spans,
            final(self).index == old(self).index,
            final(self).line == old(self).line,
            final(self).column == old(self).column,
            final(self).end == old(self).end,
            final(self).start == (Location { line: old(self).line, column: old(self).column }),
    {
        self.start.set_column(self.column);
        self.start.set_line(self.line);
    }

    /// Completes a span from the recorded start to the pending end and
    /// pushes it.
    fn complete(&mut self)
        ensures
            final(self).source == old(self).source,
            final(self).spans@ == old(self).spans@.push(
                Span { from: old(self).start, to: old(self).end },
            ),
            final(self).index == old(self).index,
            final(self).line == old(self).line,
            final(self).column == old(self).column,
            final(self).end == old(self).end,
            final(self).start == old(self).start,
    {
        self.spans.push(Span::new().from(self.start).to(self.end));
    }

    /// The character under the cursor, or NUL past the end of input.
    fn current(&self) -> (c: char)
        ensures
            c == spec_current(self.source@, self.index as int),
    {
        self.lookahead(0)
    }

    /// The character `n` places past the cursor, or NUL past the end.
    fn lookahead(&self, n: usize) -> (c: char)
        requires
            self.index + n <= usize::MAX,
        ensures
            c == spec_current(self.source@, self.index + n),
    {
        if self.index + n >= self.source.len() {
            return  '\0';
        }
        self.source[self.index + n]
    }

    /// Advances the cursor one character, recording the position stepped
    /// from as the pending span end and collapsing newline runs.
    fn step1(&mut self)
        requires
            old(self).wf(),
            old(self).index < old(self).source@.len(),
        ensures
            final(self).wf(),
            final(self).source == old(self).source,
            final(self).spans == old(self).spans,
            final(self).start == old(self).start,
            final(self).st() == spec_step1(old(self).source@, old(self).st()),
    {
        proof {
            lemma_step1(self.source@, self.st());
        }
        self.end.set_column(self.column);
        self.end.set_line(self.line);
        self.index += 1;
        if self.index >= self.source.len() {
            return ;
        }
        self.column += 1;
        if self.source[self.index] == '\n' {
            let ghost i0 = self.index as int;
            let ghost l0 = self.line as int;
            while self.index < self.source.len() && self.source[self.index] == '\n'
                invariant
                    old(self).source@.len() < usize::MAX,
                    self.source == old(self).source,
                    self.spans == old(self).spans,
                    self.start == old(self).start,
                    self.end == (Location { line: old(self).line, column: old(self).column }),
                    self.column as int == old(self).column + 1,
                    i0 <= self.index as int <= self.source@.len(),
                    self.line as int - l0 == self.index as int - i0,
                    1 <= l0,
                    self.line as int + (self.source@.len() - self.index as int) <= usize::MAX,
                    spec_skip_newlines(self.source@, self.index as int, self.line as int)
                        == spec_skip_newlines(self.source@, i0, l0),
                decreases self.source@.len() - self.index,
            {
                self.index += 1;
                self.line += 1;
            }
            self.column = 1;
        }
    }

    /// Scans one token: skips whitespace, then dispatches on the class of
    /// the next character. Returns exactly what `spec_next` describes for
    /// the starting state, pushing that token's span.
    pub fn next(&mut self) -> (r: Result<Token, LexError>)
        requires
            old(self).wf(),
        ensures
            final(self).wf(),
            final(self).source == old(self).source,
            ({
                let out = spec_next(old(self).source@, old(self).st());
                &&& final(self).st() == out.st
                &&& final(self).spans@ == old(self).spans@ + out.pushed
                &&& (match r {
                    Ok(t) => out.token matches Ok(tv) && t@ == tv,
                    Err(e) => out.token matches Err(m) && e@ == m,
                })
            }),
    {
        let ghost src = self.source@;
        let ghost st0 = self.st();
        proof {
            lemma_skip_ws(src, st0);
        }
        while self.index < self.source.len() && self.current().is_whitespace()
            invariant
                self.wf(),
                self.source == old(self).source,
                self.source@ == src,
                self.spans == old(self).spans,
                spec_skip_ws(src, self.st()) == spec_skip_ws(src, st0),
            decreases self.source@.len() - self.index,
        {
            proof {
                lemma_step1(src, self.st());
            }
            self.step1();
        }
        let ghost stw = self.st();
        proof {
            assert(stw == spec_skip_ws(src, st0));
            lemma_skip_ws(src, st0);
        }
        if self.index >= self.source.len() {
            proof {
                assert(self.spans@ =~= old(self).spans@ + spec_next(src, st0).pushed);
            }
            return Ok(Token::EOF);
        }
        let current = self.current();
        if current.is_alphabetic() {
            // Mark the beginning of this token
            let i = self.index;
            let mut stop = i + 1;
            while stop < self.source.len() && self.source[stop].is_alphanumeric()
                invariant
                    self.wf(),
                    self.source@ == src,
                    i as int == stw.index,
                    i < stop <= src.len(),
                    run_end_alnum(src, stop as int) == run_end_alnum(src, i + 1),
                decreases self.source@.len() - stop,
            {
                stop += 1;
            }
            proof {
                assert(run_end_alnum(src, stop as int) == stop);
            }
            self.start();
            self.step1();
            let ghost st1 = self.st();
            proof {
                lemma_step1(src, stw);
                lemma_scan_to(src, st1, stop as int);
            }
            while self.index < stop
                invariant
                    self.wf(),
                    self.source == old(self).source,
                    self.source@ == src,
                    self.spans == old(self).spans,
                    self.start == st_loc(stw),
                    stw.index < self.st().index <= src.len(),
                    i as int == stw.index,
                    stop <= src.len(),
                    spec_scan_to(src, self.st(), stop as int) == spec_scan_to(
                        src,
                        st1,
                        stop as int,
                    ),
                decreases self.source@.len() - self.index,
            {
                proof {
                    lemma_step1(src, self.st());
                }
                self.step1();
            }
            let ghost st2 = self.st();
            proof {
                assert(st2 == spec_scan_to(src, st1, stop as int));
            }
            self.complete();
            let raw = slice_to_vec(slice_subrange(self.source, i, stop));
            proof {
                assert(raw@ == src.subrange(stw.index, run_end_alnum(src, stw.index + 1)));
                assert(self.spans@ =~= old(self).spans@ + seq![token_span(stw, st2)]);
            }
            let kw_fn = chars_of("fn");
            let kw_let = chars_of("let");
            let kw_mod = chars_of("mod");
            let kw_return = chars_of("return");
            if chars_eq(raw.as_slice(), kw_fn.as_slice()) {
                Ok(Token::KwFn)
            } else if chars_eq(raw.as_slice(), kw_let.as_slice()) {
                Ok(Token::KwLet)
            } else if chars_eq(raw.as_slice(), kw_mod.as_slice()) {
                Ok(Token::KwMod)
            } else if chars_eq(raw.as_slice(), kw_return.as_slice()) {
                Ok(Token::KwReturn)
            } else {
                Ok(Token::Ident(Ident::new().with_raw(raw)))
            }
        } else if current.is_numeric() {
            // Mark the beginning of this token
            let i = self.index;
            let mut stop = i + 1;
            while stop < self.source.len() && self.source[stop].is_numeric()
                invariant
                    self.wf(),
                    self.source@ == src,
                    i as int == stw.index,
                    i < stop <= src.len(),
                    run_end_num(src, stop as int) == run_end_num(src, i + 1),
                decreases self.source@.len() - stop,
            {
                stop += 1;
            }
            proof {
                assert(run_end_num(src, stop as int) == stop);
            }
            self.start();
            self.step1();
            let ghost st1 = self.st();
            proof {
                lemma_step1(src, stw);
                lemma_scan_to(src, st1, stop as int);
            }
            while self.index < stop
                invariant
                    self.wf(),
                    self.source == old(self).source,
                    self.source@ == src,
                    self.spans == old(self).spans,
                    self.start == st_loc(stw),
                    stw.index < self.st().index <= src.len(),
                    i as int == stw.index,
                    stop <= src.len(),
                    spec_scan_to(src, self.st(), stop as int) == spec_scan_to(
                        src,
                        st1,
                        stop as int,
                    ),
                decreases self.source@.len() - self.index,
            {
                proof {
                    lemma_step1(src, self.st());
                }
                self.step1();
            }
            let ghost st2 = self.st();
            proof {
                assert(st2 == spec_scan_to(src, st1, stop as int));
            }
            self.complete();
            let raw = slice_to_vec(slice_subrange(self.source, i, stop));
            proof {
                assert(raw@ == src.subrange(stw.index, run_end_num(src, stw.index + 1)));
                assert(raw@.len() > 0);
                assert(self.spans@ =~= old(self).spans@ + seq![token_span(stw, st2)]);
            }
            match parse_i32_chars(raw.as_slice()) {
                Some(value) => Ok(Token::NumLit(NumLit::new().with_value(value))),
                None => {
                    let mut m = chars_of("Could not convert '");
                    push_all(&mut m, raw.as_slice());
                    let tail = chars_of("' into an `i32`");
                    push_all(&mut m, tail.as_slice());
                    Err(LexError::new(m))
                },
            }
        } else {
            // Must be a symbol of some kind... mark the beginning
            self.start();
            if current == '-' {
                self.step1();
                proof {
                    lemma_step1(src, stw);
                }
                let after = self.current();
                if after == '>' {
                    self.step1();
                    let ghost st2 = self.st();
                    self.complete();
                    proof {
                        assert(self.spans@ =~= old(self).spans@ + seq![token_span(stw, st2)]);
                    }
                    Ok(Token::RArrow)
                } else {
                    let mut m = chars_of("Expected '->' but found ");
                    m.push(after);
                    proof {
                        assert(m@ =~= "Expected '->' but found "@ + seq![after]);
                        assert(self.spans@ =~= old(self).spans@ + Seq::<Span>::empty());
                    }
                    Err(LexError::new(m))
                }
            } else if current == ':' {
                if self.lookahead(1) == ':' {
                    self.step1();
                    proof {
                        lemma_step1(src, stw);
                    }
                    self.step1();
                    let ghost st2 = self.st();
                    self.complete();
                    proof {
                        assert(self.spans@ =~= old(self).spans@ + seq![token_span(stw, st2)]);
                    }
                    Ok(Token::ColonColon)
                } else {
                    self.step1();
                    let ghost st1 = self.st();
                    self.complete();
                    proof {
                        assert(self.spans@ =~= old(self).spans@ + seq![token_span(stw, st1)]);
                    }
                    Ok(Token::Colon)
                }
            } else {
                self.step1();
                let ghost st1 = self.st();
                self.complete();
                proof {
                    assert(self.spans@ =~= old(self).spans@ + seq![token_span(stw, st1)]);
                }
                if current == '+' {
                    Ok(Token::Plus)
                } else if current == '(' {
                    Ok(Token::LParen)
                } else if current == ')' {
                    Ok(Token::RParen)
                } else if current == '[' {
                    Ok(Token::LBracket)
                } else if current == ']' {
                    Ok(Token::RBracket)
                } else if current == '{' {
                    Ok(Token::LBrace)
                } else if current == '}' {
                    Ok(Token::RBrace)
                } else if current == '*' {
                    Ok(Token::Star)
                } else if current == ',' {
                    Ok(Token::Comma)
                } else if current == ';' {
                    Ok(Token::Semi)
                } else if current == '=' {
                    Ok(Token::Equal)
                } else {
                    let mut m = chars_of("Unexpected character '");
                    m.push(current);
                    let tail = chars_of("'");
                    push_all(&mut m, tail.as_slice());
                    proof {
                        assert(m@ =~= "Unexpected character '"@ + seq![current] + "'"@);
                    }
                    Err(LexError::new(m))
                }
            }
        }
    }
}

/// The views of a token sequence, in order.
pub open spec fn token_views(s: Seq<Token>) -> Seq<TokenV> {
    s.map_values(|t: Token| t@)
}

impl<'a> Lexer<'a> {
    /// Lexes the whole source: every token until end of input, then the
    /// `EOF` token, with one span per token. Returns exactly the streams
    /// that `spec_lex_from` describes; on success the token and span
    /// sequences have equal length, only the last token is `EOF`, and
    /// every span runs forward.
    pub fn lex(&mut self) -> (r: Result<(Vec<Token>, Vec<Span>), LexError>)
        requires
            old(self).wf(),
            old(self).spans@.len() == 0,
        ensures
            final(self).source == old(self).source,
            (match r {
                Ok(p) => ({
                    &&& spec_lex_from(old(self).source@, old(self).st()) matches Ok(lexed)
                    &&& p.0@.len() == lexed.0.len()
                    &&& (forall|i: int|
                        0 <= i < p.0@.len() ==> (#[trigger] p.0@[i])@ == lexed.0[i])
                    &&& p.1@ == lexed.1
                    &&& p.0@.len() == p.1@.len()
                    &&& p.0@.len() >= 1
                    &&& p.0@[p.0@.len() - 1]@ == TokenV::EOF
                    &&& (forall|i: int|
                        0 <= i < p.0@.len() - 1 ==> !((#[trigger] p.0@[i])@ is EOF))
                    &&& (forall|i: int| 0 <= i < p.1@.len() ==> (#[trigger] p.1@[i]).wf())
                }),
                Err(e) => (spec_lex_from(old(self).source@, old(self).st()) matches Err(m) && e@
                    == m),
            }),
    {
        let ghost src = self.source@;
        let ghost st0 = self.st();
        proof {
            lemma_lex_duality(src, st0);
            lemma_next(src, st0);
        }
        let mut tokens: Vec<Token> = Vec::new();
        let mut token = match self.next() {
            Ok(t) => t,
            Err(e) => {
                return Err(e);
            },
        };
        proof {
            assert(token_views(tokens@) =~= Seq::<TokenV>::empty());
            let out0 = spec_next(src, st0);
            if token@ is EOF {
                assert(token_views(tokens@) + seq![TokenV::EOF] =~= seq![TokenV::EOF]);
                assert(self.spans@ + seq![
                    Span { from: st_loc(self.st()), to: st_loc(self.st()) },
                ] =~= out0.pushed + seq![
                    Span { from: st_loc(out0.st), to: st_loc(out0.st) },
                ]);
            } else {
                match spec_lex_from(src, self.st()) {
                    Err(_) => {},
                    Ok(rest) => {
                        assert(token_views(tokens@) + seq![token@] + rest.0 =~= seq![token@]
                            + rest.0);
                        assert(self.spans@ + rest.1 =~= out0.pushed + rest.1);
                    },
                }
            }
        }
        while token != Token::EOF
            invariant
                self.wf(),
                self.source == old(self).source,
                self.source@ == src,
                src == old(self).source@,
                st0 == old(self).st(),
                st_wf(src, st0),
                ({
                    let lexed = spec_lex_from(src, st0);
                    if token@ is EOF {
                        lexed == Ok::<(Seq<TokenV>, Seq<Span>), Seq<char>>(
                            (
                                token_views(tokens@) + seq![TokenV::EOF],
                                self.spans@ + seq![
                                    Span { from: st_loc(self.st()), to: st_loc(self.st()) },
                                ],
                            ),
                        )
                    } else {
                        match spec_lex_from(src, self.st()) {
                            Err(m) => lexed == Err::<(Seq<TokenV>, Seq<Span>), Seq<char>>(m),
                            Ok(rest) => lexed == Ok::<(Seq<TokenV>, Seq<Span>), Seq<char>>(
                                (
                                    token_views(tokens@) + seq![token@] + rest.0,
                                    self.spans@ + rest.1,
                                ),
                            ),
                        }
                    }
                }),
            decreases src.len() - self.index + (if token@ is EOF {
                0int
            } else {
                1int
            }),
        {
            let ghost tokens_b = tokens@;
            let ghost token_b = token@;
            let ghost spans_b = self.spans@;
            let ghost st_b = self.st();
            tokens.push(token.clone());
            proof {
                lemma_next(src, st_b);
                assert(token_views(tokens@) =~= token_views(tokens_b).push(token_b));
            }
            let nxt = self.next();
            token = match nxt {
                Ok(t) => t,
                Err(e) => {
                    proof {
                        let out2 = spec_next(src, st_b);
                        assert(0 <= st_b.index <= src.len());
                        assert(out2.token matches Err(m) && e@ == m);
                        assert(spec_lex_from(src, st_b) == Err::<
                            (Seq<TokenV>, Seq<Span>),
                            Seq<char>,
                        >(e@));
                    }
                    return Err(e);
                },
            };
            proof {
                let out2 = spec_next(src, st_b);
                if token@ is EOF {
                    assert(token_views(tokens@) + seq![TokenV::EOF] =~= token_views(tokens_b)
                        + seq![token_b] + seq![TokenV::EOF]);
                    assert(self.spans@ + seq![
                        Span { from: st_loc(self.st()), to: st_loc(self.st()) },
                    ] =~= spans_b + (out2.pushed + seq![
                        Span { from: st_loc(out2.st), to: st_loc(out2.st) },
                    ]));
                } else {
                    match spec_lex_from(src, self.st()) {
                        Err(_) => {},
                        Ok(rest) => {
                            assert(token_views(tokens@) + seq![token@] + rest.0
                                =~= token_views(tokens_b) + seq![token_b] + (seq![token@]
                                + rest.0));
                            assert(self.spans@ + rest.1 =~= spans_b + (out2.pushed + rest.1));
                        },
                    }
                }
            }
        }
        let loc = Location::new().with_column(self.column).with_line(self.line);
        let ghost st_fin = self.st();
        let ghost tokens_fin = tokens@;
        let ghost spans_fin = self.spans@;
        self.spans.push(Span::new().from(loc).to(loc));
        tokens.push(Token::EOF);
        let out_spans = slice_to_vec(self.spans.as_slice());
        proof {
            assert(loc == st_loc(st_fin));
            assert(self.spans@ =~= spans_fin + seq![Span { from: st_loc(st_fin), to: st_loc(st_fin) }]);
            assert(token_views(tokens@) =~= token_views(tokens_fin) + seq![TokenV::EOF]);
            let lexed = spec_lex_from(src, st0);
            assert(lexed matches Ok(pair) && pair.0 == token_views(tokens@) && pair.1
                == self.spans@);
            assert forall|i: int| 0 <= i < tokens@.len() implies (#[trigger] tokens@[i])@
                == token_views(tokens@)[i] by {}
        }
        Ok((tokens, out_spans))
    }
}

/// Parses a run of characters as a decimal `i32`: succeeds exactly when
/// the run is non-empty, all ASCII digits, and within `i32` range.
fn parse_i32_chars(s: &[char]) -> (r: Option<i32>)
    ensures
        match r {
            Some(v) => all_ascii_digits(s@) && s@.len() > 0 && v as int == spec_decimal_value(s@),
            None => !(all_ascii_digits(s@) && s@.len() > 0 && spec_decimal_value(s@)
                <= i32::MAX as int),
        },
{
    let n = s.len();
    if n == 0 {
        return None;
    }
    let mut acc: i64 = 0;
    let mut i: usize = 0;
    while i < n
        invariant
            n == s@.len(),
            i <= n,
            all_ascii_digits(s@.subrange(0, i as int)),
            acc as int == spec_decimal_value(s@.subrange(0, i as int)),
            0 <= acc <= i32::MAX as i64,
        decreases n - i,
    {
        let u = s[i] as u32;
        if u < 48 || u > 57 {
            proof {
                assert(!is_ascii_digit_char(s@[i as int]));
            }
            return None;
        }
        let d = (u - 48) as i64;
        let acc2 = acc * 10 + d;
        proof {
            let a = s@.subrange(0, i as int);
            let b = s@.subrange(0, i + 1 as int);
            assert(b.drop_last() =~= a);
            assert(b.last() == s@[i as int]);
            assert(s@[i as int] as u32 == u);
            assert(is_ascii_digit_char(s@[i as int]));
            assert forall|j: int| 0 <= j < b.len() implies is_ascii_digit_char(
                #[trigger] b[j],
            ) by {
                if j < i as int {
                    assert(b[j] == a[j]);
                    assert(is_ascii_digit_char(a[j]));
                } else {
                    assert(b[j] == s@[i as int]);
                }
            }
            assert(acc2 as int == spec_decimal_value(b));
        }
        if acc2 > i32::MAX as i64 {
            proof {
                if all_ascii_digits(s@) {
                    crate::chars::lemma_decimal_prefix_le(s@, i + 1 as int);
                }
            }
            return None;
        }
        acc = acc2;
        i += 1;
    }
    proof {
        assert(s@.subrange(0, n as int) =~= s@);
    }
    Some(acc as i32)
}

} // verus!
