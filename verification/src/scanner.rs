use crate::token::Token;
use crate::token::is_reserved_word;
use crate::token::keyword_kind;
use crate::token::lemma_keyword_kind_is_ident;
use crate::token::lookup_keyword;
use vstd::prelude::*;
use vstd::slice::slice_subrange;
use vstd::slice::slice_to_vec;

verus! {

// ---------------------------------------------------------------------------
// Byte classes
// ---------------------------------------------------------------------------

/// Whitespace: space, tab, newline, carriage return.
pub open spec fn spec_is_whitespace(c: u8) -> bool {
    c == 32 || c == 9 || c == 10 || c == 13  // space, tab, newline, carriage return
}

/// ASCII decimal digit.
pub open spec fn spec_is_digit(c: u8) -> bool {
    48 <= c && c <= 57  // '0' ..= '9'
}

/// The identifier continuation class: ASCII letter, ASCII digit or
/// underscore.
pub open spec fn spec_is_letter(c: u8) -> bool {
    (97 <= c && c <= 122)  // 'a' ..= 'z'
    || (65 <= c && c <= 90)  // 'A' ..= 'Z'
    || spec_is_digit(c) || c == 95  // '_'
}

/// A byte that may start an identifier: in the continuation class but not a
/// digit, so a leading digit never enters the identifier branch.
pub open spec fn spec_is_ident_start(c: u8) -> bool {
    spec_is_letter(c) && !spec_is_digit(c)
}

/// ASCII decimal digit test.
fn is_digit(c: u8) -> (r: bool)
    ensures
        r == spec_is_digit(c),
{
    c >= 48 && c <= 57
}

/// Identifier continuation class test: ASCII letter, ASCII digit or
/// underscore.
fn is_letter(c: u8) -> (r: bool)
    ensures
        r == spec_is_letter(c),
{
    c >= 97 && c <= 122 || c >= 65 && c <= 90 || c >= 48 && c <= 57 || c == 95
}

// ---------------------------------------------------------------------------
// Maximal runs
// ---------------------------------------------------------------------------

/// Index of the first byte at or after `pos` that is not whitespace
/// (`src.len()` if the rest of the buffer is whitespace).
pub open spec fn skip_ws_end(src: Seq<u8>, pos: int) -> int
    decreases src.len() - pos,
{
    if pos < src.len() && spec_is_whitespace(src[pos]) {
        skip_ws_end(src, pos + 1)
    } else {
        pos
    }
}

/// End of the maximal run of identifier-continuation bytes starting at `pos`.
pub open spec fn letter_run_end(src: Seq<u8>, pos: int) -> int
    decreases src.len() - pos,
{
    if pos < src.len() && spec_is_letter(src[pos]) {
        letter_run_end(src, pos + 1)
    } else {
        pos
    }
}

/// End of the maximal run of digit bytes starting at `pos`.
pub open spec fn digit_run_end(src: Seq<u8>, pos: int) -> int
    decreases src.len() - pos,
{
    if pos < src.len() && spec_is_digit(src[pos]) {
        digit_run_end(src, pos + 1)
    } else {
        pos
    }
}

/// The whitespace skip lands between `pos` and the end of the buffer, skips
/// only whitespace, and stops on a non-whitespace byte or at the end.
pub proof fn lemma_skip_ws_end(src: Seq<u8>, pos: int)
    requires
        0 <= pos <= src.len(),
    ensures
        pos <= skip_ws_end(src, pos) <= src.len(),
        forall|k: int| pos <= k < skip_ws_end(src, pos) ==> spec_is_whitespace(src[k]),
        skip_ws_end(src, pos) == src.len() || !spec_is_whitespace(src[skip_ws_end(src, pos)]),
    decreases src.len() - pos,
{
    if pos < src.len() && spec_is_whitespace(src[pos]) {
        lemma_skip_ws_end(src, pos + 1);
    }
}

/// The identifier run covers only continuation-class bytes and is maximal.
pub proof fn lemma_letter_run_end(src: Seq<u8>, pos: int)
    requires
        0 <= pos <= src.len(),
    ensures
        pos <= letter_run_end(src, pos) <= src.len(),
        forall|k: int| pos <= k < letter_run_end(src, pos) ==> spec_is_letter(src[k]),
        letter_run_end(src, pos) == src.len()
            || !spec_is_letter(src[letter_run_end(src, pos)]),
    decreases src.len() - pos,
{
    if pos < src.len() && spec_is_letter(src[pos]) {
        lemma_letter_run_end(src, pos + 1);
    }
}

// ---------------------------------------------------------------------------
// One scan step, as a mathematical function of the buffer and the cursor
// ---------------------------------------------------------------------------

/// The byte one position ahead of the cursor, or 0 past the end of the
/// buffer.
pub open spec fn spec_peek(src: Seq<u8>, pos: int) -> u8 {
    if pos + 1 < src.len() {
        src[pos + 1]
    } else {
        0
    }
}

/// Kind of a one-byte token for a byte that takes no lookahead; bytes outside
/// the fixed table are `ILLEGAL`.
pub open spec fn single_symbol_kind(c: u8) -> Token {
    if c == 59 {  // ;
        Token::SEMICOLON
    } else if c == 40 {  // (
        Token::LPAREN
    } else if c == 41 {  // )
        Token::RPAREN
    } else if c == 44 {  // ,
        Token::COMMA
    } else if c == 43 {  // +
        Token::PLUS
    } else if c == 45 {  // -
        Token::MINUS
    } else if c == 42 {  // *
        Token::ASTERISK
    } else if c == 47 {  // /
        Token::SLASH
    } else if c == 123 {  // {
        Token::LBRACE
    } else if c == 125 {  // }
        Token::RBRACE
    } else {
        Token::ILLEGAL
    }
}

/// Whether `c` is one of the four two-way switch bytes `=`, `!`, `<`, `>`,
/// which look one byte ahead for `=`.
pub open spec fn is_switch_byte(c: u8) -> bool {
    c == 61 || c == 33 || c == 60 || c == 62
}

/// Kind emitted for a switch byte that is not followed by `=`.
pub open spec fn switch_single_kind(c: u8) -> Token {
    if c == 61 {  // =
        Token::ASSIGN
    } else if c == 33 {  // !
        Token::BANG
    } else if c == 60 {  // <
        Token::LT
    } else {  // >
        Token::GT
    }
}

/// Kind emitted for a switch byte that is followed by `=`.
pub open spec fn switch_double_kind(c: u8) -> Token {
    if c == 61 {  // ==
        Token::EQ
    } else if c == 33 {  // !=
        Token::NEQ
    } else if c == 60 {  // <=
        Token::LEQ
    } else {  // >=
        Token::GEQ
    }
}

/// Token, lexeme and end position for a symbol at `pos`: the switch bytes
/// consume a second byte exactly when the next byte is `=`; every other byte
/// maps one-to-one through the fixed table, unrecognized ones to `ILLEGAL`.
pub open spec fn spec_symbol(src: Seq<u8>, pos: int) -> (Token, Seq<u8>, int)
    recommends
        0 <= pos < src.len(),
{
    let c = src[pos];
    if is_switch_byte(c) {
        if spec_peek(src, pos) == 61 {  // =
            (switch_double_kind(c), src.subrange(pos, pos + 2), pos + 2)
        } else {
            (switch_single_kind(c), src.subrange(pos, pos + 1), pos + 1)
        }
    } else {
        (single_symbol_kind(c), src.subrange(pos, pos + 1), pos + 1)
    }
}

/// What one `scan` call produces on buffer `src` with the cursor at `pos`:
/// the token kind, its lexeme, and the cursor position after the call.
///
/// Whitespace is skipped first; then, in priority order: end of input or a 0
/// byte yields the `EOF` sentinel without moving the cursor, an identifier
/// start opens the maximal identifier run and the keyword table decides the
/// kind, a digit opens the maximal digit run, and any other byte is a symbol.
pub open spec fn spec_scan(src: Seq<u8>, pos: int) -> (Token, Seq<u8>, int)
    recommends
        0 <= pos <= src.len(),
{
    let i = skip_ws_end(src, pos);
    if i >= src.len() || src[i] == 0 {
        (Token::EOF, Seq::<u8>::empty(), i)
    } else if spec_is_ident_start(src[i]) {
        let j = letter_run_end(src, i);
        (keyword_kind(src.subrange(i, j)), src.subrange(i, j), j)
    } else if spec_is_digit(src[i]) {
        let j = digit_run_end(src, i);
        (Token::INTEGER, src.subrange(i, j), j)
    } else {
        spec_symbol(src, i)
    }
}

/// A scan step never moves the cursor backwards or past the end of the
/// buffer, and moves it strictly forward unless it produced `EOF`.
pub proof fn lemma_spec_scan_bounds(src: Seq<u8>, pos: int)
    requires
        0 <= pos <= src.len(),
    ensures
        pos <= spec_scan(src, pos).2 <= src.len(),
        spec_scan(src, pos).0 != Token::EOF ==> pos < spec_scan(src, pos).2,
{
    lemma_skip_ws_end(src, pos);
    let i = skip_ws_end(src, pos);
    if i >= src.len() || src[i] == 0 {
    } else if spec_is_ident_start(src[i]) {
        lemma_letter_run_end(src, i);
        lemma_letter_run_end(src, i + 1);
        assert(letter_run_end(src, i) == letter_run_end(src, i + 1));
    } else if spec_is_digit(src[i]) {
        lemma_digit_run_end(src, i);
        lemma_digit_run_end(src, i + 1);
        assert(digit_run_end(src, i) == digit_run_end(src, i + 1));
    } else {
    }
}

/// The digit run covers only digits and is maximal.
pub proof fn lemma_digit_run_end(src: Seq<u8>, pos: int)
    requires
        0 <= pos <= src.len(),
    ensures
        pos <= digit_run_end(src, pos) <= src.len(),
        forall|k: int| pos <= k < digit_run_end(src, pos) ==> spec_is_digit(src[k]),
        digit_run_end(src, pos) == src.len() || !spec_is_digit(src[digit_run_end(src, pos)]),
    decreases src.len() - pos,
{
    if pos < src.len() && spec_is_digit(src[pos]) {
        lemma_digit_run_end(src, pos + 1);
    }
}

// ---------------------------------------------------------------------------
// The scanner
// ---------------------------------------------------------------------------

/// Where a one-byte cursor advance from `pos` lands: one byte forward, or in
/// place once the end of the buffer is reached.
pub open spec fn step_pos(src: Seq<u8>, pos: int) -> int {
    if pos < src.len() {
        pos + 1
    } else {
        pos
    }
}

/// Single-pass, on-demand tokenizer over an immutable byte buffer.
///
/// The cursor is the triple `(ch, offset, rd_offset)`: the byte under
/// examination, its offset, and the offset of the next unread byte. It only
/// moves forward, one byte at a time.
pub struct Scanner {
    /// Original source byte stream; never mutated.
    src: Vec<u8>,
    /// Byte currently under examination; 0 once the buffer is exhausted.
    ch: u8,
    /// Offset of `ch`; `src.len()` once the buffer is exhausted.
    offset: usize,
    /// Offset of the next unread byte.
    rd_offset: usize,
}

impl Scanner {
    /// The input buffer, as a mathematical sequence of bytes.
    pub closed spec fn bytes(self) -> Seq<u8> {
        self.src@
    }

    /// The cursor position: the offset of the byte under examination, or the
    /// buffer length once the buffer is exhausted.
    pub closed spec fn pos(self) -> int {
        self.offset as int
    }

    /// Cursor well-formedness: either a byte is loaded (`ch` is the byte at
    /// `offset` and `rd_offset` is the offset right after it), or the buffer
    /// is exhausted (`ch` is the 0 sentinel and both offsets sit at the end).
    pub closed spec fn wf(self) -> bool {
        self.rd_offset <= self.src@.len() && (
            (self.offset + 1 == self.rd_offset && self.offset < self.src@.len()
                && self.ch == self.src@[self.offset as int])
            || (self.offset == self.src@.len() && self.rd_offset == self.src@.len()
                && self.ch == 0)
        )
    }

    /// The cursor of a well-formed scanner never stands past the end of the
    /// buffer.
    pub proof fn lemma_wf_pos(self)
        requires
            self.wf(),
        ensures
            0 <= self.pos() <= self.bytes().len(),
    {
    }

    /// Creates a scanner owning `src`, then performs one cursor advance so
    /// that the first byte (or the end-of-input state, for an empty buffer)
    /// is loaded before the first `scan` call.
    pub fn new(src: Vec<u8>) -> (s: Self)
        ensures
            s.wf(),
            s.bytes() == src@,
            s.pos() == 0,
    {
        let mut s = Self { src, ch: 32, offset: 0, rd_offset: 0 };  // a synthetic space
        s.next();
        s
    }

    /// Advances the cursor by one byte, or into the exhausted state once the
    /// buffer has no unread byte left.
    fn next(&mut self)
        requires
            old(self).rd_offset <= old(self).src@.len(),
        ensures
            final(self).wf(),
            final(self).src@ == old(self).src@,
            final(self).offset == if old(self).rd_offset < old(self).src@.len() {
                old(self).rd_offset as int
            } else {
                old(self).src@.len() as int
            },
            old(self).wf() ==> final(self).pos() == step_pos(old(self).src@, old(self).pos()),
    {
        if self.rd_offset < self.src.len() {
            self.offset = self.rd_offset;
            self.ch = self.src[self.rd_offset];
            self.rd_offset = self.rd_offset + 1;
        } else {
            self.offset = self.src.len();
            self.ch = 0;
        }
    }

    /// The byte one position ahead of the cursor, without advancing; 0 past
    /// the end of the buffer.
    fn peek(&self) -> (r: u8)
        requires
            self.wf(),
        ensures
            r == spec_peek(self.bytes(), self.pos()),
    {
        if self.rd_offset < self.src.len() {
            self.src[self.rd_offset]
        } else {
            0
        }
    }

    /// Consumes whitespace until a non-whitespace byte or the end of the
    /// buffer is under the cursor.
    fn skip_whitespace(&mut self)
        requires
            old(self).wf(),
        ensures
            final(self).wf(),
            final(self).bytes() == old(self).bytes(),
            final(self).pos() == skip_ws_end(old(self).bytes(), old(self).pos()),
    {
        let ghost src = self.src@;
        let ghost pos0 = self.offset as int;
        while self.ch == 32 || self.ch == 9 || self.ch == 10 || self.ch == 13
            invariant
                self.wf(),
                self.src@ == src,
                skip_ws_end(src, self.offset as int) == skip_ws_end(src, pos0),
            decreases src.len() - self.offset,
        {
            self.next();
        }
    }

    /// Two-way switch on the byte ahead of the cursor: if it equals `ch`, it
    /// is consumed and `alt` is returned; otherwise the cursor stays put and
    /// `def` is returned.
    pub fn switch(&mut self, def: Token, ch: u8, alt: Token) -> (t: Token)
        requires
            old(self).wf(),
        ensures
            final(self).wf(),
            final(self).bytes() == old(self).bytes(),
            spec_peek(old(self).bytes(), old(self).pos()) == ch ==> t == alt
                && final(self).pos() == step_pos(old(self).bytes(), old(self).pos()),
            spec_peek(old(self).bytes(), old(self).pos()) != ch ==> t == def
                && final(self).pos() == old(self).pos(),
    {
        if self.peek() == ch {
            self.next();
            alt
        } else {
            def
        }
    }

    /// Produces the next token together with its lexeme, the exact bytes
    /// consumed for it, and leaves the cursor on the first byte after them.
    ///
    /// The result is `spec_scan` of the buffer and the cursor position, so
    /// each call moves strictly forward except at end of input, where calling
    /// again is safe and yields `EOF` with an empty lexeme forever.
    pub fn scan(&mut self) -> (r: (Token, Vec<u8>))
        requires
            old(self).wf(),
        ensures
            final(self).wf(),
            final(self).bytes() == old(self).bytes(),
            ({
                let step = spec_scan(old(self).bytes(), old(self).pos());
                r.0 == step.0 && r.1@ == step.1 && final(self).pos() == step.2
            }),
    {
        self.skip_whitespace();

        let offset = self.offset;
        let ghost src = self.src@;
        let ghost i = self.offset as int;

        if is_letter(self.ch) && !is_digit(self.ch) {
            while is_letter(self.ch)
                invariant
                    self.wf(),
                    self.src@ == src,
                    i <= self.offset as int,
                    letter_run_end(src, self.offset as int) == letter_run_end(src, i),
                decreases src.len() - self.offset,
            {
                self.next();
            }

            let lit = slice_to_vec(slice_subrange(self.src.as_slice(), offset, self.offset));
            let tok = lookup_keyword(&lit);
            return (tok, lit);
        }

        if is_digit(self.ch) {
            while is_digit(self.ch)
                invariant
                    self.wf(),
                    self.src@ == src,
                    i <= self.offset as int,
                    digit_run_end(src, self.offset as int) == digit_run_end(src, i),
                decreases src.len() - self.offset,
            {
                self.next();
            }

            let lit = slice_to_vec(slice_subrange(self.src.as_slice(), offset, self.offset));
            return (Token::INTEGER, lit);
        }

        let tok = match self.ch {
            61 => self.switch(Token::ASSIGN, 61, Token::EQ),  // = or ==

            59 => Token::SEMICOLON,
            40 => Token::LPAREN,
            41 => Token::RPAREN,
            44 => Token::COMMA,

            43 => Token::PLUS,

            45 => Token::MINUS,
            42 => Token::ASTERISK,
            47 => Token::SLASH,

            33 => self.switch(Token::BANG, 61, Token::NEQ),  // ! or !=

            60 => self.switch(Token::LT, 61, Token::LEQ),  // < or <=
            62 => self.switch(Token::GT, 61, Token::GEQ),  // > or >=

            123 => Token::LBRACE,
            125 => Token::RBRACE,
            0 => {
                return (Token::EOF, Vec::new());
            },
            _ => Token::ILLEGAL,
        };

        self.next();

        let lit = slice_to_vec(slice_subrange(self.src.as_slice(), offset, self.offset));
        (tok, lit)
    }
}

// ---------------------------------------------------------------------------
// The whole token stream
// ---------------------------------------------------------------------------

/// The ordered tokens of `src` from `pos` on: what repeated `scan` calls
/// produce before the one that yields `EOF`.
pub open spec fn spec_tokens(src: Seq<u8>, pos: int) -> Seq<(Token, Seq<u8>)>
    decreases src.len() - pos
        when 0 <= pos <= src.len()
        via spec_tokens_decreases
{
    let step = spec_scan(src, pos);
    if step.0 == Token::EOF {
        Seq::empty()
    } else {
        seq![(step.0, step.1)] + spec_tokens(src, step.2)
    }
}

#[via_fn]
proof fn spec_tokens_decreases(src: Seq<u8>, pos: int) {
    lemma_spec_scan_bounds(src, pos);
}

/// A list of scanned tokens as a mathematical sequence of kind-lexeme pairs.
pub open spec fn tokens_view(r: Seq<(Token, Vec<u8>)>) -> Seq<(Token, Seq<u8>)> {
    r.map_values(|p: (Token, Vec<u8>)| (p.0, p.1@))
}

/// Scans `src` from the start and collects every token before the `EOF`
/// sentinel, in order.
///
/// The driver's reported token count is the length of the result: by the
/// contract it equals the number of `scan` calls made before `EOF` was
/// observed.
pub fn tokenize(src: Vec<u8>) -> (r: Vec<(Token, Vec<u8>)>)
    ensures
        tokens_view(r@) == spec_tokens(src@, 0),
{
    let ghost gsrc = src@;
    let mut s = Scanner::new(src);
    let mut out: Vec<(Token, Vec<u8>)> = Vec::new();
    let ghost mut prev: int = 0;
    let mut step = s.scan();
    proof {
        assert(tokens_view(out@) =~= Seq::<(Token, Seq<u8>)>::empty());
        assert(tokens_view(out@) + spec_tokens(gsrc, 0) =~= spec_tokens(gsrc, 0));
    }
    while step.0 != Token::EOF
        invariant
            s.wf(),
            s.bytes() == gsrc,
            0 <= prev <= gsrc.len(),
            (step.0, step.1@, s.pos()) == spec_scan(gsrc, prev),
            spec_tokens(gsrc, 0) == tokens_view(out@) + spec_tokens(gsrc, prev),
        decreases gsrc.len() - prev,
    {
        let ghost out0 = out@;
        let ghost st = (step.0, step.1@);
        let ghost here = s.pos();
        out.push(step);
        proof {
            lemma_spec_scan_bounds(gsrc, prev);
            assert(tokens_view(out@) =~= tokens_view(out0).push(st));
            assert(spec_tokens(gsrc, prev) == seq![st] + spec_tokens(gsrc, here));
            assert(tokens_view(out0).push(st) + spec_tokens(gsrc, here) =~= tokens_view(out0)
                + (seq![st] + spec_tokens(gsrc, here)));
            prev = here;
        }
        step = s.scan();
    }
    proof {
        assert(spec_tokens(gsrc, prev) =~= Seq::<(Token, Seq<u8>)>::empty());
        assert(tokens_view(out@) + spec_tokens(gsrc, prev) =~= tokens_view(out@));
    }
    out
}

// ---------------------------------------------------------------------------
// Laws
// ---------------------------------------------------------------------------

/// On input that is whitespace from `pos` to the end, `scan` immediately
/// produces the `EOF` sentinel with an empty lexeme, leaving the cursor at
/// the end of the buffer.
pub proof fn lemma_whitespace_only_scans_eof(src: Seq<u8>, pos: int)
    requires
        0 <= pos <= src.len(),
        forall|k: int| pos <= k < src.len() ==> spec_is_whitespace(src[k]),
    ensures
        spec_scan(src, pos) == (Token::EOF, Seq::<u8>::empty(), src.len() as int),
{
    lemma_skip_ws_end(src, pos);
}

/// An identifier-shaped run that spells none of the seven reserved words
/// scans as `IDENT`, and the lexeme is the full maximal run: every byte in it
/// is in the continuation class and the byte after it, if any, is not.
pub proof fn lemma_ident_run_scans_ident(src: Seq<u8>, pos: int)
    requires
        0 <= pos < src.len(),
        spec_is_ident_start(src[pos]),
        !is_reserved_word(src.subrange(pos, letter_run_end(src, pos))),
    ensures
        ({
            let j = letter_run_end(src, pos);
            &&& spec_scan(src, pos) == (Token::IDENT, src.subrange(pos, j), j)
            &&& pos < j <= src.len()
            &&& forall|k: int| pos <= k < j ==> spec_is_letter(src[k])
            &&& j == src.len() || !spec_is_letter(src[j])
        }),
{
    lemma_letter_run_end(src, pos);
    lemma_letter_run_end(src, pos + 1);
    lemma_keyword_kind_is_ident(src.subrange(pos, letter_run_end(src, pos)));
}

/// A digit run scans as `INTEGER`, and the lexeme is the full maximal run of
/// digits: no partial consumption.
pub proof fn lemma_digit_run_scans_integer(src: Seq<u8>, pos: int)
    requires
        0 <= pos < src.len(),
        spec_is_digit(src[pos]),
    ensures
        ({
            let j = digit_run_end(src, pos);
            &&& spec_scan(src, pos) == (Token::INTEGER, src.subrange(pos, j), j)
            &&& pos < j <= src.len()
            &&& forall|k: int| pos <= k < j ==> spec_is_digit(src[k])
            &&& j == src.len() || !spec_is_digit(src[j])
        }),
{
    lemma_digit_run_end(src, pos);
    lemma_digit_run_end(src, pos + 1);
}

/// Once `scan` produces `EOF`, its lexeme is empty, and scanning again from
/// the position it left behind produces the very same `EOF` result: the
/// sentinel repeats forever.
pub proof fn lemma_eof_is_repeatable(src: Seq<u8>, pos: int)
    requires
        0 <= pos <= src.len(),
        spec_scan(src, pos).0 == Token::EOF,
    ensures
        spec_scan(src, pos).1 == Seq::<u8>::empty(),
        spec_scan(src, spec_scan(src, pos).2) == spec_scan(src, pos),
{
    lemma_skip_ws_end(src, pos);
    let i = skip_ws_end(src, pos);
    assert(i >= src.len() || src[i] == 0);
    assert(skip_ws_end(src, i) == i);
}

/// At one of the four switch bytes `=`, `!`, `<`, `>`, exactly one token is
/// emitted: the doubled two-byte operator when the byte after it is `=`
/// (both bytes consumed), the one-byte operator otherwise.
pub proof fn lemma_switch_lookahead(src: Seq<u8>, pos: int)
    requires
        0 <= pos < src.len(),
        is_switch_byte(src[pos]),
    ensures
        pos + 1 < src.len() && src[pos + 1] == 61 ==> spec_scan(src, pos) == (
            switch_double_kind(src[pos]),
            src.subrange(pos, pos + 2),
            pos + 2,
        ),
        !(pos + 1 < src.len() && src[pos + 1] == 61) ==> spec_scan(src, pos) == (
            switch_single_kind(src[pos]),
            src.subrange(pos, pos + 1),
            pos + 1,
        ),
{
}

} // verus!
