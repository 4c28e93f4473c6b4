use vstd::prelude::*;
use vstd::slice::slice_subrange;
use crate::token::{lexemes, Lexeme, Token};

verus! {

/// The classes of bytes that the tokenizer consumes in runs.
#[derive(Debug, Clone, Copy, PartialEq, Eq, Structural)]
pub enum CharClass {
    /// A decimal digit.
    Digit,
    /// An ASCII letter or decimal digit.
    Alnum,
    /// Anything but a line feed.
    NotNewline,
}

pub open spec fn is_space(b: u8) -> bool {
    b == 32 || b == 10  // space line feed
}

pub open spec fn is_digit_byte(b: u8) -> bool {
    48 <= b <= 57
}

pub open spec fn is_alpha(b: u8) -> bool {
    65 <= b <= 90 || 97 <= b <= 122
}

impl CharClass {
    pub open spec fn matches(self, b: u8) -> bool {
        match self {
            CharClass::Digit => is_digit_byte(b),
            CharClass::Alnum => is_alpha(b) || is_digit_byte(b),
            CharClass::NotNewline => b != 10,  // line feed
        }
    }

    /// Whether `b` belongs to the class.
    pub fn contains(&self, b: u8) -> (r: bool)
        ensures
            r == self.matches(b),
    {
        match self {
            CharClass::Digit => 48 <= b && b <= 57,
            CharClass::Alnum => (65 <= b && b <= 90) || (97 <= b && b <= 122) || (48 <= b && b
                <= 57),
            CharClass::NotNewline => b != 10,  // line feed
        }
    }
}

/// The characters that ASCII bytes stand for, one for one.
pub open spec fn chars_of(bytes: Seq<u8>) -> Seq<char> {
    Seq::new(bytes.len(), |i: int| bytes[i] as char)
}

/// Where the run of bytes of `class` that starts at `pos` ends: the first
/// index from `pos` on whose byte is not of the class, or the end of `src`.
pub open spec fn run_end(src: Seq<u8>, pos: int, class: CharClass) -> int
    decreases src.len() - pos,
{
    if 0 <= pos < src.len() && class.matches(src[pos]) {
        run_end(src, pos + 1, class)
    } else {
        pos
    }
}

/// Where the block comment whose body starts at `pos` ends: just after the
/// `*/` that closes it, or nowhere if the source ends first. Inside the
/// comment one further `/*` opens a nested comment, which has to be closed
/// before the outer one can be; inside a nested comment `/*` opens nothing.
pub open spec fn block_comment_end(src: Seq<u8>, pos: int, nested: bool) -> Option<int>
    decreases src.len() - pos,
{
    if pos < 0 || pos + 1 >= src.len() {
        None
    } else if src[pos] == 42 && src[pos + 1] == 47 {  // * /
        if nested {
            block_comment_end(src, pos + 2, false)
        } else {
            Some(pos + 2)
        }
    } else if !nested && src[pos] == 47 && src[pos + 1] == 42 {  // / *
        block_comment_end(src, pos + 2, true)
    } else {
        block_comment_end(src, pos + 1, nested)
    }
}

/// The token that a run of letters and digits is: a keyword, or an identifier.
pub open spec fn word_lexeme(text: Seq<u8>) -> Lexeme {
    if text == seq![105u8, 102u8] {  // "if"
        Lexeme::KwIf
    } else if text == seq![101u8, 108u8, 115u8, 101u8] {  // "else"
        Lexeme::KwElse
    } else if text == seq![119u8, 104u8, 105u8, 108u8, 101u8] {  // "while"
        Lexeme::KwWhile
    } else if text == seq![105u8, 56u8] {  // "i8"
        Lexeme::I08Type
    } else if text == seq![105u8, 49u8, 54u8] {  // "i16"
        Lexeme::I16Type
    } else if text == seq![105u8, 51u8, 50u8] {  // "i32"
        Lexeme::I32Type
    } else if text == seq![105u8, 54u8, 52u8] {  // "i64"
        Lexeme::I64Type
    } else {
        Lexeme::Ident(chars_of(text))
    }
}

/// What starts at one position of the source.
pub enum Scan {
    /// White space or a comment, up to the given index.
    Trivia(int),
    /// A token, up to the given index.
    Token(Lexeme, int),
    /// Nothing: a byte that starts no token, or a comment that never ends.
    Bad,
}

/// The byte at `pos`, or 0 beyond the end.
pub open spec fn byte_at(src: Seq<u8>, pos: int) -> u8 {
    if 0 <= pos < src.len() {
        src[pos]
    } else {
        0
    }
}

/// The one- or two-byte operator or punctuation that starts with `c`, the
/// next byte being `next`, and its length.
pub open spec fn symbol(c: u8, next: u8) -> Option<(Lexeme, int)> {
    if c == 43 {  // +
        Some((Lexeme::Plus, 1int))
    } else if c == 45 {  // -
        if next == 62 {  // >
            Some((Lexeme::Arrow, 2int))
        } else {
            Some((Lexeme::Minus, 1int))
        }
    } else if c == 42 {  // *
        Some((Lexeme::Star, 1int))
    } else if c == 47 {  // /
        Some((Lexeme::Slash, 1int))
    } else if c == 124 {  // |
        if next == 124 {  // |
            Some((Lexeme::BiOr, 2int))
        } else {
            Some((Lexeme::Or, 1int))
        }
    } else if c == 38 {  // &
        if next == 38 {  // &
            Some((Lexeme::BiAnd, 2int))
        } else {
            Some((Lexeme::And, 1int))
        }
    } else if c == 62 {  // >
        if next == 61 {  // =
            Some((Lexeme::Ge, 2int))
        } else {
            Some((Lexeme::Gt, 1int))
        }
    } else if c == 60 {  // <
        if next == 61 {  // =
            Some((Lexeme::Le, 2int))
        } else {
            Some((Lexeme::Lt, 1int))
        }
    } else if c == 61 {  // =
        if next == 61 {  // =
            Some((Lexeme::Eq, 2int))
        } else {
            Some((Lexeme::Assign, 1int))
        }
    } else if c == 33 {  // !
        if next == 61 {  // =
            Some((Lexeme::Ne, 2int))
        } else {
            Some((Lexeme::Not, 1int))
        }
    } else if c == 58 {  // :
        if next == 58 {  // :
            Some((Lexeme::DbColon, 2int))
        } else if next == 61 {  // =
            Some((Lexeme::ColonEq, 2int))
        } else {
            Some((Lexeme::Colon, 1int))
        }
    } else if c == 40 || c == 41 || c == 123 || c == 125 || c == 91 || c == 93 {  // ( ) { } [ ]
        Some((Lexeme::Paren(c as char), 1int))
    } else if c == 44 {  // ,
        Some((Lexeme::Comma, 1int))
    } else if c == 59 {  // ;
        Some((Lexeme::Semicolon, 1int))
    } else {
        None
    }
}

/// What starts at `pos`, by the longest match.
pub open spec fn scan(src: Seq<u8>, pos: int) -> Scan {
    let c = byte_at(src, pos);
    let next = byte_at(src, pos + 1);
    if is_space(c) {
        Scan::Trivia(pos + 1)
    } else if c == 47 && next == 47 {  // / /
        Scan::Trivia(run_end(src, pos + 2, CharClass::NotNewline))
    } else if c == 47 && next == 42 {  // / *
        match block_comment_end(src, pos + 2, false) {
            Some(end) => Scan::Trivia(end),
            None => Scan::Bad,
        }
    } else if is_digit_byte(c) {
        let end = run_end(src, pos, CharClass::Digit);
        Scan::Token(Lexeme::Number(chars_of(src.subrange(pos, end))), end)
    } else if is_alpha(c) {
        let end = run_end(src, pos, CharClass::Alnum);
        Scan::Token(word_lexeme(src.subrange(pos, end)), end)
    } else {
        match symbol(c, next) {
            Some((lexeme, len)) => Scan::Token(lexeme, pos + len),
            None => Scan::Bad,
        }
    }
}

/// `lexeme` in front of a tokenization that succeeded.
pub open spec fn prepend(lexeme: Lexeme, rest: Result<Seq<Lexeme>, int>) -> Result<
    Seq<Lexeme>,
    int,
> {
    match rest {
        Ok(tail) => Ok(seq![lexeme] + tail),
        Err(pos) => Err(pos),
    }
}

/// The tokens of `src` from `pos` on, or the first position at which nothing
/// can start.
pub open spec fn lex_from(src: Seq<u8>, pos: int) -> Result<Seq<Lexeme>, int>
    decreases src.len() - pos,
{
    if pos < 0 || pos >= src.len() {
        Ok(Seq::empty())
    } else {
        match scan(src, pos) {
            Scan::Trivia(end) => if pos < end <= src.len() {
                lex_from(src, end)
            } else {
                Err(pos)
            },
            Scan::Token(lexeme, end) => if pos < end <= src.len() {
                prepend(lexeme, lex_from(src, end))
            } else {
                Err(pos)
            },
            Scan::Bad => Err(pos),
        }
    }
}

/// The tokens of a source text, or the first position at which nothing can
/// start.
pub open spec fn lex(src: Seq<u8>) -> Result<Seq<Lexeme>, int> {
    lex_from(src, 0)
}

/// Where the tokens of `src` from `pos` on start, in order, as far as tokens
/// can be read.
pub open spec fn starts_from(src: Seq<u8>, pos: int) -> Seq<int>
    decreases src.len() - pos,
{
    if pos < 0 || pos >= src.len() {
        Seq::empty()
    } else {
        match scan(src, pos) {
            Scan::Trivia(end) => if pos < end <= src.len() {
                starts_from(src, end)
            } else {
                Seq::empty()
            },
            Scan::Token(_, end) => if pos < end <= src.len() {
                seq![pos] + starts_from(src, end)
            } else {
                Seq::empty()
            },
            Scan::Bad => Seq::empty(),
        }
    }
}

/// Where the token of index `i` starts in `src`; the end of `src` for an
/// index that no token has.
pub open spec fn token_pos(src: Seq<u8>, i: int) -> int {
    if 0 <= i < starts_from(src, 0).len() {
        starts_from(src, 0)[i]
    } else {
        src.len() as int
    }
}

/// The places of `v` as integers.
pub open spec fn places(v: Seq<usize>) -> Seq<int> {
    Seq::new(v.len(), |i: int| v[i] as int)
}

/// The number of line feeds among the first `pos` bytes: the line of
/// position `pos`, counted from 0.
pub open spec fn line_of(src: Seq<u8>, pos: int) -> int
    decreases pos,
{
    if pos <= 0 || pos > src.len() {
        0
    } else {
        line_of(src, pos - 1) + if src[pos - 1] == 10 {  // line feed
            1int
        } else {
            0int
        }
    }
}

/// A lexical error: the byte at which no token can start, and where it is.
#[derive(Debug, Clone, Copy, PartialEq, Eq, Structural)]
pub struct LexError {
    /// The index of the offending byte.
    pub pos: usize,
    /// Its line, counted from 0.
    pub line: usize,
    /// The byte itself.
    pub byte: u8,
}

/// A run ends at or after its start, within the source, on a byte that is
/// not of the class; every byte before is of the class.
pub proof fn lemma_run_end(src: Seq<u8>, pos: int, class: CharClass)
    requires
        0 <= pos <= src.len(),
    ensures
        pos <= run_end(src, pos, class) <= src.len(),
        run_end(src, pos, class) < src.len() ==> !class.matches(src[run_end(src, pos, class)]),
        forall|i: int| pos <= i < run_end(src, pos, class) ==> class.matches(#[trigger] src[i]),
    decreases src.len() - pos,
{
    if pos < src.len() && class.matches(src[pos]) {
        lemma_run_end(src, pos + 1, class);
    }
}

/// A block comment ends after its start, within the source.
pub proof fn lemma_block_comment_end(src: Seq<u8>, pos: int, nested: bool)
    requires
        0 <= pos,
    ensures
        block_comment_end(src, pos, nested) matches Some(end) ==> pos + 2 <= end <= src.len(),
    decreases src.len() - pos,
{
    if pos + 1 < src.len() {
        if src[pos] == 42 && src[pos + 1] == 47 {  // * /
            if nested {
                lemma_block_comment_end(src, pos + 2, false);
            }
        } else if !nested && src[pos] == 47 && src[pos + 1] == 42 {  // / *
            lemma_block_comment_end(src, pos + 2, true);
        } else {
            lemma_block_comment_end(src, pos + 1, nested);
        }
    }
}

/// Whatever starts at a position ends after it, within the source: the
/// tokenizer always moves on.
pub proof fn lemma_scan_progress(src: Seq<u8>, pos: int)
    requires
        0 <= pos < src.len(),
    ensures
        scan(src, pos) matches Scan::Trivia(end) ==> pos < end <= src.len(),
        scan(src, pos) matches Scan::Token(_, end) ==> pos < end <= src.len(),
{
    lemma_run_end(src, pos + 1, CharClass::Digit);
    lemma_run_end(src, pos + 1, CharClass::Alnum);
    if pos + 2 <= src.len() {
        lemma_run_end(src, pos + 2, CharClass::NotNewline);
    }
    lemma_block_comment_end(src, pos + 2, false);
}

/// The text of a number token is a number literal: a non-empty run of
/// decimal digits, so that only its size can make code generation refuse it.
pub proof fn lemma_number_token_is_literal(src: Seq<u8>, pos: int)
    requires
        0 <= pos < src.len(),
    ensures
        scan(src, pos) matches Scan::Token(Lexeme::Number(text), end) ==> crate::text::is_literal(
            text,
        ) && text == chars_of(src.subrange(pos, end)) && text.len() == end - pos,
{
    if is_digit_byte(src[pos]) && !is_space(src[pos]) && !(src[pos] == 47) {  // /
        lemma_run_end(src, pos, CharClass::Digit);
        let end = run_end(src, pos, CharClass::Digit);
        let text = chars_of(src.subrange(pos, end));
        assert(run_end(src, pos, CharClass::Digit) == run_end(src, pos + 1, CharClass::Digit));
        lemma_run_end(src, pos + 1, CharClass::Digit);
        assert forall|i: int| 0 <= i < text.len() implies crate::text::is_digit(
            #[trigger] text[i],
        ) by {
            assert(CharClass::Digit.matches(src[pos + i]));
            assert(text[i] == src[pos + i] as char);
        }
    }
}

/// Every token starts within the source, at or after the place from which
/// the tokens are read.
pub proof fn lemma_starts_within(src: Seq<u8>, pos: int)
    requires
        0 <= pos,
    ensures
        forall|i: int|
            0 <= i < starts_from(src, pos).len() ==> pos <= #[trigger] starts_from(src, pos)[i]
                < src.len(),
    decreases src.len() - pos,
{
    if pos < src.len() {
        match scan(src, pos) {
            Scan::Trivia(end) => if pos < end <= src.len() {
                lemma_starts_within(src, end);
                let rest = starts_from(src, end);
                assert(starts_from(src, pos) == rest);
                assert forall|i: int| 0 <= i < starts_from(src, pos).len() implies pos
                    <= #[trigger] starts_from(src, pos)[i] < src.len() by {
                    assert(end <= rest[i] < src.len());
                }
            },
            Scan::Token(_, end) => if pos < end <= src.len() {
                lemma_starts_within(src, end);
                let rest = starts_from(src, end);
                assert(starts_from(src, pos) == seq![pos] + rest);
                assert forall|i: int| 0 <= i < starts_from(src, pos).len() implies pos
                    <= #[trigger] starts_from(src, pos)[i] < src.len() by {
                    if i > 0 {
                        assert(starts_from(src, pos)[i] == rest[i - 1]);
                        assert(end <= rest[i - 1] < src.len());
                    } else {
                        assert(starts_from(src, pos)[0] == pos);
                    }
                }
            },
            Scan::Bad => {},
        }
    }
}

/// Reads ASCII bytes as text.
///
/// Wraps `core::str::from_utf8`. Bytes below 128 are valid UTF-8 in which
/// every byte encodes one character, the one with the byte's own number; the
/// contract claims that the returned text is those characters in order.
#[verifier::external_body]
fn ascii_text<'a>(bytes: &'a [u8]) -> (s: &'a str)
    requires
        forall|i: int| 0 <= i < bytes@.len() ==> bytes@[i] < 128,
    ensures
        s@ == chars_of(bytes@),
{
    match core::str::from_utf8(bytes) {
        Ok(s) => s,
        Err(_) => "",
    }
}

/// A single forward-only cursor over a source buffer, with the tokens read
/// so far.
pub struct Tokenizer<'t> {
    source: &'t [u8],
    cursor: usize,
    tokens: Vec<Token<'t>>,
    start: usize,
    starts: Vec<usize>,
}

impl<'t> Tokenizer<'t> {
    /// The source buffer.
    pub closed spec fn source(&self) -> Seq<u8> {
        self.source@
    }

    /// The index of the next byte to read.
    pub closed spec fn cursor(&self) -> int {
        self.cursor as int
    }

    /// The tokens read so far.
    pub closed spec fn tokens(&self) -> Seq<Token<'t>> {
        self.tokens@
    }

    /// Where the token read last started.
    pub closed spec fn token_start(&self) -> int {
        self.start as int
    }

    /// Where the tokens read so far started.
    pub closed spec fn starts(&self) -> Seq<int> {
        places(self.starts@)
    }

    /// The cursor is within the source.
    pub closed spec fn wf(&self) -> bool {
        self.cursor <= self.source@.len()
    }

    pub fn new(source: &'t [u8]) -> (t: Self)
        ensures
            t.wf(),
            t.source() == source@,
            t.cursor() == 0,
            t.tokens() == Seq::<Token<'t>>::empty(),
            t.starts() == Seq::<int>::empty(),
    {
        let t = Self { source, cursor: 0, tokens: Vec::new(), start: 0, starts: Vec::new() };
        assert(t.starts() =~= Seq::<int>::empty());
        t
    }

    /// The byte `off` positions after the cursor, if the source reaches that far.
    pub fn peek_ch(&self, off: usize) -> (r: Option<u8>)
        requires
            self.wf(),
        ensures
            r == (if self.cursor() + off < self.source().len() {
                Some(self.source()[self.cursor() + off])
            } else {
                None
            }),
    {
        if off < self.source.len() - self.cursor {
            Some(self.source[self.cursor + off])
        } else {
            None
        }
    }

    /// Moves the cursor `n` bytes on.
    pub fn consume_ch(&mut self, n: usize)
        requires
            old(self).wf(),
            old(self).cursor() + n <= old(self).source().len(),
        ensures
            final(self).wf(),
            final(self).cursor() == old(self).cursor() + n,
            final(self).source() == old(self).source(),
            final(self).tokens() == old(self).tokens(),
            final(self).starts() == old(self).starts(),
    {
        let len = self.source.len();
        assert(self.cursor + n <= len);
        self.cursor += n;
    }

    /// Moves the cursor to the end of the run of bytes of `class` that
    /// starts at it.
    pub fn consume_ch_while(&mut self, class: CharClass)
        requires
            old(self).wf(),
        ensures
            final(self).wf(),
            final(self).cursor() == run_end(old(self).source(), old(self).cursor(), class),
            final(self).source() == old(self).source(),
            final(self).tokens() == old(self).tokens(),
            final(self).starts() == old(self).starts(),
    {
        while self.cursor < self.source.len() && class.contains(self.source[self.cursor])
            invariant
                self.wf(),
                self.source@ == old(self).source@,
                self.tokens@ == old(self).tokens@,
                self.starts@ == old(self).starts@,
                old(self).cursor <= self.cursor,
                run_end(old(self).source(), old(self).cursor(), class) == run_end(
                    self.source(),
                    self.cursor(),
                    class,
                ),
            decreases self.source.len() - self.cursor,
        {
            self.cursor += 1;
        }
    }

    /// Moves the cursor past the block comment whose body starts at it.
    /// Answers whether the comment was closed.
    fn skip_block_comment(&mut self) -> (closed: bool)
        requires
            old(self).wf(),
        ensures
            final(self).wf(),
            final(self).source() == old(self).source(),
            final(self).tokens() == old(self).tokens(),
            final(self).starts() == old(self).starts(),
            closed ==> block_comment_end(old(self).source(), old(self).cursor(), false) == Some(
                final(self).cursor(),
            ),
            !closed ==> block_comment_end(old(self).source(), old(self).cursor(), false) is None,
    {
        let mut nested = false;
        let len = self.source.len();
        while len - self.cursor >= 2
            invariant
                self.wf(),
                len == self.source@.len(),
                self.source@ == old(self).source@,
                self.tokens@ == old(self).tokens@,
                self.starts@ == old(self).starts@,
                block_comment_end(old(self).source(), old(self).cursor(), false)
                    == block_comment_end(self.source(), self.cursor(), nested),
            decreases len - self.cursor,
        {
            let a = self.source[self.cursor];
            let b = self.source[self.cursor + 1];
            if a == 42 && b == 47 {  // * /
                self.cursor += 2;
                if nested {
                    nested = false;
                } else {
                    return true;
                }
            } else if !nested && a == 47 && b == 42 {  // / *
                self.cursor += 2;
                nested = true;
            } else {
                self.cursor += 1;
            }
        }
        false
    }

    /// The line of the position `pos`, counted from 0.
    fn line_at(&self, pos: usize) -> (line: usize)
        requires
            self.wf(),
            pos <= self.source().len(),
        ensures
            line == line_of(self.source(), pos as int),
    {
        let mut line: usize = 0;
        let mut i: usize = 0;
        while i < pos
            invariant
                i <= pos <= self.source@.len(),
                line == line_of(self.source@, i as int),
                line <= i,
            decreases pos - i,
        {
            if self.source[i] == 10 {  // line feed
                line += 1;
            }
            i += 1;
        }
        line
    }

    /// The error for the position `pos`, at which nothing can start.
    fn error_at(&self, pos: usize) -> (e: LexError)
        requires
            self.wf(),
            pos < self.source().len(),
        ensures
            e == (LexError {
                pos,
                line: line_of(self.source(), pos as int) as usize,
                byte: self.source()[pos as int],
            }),
    {
        LexError { pos, line: self.line_at(pos), byte: self.source[pos] }
    }

    /// The keyword or identifier spelled by the bytes from `start` to the cursor.
    fn word(&self, start: usize) -> (tok: Token<'t>)
        requires
            self.wf(),
            start <= self.cursor(),
            forall|i: int| start <= i < self.cursor() ==> CharClass::Alnum.matches(
                #[trigger] self.source()[i],
            ),
        ensures
            tok@ == word_lexeme(self.source().subrange(start as int, self.cursor())),
    {
        let bytes = slice_subrange(self.source, start, self.cursor);
        let ghost text = self.source@.subrange(start as int, self.cursor as int);
        let n = bytes.len();
        if n == 2 && bytes[0] == 105 && bytes[1] == 102 {
            assert(text =~= seq![105u8, 102u8]);
            return Token::KwIf;
        }
        if n == 4 && bytes[0] == 101 && bytes[1] == 108 && bytes[2] == 115 && bytes[3] == 101 {
            assert(text =~= seq![101u8, 108u8, 115u8, 101u8]);
            return Token::KwElse;
        }
        if n == 5 && bytes[0] == 119 && bytes[1] == 104 && bytes[2] == 105 && bytes[3] == 108
            && bytes[4] == 101 {
            assert(text =~= seq![119u8, 104u8, 105u8, 108u8, 101u8]);
            return Token::KwWhile;
        }
        if n == 2 && bytes[0] == 105 && bytes[1] == 56 {
            assert(text =~= seq![105u8, 56u8]);
            return Token::I08Type;
        }
        if n == 3 && bytes[0] == 105 && bytes[1] == 49 && bytes[2] == 54 {
            assert(text =~= seq![105u8, 49u8, 54u8]);
            return Token::I16Type;
        }
        if n == 3 && bytes[0] == 105 && bytes[1] == 51 && bytes[2] == 50 {
            assert(text =~= seq![105u8, 51u8, 50u8]);
            return Token::I32Type;
        }
        if n == 3 && bytes[0] == 105 && bytes[1] == 54 && bytes[2] == 52 {
            assert(text =~= seq![105u8, 54u8, 52u8]);
            return Token::I64Type;
        }
        assert(text != seq![105u8, 102u8]) by {
            if text == seq![105u8, 102u8] {  // "if"
                assert(seq![105u8, 102u8].len() == 2);
                assert(seq![105u8, 102u8][0] == 105u8 && seq![105u8, 102u8][1] == 102u8);
            }
        }
        assert(text != seq![101u8, 108u8, 115u8, 101u8]) by {
            let w = seq![101u8, 108u8, 115u8, 101u8];  // "else"
            if text == w {
                assert(w.len() == 4);
                assert(w[0] == 101u8 && w[1] == 108u8 && w[2] == 115u8 && w[3] == 101u8);
            }
        }
        assert(text != seq![119u8, 104u8, 105u8, 108u8, 101u8]) by {
            let w = seq![119u8, 104u8, 105u8, 108u8, 101u8];  // "while"
            if text == w {
                assert(w.len() == 5);
                assert(w[0] == 119u8 && w[1] == 104u8 && w[2] == 105u8 && w[3] == 108u8 && w[4]
                    == 101u8);
            }
        }
        assert(text != seq![105u8, 56u8]) by {
            let w = seq![105u8, 56u8];  // "i8"
            if text == w {
                assert(w.len() == 2);
                assert(w[0] == 105u8 && w[1] == 56u8);
            }
        }
        assert(text != seq![105u8, 49u8, 54u8]) by {
            let w = seq![105u8, 49u8, 54u8];  // "i16"
            if text == w {
                assert(w.len() == 3);
                assert(w[0] == 105u8 && w[1] == 49u8 && w[2] == 54u8);
            }
        }
        assert(text != seq![105u8, 51u8, 50u8]) by {
            let w = seq![105u8, 51u8, 50u8];  // "i32"
            if text == w {
                assert(w.len() == 3);
                assert(w[0] == 105u8 && w[1] == 51u8 && w[2] == 50u8);
            }
        }
        assert(text != seq![105u8, 54u8, 52u8]) by {
            let w = seq![105u8, 54u8, 52u8];  // "i64"
            if text == w {
                assert(w.len() == 3);
                assert(w[0] == 105u8 && w[1] == 54u8 && w[2] == 52u8);
            }
        }
        Token::Ident(ascii_text(bytes))
    }

    /// The operator or punctuation that starts with `c`, the next byte being
    /// `next` (0 at the end of the source), and its length.
    fn symbol(c: u8, next: u8) -> (r: Option<(Token<'t>, usize)>)
        ensures
            match symbol(c, next) {
                Some((lexeme, len)) => r matches Some((tok, n)) && tok@ == lexeme && n == len,
                None => r is None,
            },
    {
        match c {
            43 => Some((Token::Plus, 1)),  // +
            45 => if next == 62 {  // -
                Some((Token::Arrow, 2))
            } else {
                Some((Token::Minus, 1))
            },
            42 => Some((Token::Star, 1)),  // *
            47 => Some((Token::Slash, 1)),  // /
            124 => if next == 124 {  // |
                Some((Token::BiOr, 2))
            } else {
                Some((Token::Or, 1))
            },
            38 => if next == 38 {  // &
                Some((Token::BiAnd, 2))
            } else {
                Some((Token::And, 1))
            },
            62 => if next == 61 {  // >
                Some((Token::Ge, 2))
            } else {
                Some((Token::Gt, 1))
            },
            60 => if next == 61 {  // <
                Some((Token::Le, 2))
            } else {
                Some((Token::Lt, 1))
            },
            61 => if next == 61 {  // =
                Some((Token::Eq, 2))
            } else {
                Some((Token::Assign, 1))
            },
            33 => if next == 61 {  // !
                Some((Token::Ne, 2))
            } else {
                Some((Token::Not, 1))
            },
            58 => if next == 58 {  // :
                Some((Token::DbColon, 2))
            } else if next == 61 {  // =
                Some((Token::ColonEq, 2))
            } else {
                Some((Token::Colon, 1))
            },
            40 | 41 | 123 | 125 | 91 | 93 => Some((Token::Paren(c as char), 1)),  // ( ) { } [ ]
            44 => Some((Token::Comma, 1)),  // ,
            59 => Some((Token::Semicolon, 1)),  // ;
            _ => None,
        }
    }

    /// Reads the next token: skips white space and comments, then takes the
    /// longest token that starts at the cursor. Answers `None` at the end of
    /// the source, and an error at a byte that starts nothing; the cursor then
    /// stays on that byte.
    pub fn next_token(&mut self) -> (res: Result<Option<Token<'t>>, LexError>)
        requires
            old(self).wf(),
        ensures
            final(self).wf(),
            final(self).source() == old(self).source(),
            final(self).tokens() == old(self).tokens(),
            final(self).starts() == old(self).starts(),
            old(self).cursor() <= final(self).cursor(),
            match res {
                Ok(Some(tok)) => lex_from(old(self).source(), old(self).cursor()) == prepend(
                    tok@,
                    lex_from(final(self).source(), final(self).cursor()),
                ) && old(self).cursor() <= final(self).token_start() < final(self).cursor()
                    && starts_from(old(self).source(), old(self).cursor()) == seq![
                    final(self).token_start(),
                ] + starts_from(final(self).source(), final(self).cursor()),
                Ok(None) => lex_from(old(self).source(), old(self).cursor()) == Ok::<
                    Seq<Lexeme>,
                    int,
                >(Seq::empty()) && final(self).cursor() == final(self).source().len()
                    && starts_from(old(self).source(), old(self).cursor()) == Seq::<int>::empty(),
                Err(e) => lex_from(old(self).source(), old(self).cursor()) == Err::<
                    Seq<Lexeme>,
                    int,
                >(e.pos as int) && e.pos < old(self).source().len() && e == (LexError {
                    pos: e.pos,
                    line: line_of(old(self).source(), e.pos as int) as usize,
                    byte: old(self).source()[e.pos as int],
                }) && starts_from(old(self).source(), old(self).cursor()) == Seq::<int>::empty(),
            },
    {
        let len = self.source.len();
        loop
            invariant
                self.wf(),
                len == self.source@.len(),
                self.source@ == old(self).source@,
                self.tokens@ == old(self).tokens@,
                self.starts() == old(self).starts(),
                old(self).cursor <= self.cursor,
                lex_from(old(self).source(), old(self).cursor()) == lex_from(
                    self.source(),
                    self.cursor(),
                ),
                starts_from(old(self).source(), old(self).cursor()) == starts_from(
                    self.source(),
                    self.cursor(),
                ),
            decreases len - self.cursor,
        {
            let start = self.cursor;
            let c = match self.peek_ch(0) {
                Some(c) => c,
                None => {
                    return Ok(None);
                },
            };
            let next = match self.peek_ch(1) {
                Some(b) => b,
                None => 0,
            };
            proof {
                lemma_scan_progress(self.source@, start as int);
            }
            if c == 32 || c == 10 {  // space line feed
                self.consume_ch(1);
            } else if c == 47 && next == 47 {  // / /
                self.consume_ch(2);
                self.consume_ch_while(CharClass::NotNewline);
            } else if c == 47 && next == 42 {  // / *
                self.consume_ch(2);
                if !self.skip_block_comment() {
                    self.cursor = start;
                    return Err(self.error_at(start));
                }
            } else if 48 <= c && c <= 57 {
                self.consume_ch_while(CharClass::Digit);
                proof {
                    lemma_run_end(self.source@, start as int, CharClass::Digit);
                }
                let bytes = slice_subrange(self.source, start, self.cursor);
                self.start = start;
                return Ok(Some(Token::Number(ascii_text(bytes))));
            } else if (65 <= c && c <= 90) || (97 <= c && c <= 122) {
                self.consume_ch_while(CharClass::Alnum);
                proof {
                    lemma_run_end(self.source@, start as int, CharClass::Alnum);
                }
                self.start = start;
                return Ok(Some(self.word(start)));
            } else {
                match Self::symbol(c, next) {
                    Some((tok, n)) => {
                        self.consume_ch(n);
                        self.start = start;
                        return Ok(Some(tok));
                    },
                    None => {
                        return Err(self.error_at(start));
                    },
                }
            }
        }
    }

    /// Reads tokens to the end of the source, or to the first byte that
    /// starts nothing.
    pub fn run(&mut self) -> (res: Result<(), LexError>)
        requires
            old(self).wf(),
        ensures
            final(self).wf(),
            final(self).source() == old(self).source(),
            final(self).starts() == old(self).starts() + starts_from(
                old(self).source(),
                old(self).cursor(),
            ),
            match res {
                Ok(()) => lex_from(old(self).source(), old(self).cursor()) matches Ok(rest)
                    && lexemes(final(self).tokens()) == lexemes(old(self).tokens()) + rest,
                Err(e) => lex_from(old(self).source(), old(self).cursor()) == Err::<
                    Seq<Lexeme>,
                    int,
                >(e.pos as int) && e.pos < old(self).source().len() && e == (LexError {
                    pos: e.pos,
                    line: line_of(old(self).source(), e.pos as int) as usize,
                    byte: old(self).source()[e.pos as int],
                }),
            },
    {
        loop
            invariant
                self.wf(),
                self.source@ == old(self).source@,
                old(self).cursor <= self.cursor,
                old(self).starts() + starts_from(old(self).source(), old(self).cursor())
                    == self.starts() + starts_from(self.source(), self.cursor()),
                match lex_from(self.source(), self.cursor()) {
                    Ok(rest) => lex_from(old(self).source(), old(self).cursor()) matches Ok(all)
                        && lexemes(old(self).tokens()) + all == lexemes(self.tokens()) + rest,
                    Err(pos) => lex_from(old(self).source(), old(self).cursor()) == Err::<
                        Seq<Lexeme>,
                        int,
                    >(pos),
                },
            decreases self.source@.len() - self.cursor,
        {
            let ghost before = lexemes(self.tokens@);
            let ghost places_before = self.starts();
            match self.next_token() {
                Ok(Some(tok)) => {
                    self.tokens.push(tok);
                    self.starts.push(self.start);
                    proof {
                        assert(self.starts() =~= places_before.push(self.start as int));
                        assert(places_before + (seq![self.start as int] + starts_from(
                            self.source@,
                            self.cursor as int,
                        )) =~= places_before.push(self.start as int) + starts_from(
                            self.source@,
                            self.cursor as int,
                        ));
                        assert(lexemes(self.tokens@) =~= before.push(tok@));
                        if let Ok(rest) = lex_from(self.source@, self.cursor as int) {
                            assert(before + (seq![tok@] + rest) =~= before.push(tok@) + rest);
                        }
                    }
                },
                Ok(None) => {
                    proof {
                        assert(self.starts() + Seq::<int>::empty() =~= self.starts());
                        let all = lex_from(old(self).source(), old(self).cursor())->Ok_0;
                        assert(lexemes(old(self).tokens()) + all =~= lexemes(self.tokens@)
                            + Seq::<Lexeme>::empty());
                        assert(all =~= (lexemes(old(self).tokens()) + all).subrange(
                            lexemes(old(self).tokens()).len() as int,
                            (lexemes(old(self).tokens()) + all).len() as int,
                        ));
                    }
                    return Ok(());
                },
                Err(e) => {
                    proof {
                        assert(self.starts() + Seq::<int>::empty() =~= self.starts());
                    }
                    return Err(e);
                },
            }
        }
    }

    /// The tokens of `source`, each with the place where it starts; or the
    /// first byte that starts nothing.
    pub fn scan_source(source: &'t [u8]) -> (res: Result<(Vec<Token<'t>>, Vec<usize>), LexError>)
        ensures
            match res {
                Ok((tokens, starts)) => lex(source@) == Ok::<Seq<Lexeme>, int>(lexemes(tokens@))
                    && places(starts@) == starts_from(source@, 0),
                Err(e) => lex(source@) == Err::<Seq<Lexeme>, int>(e.pos as int) && e.pos
                    < source@.len() && e == (LexError {
                    pos: e.pos,
                    line: line_of(source@, e.pos as int) as usize,
                    byte: source@[e.pos as int],
                }),
            },
    {
        let mut tokenizer = Self::new(source);
        match tokenizer.run() {
            Ok(()) => {
                proof {
                    let rest = lex(source@)->Ok_0;
                    assert(lexemes(Seq::<Token<'t>>::empty()) + rest =~= rest);
                    assert(Seq::<int>::empty() + starts_from(source@, 0) =~= starts_from(
                        source@,
                        0,
                    ));
                }
                Ok((tokenizer.tokens, tokenizer.starts))
            },
            Err(e) => Err(e),
        }
    }

    /// The line of the place `pos` of `source`, counted from 0.
    pub fn line_number(source: &'t [u8], pos: usize) -> (line: usize)
        requires
            pos <= source@.len(),
        ensures
            line == line_of(source@, pos as int),
    {
        Self::new(source).line_at(pos)
    }

    /// The tokens of `source`, or the first byte that starts nothing.
    pub fn try_tokenize(source: &'t [u8]) -> (res: Result<Vec<Token<'t>>, LexError>)
        ensures
            match res {
                Ok(tokens) => lex(source@) == Ok::<Seq<Lexeme>, int>(lexemes(tokens@)),
                Err(e) => lex(source@) == Err::<Seq<Lexeme>, int>(e.pos as int) && e.pos
                    < source@.len() && e == (LexError {
                    pos: e.pos,
                    line: line_of(source@, e.pos as int) as usize,
                    byte: source@[e.pos as int],
                }),
            },
    {
        let mut tokenizer = Self::new(source);
        match tokenizer.run() {
            Ok(()) => {
                proof {
                    let rest = lex(source@)->Ok_0;
                    assert(lexemes(Seq::<Token<'t>>::empty()) + rest =~= rest);
                }
                Ok(tokenizer.tokens)
            },
            Err(e) => Err(e),
        }
    }

    /// The tokens of a source in which every byte belongs to a token, to white
    /// space or to a closed comment.
    pub fn tokenize(source: &'t [u8]) -> (tokens: Vec<Token<'t>>)
        requires
            lex(source@) is Ok,
        ensures
            lex(source@) == Ok::<Seq<Lexeme>, int>(lexemes(tokens@)),
    {
        match Self::try_tokenize(source) {
            Ok(tokens) => tokens,
            Err(_) => Vec::new(),
        }
    }
}

} // verus!
