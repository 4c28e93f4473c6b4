use vstd::prelude::*;
use vstd::string::StringSliceAdditionalSpecFns;
use crate::lang::{Token, TokenKind};

verus! {

/// The classes of bytes that make up numerals and words.
#[derive(Debug, Clone, Copy, PartialEq, Eq, Structural)]
pub enum SpanClass {
    /// A decimal digit.
    Digit,
    /// An ASCII letter, a decimal digit or `_`.
    Word,
}

impl SpanClass {
    pub open spec fn matches(self, b: u8) -> bool {
        match self {
            SpanClass::Digit => 48 <= b <= 57,
            SpanClass::Word => 48 <= b <= 57 || 65 <= b <= 90 || 97 <= b <= 122 || b == 95,
        }
    }

    /// Whether `b` belongs to the class.
    pub fn contains(&self, b: u8) -> (r: bool)
        ensures
            r == self.matches(b),
    {
        match self {
            SpanClass::Digit => 48 <= b && b <= 57,
            SpanClass::Word => (48 <= b && b <= 57) || (65 <= b && b <= 90) || (97 <= b && b
                <= 122) || b == 95,  // _
        }
    }
}

/// Where the run of bytes of `class` that starts at `pos` ends.
pub open spec fn span_end(src: Seq<u8>, pos: int, class: SpanClass) -> int
    decreases src.len() - pos,
{
    if 0 <= pos < src.len() && class.matches(src[pos]) {
        span_end(src, pos + 1, class)
    } else {
        pos
    }
}

/// The kind of a word: one of the three keywords, or a literal.
pub open spec fn word_kind(text: Seq<u8>) -> TokenKind {
    if text == seq![115u8, 101u8, 108u8, 102u8] {  // "self"
        TokenKind::KwSelf
    } else if text == seq![114u8, 101u8, 116u8, 117u8, 114u8, 110u8] {  // "return"
        TokenKind::KwReturn
    } else if text == seq![115u8, 116u8, 114u8, 117u8, 99u8, 116u8] {  // "struct"
        TokenKind::KwStruct
    } else {
        TokenKind::Literal
    }
}

/// The byte at `pos`, or 0 beyond the end.
pub open spec fn byte_or_zero(src: Seq<u8>, pos: int) -> u8 {
    if 0 <= pos < src.len() {
        src[pos]
    } else {
        0
    }
}

/// The kind and the end of the token that starts at `pos`, which holds
/// neither a space nor a line feed; nothing where no token starts.
pub open spec fn span_scan(src: Seq<u8>, pos: int) -> Option<(TokenKind, int)> {
    let c = byte_or_zero(src, pos);
    let next = byte_or_zero(src, pos + 1);
    if 48 <= c <= 57 {
        Some((TokenKind::Numeral, span_end(src, pos, SpanClass::Digit)))
    } else if 65 <= c <= 90 || 97 <= c <= 122 {
        let end = span_end(src, pos, SpanClass::Word);
        Some((word_kind(src.subrange(pos, end)), end))
    } else if c == 58 {  // :
        if next == 58 {  // :
            Some((TokenKind::DbColon, pos + 2))
        } else if next == 61 {  // =
            Some((TokenKind::ColonEq, pos + 2))
        } else {
            Some((TokenKind::Colon, pos + 1))
        }
    } else if c == 46 {  // .
        Some((TokenKind::Dot, pos + 1))
    } else if c == 44 {  // ,
        Some((TokenKind::Comma, pos + 1))
    } else if c == 59 {  // ;
        Some((TokenKind::SemiColon, pos + 1))
    } else if c == 61 {  // =
        Some((TokenKind::Eq, pos + 1))
    } else if c == 43 {  // +
        if next == 61 {  // =
            Some((TokenKind::PlusEq, pos + 2))
        } else {
            Some((TokenKind::Plus, pos + 1))
        }
    } else if c == 45 {  // -
        if next == 62 {  // >
            Some((TokenKind::Arrow, pos + 2))
        } else {
            Some((TokenKind::Minus, pos + 1))
        }
    } else if c == 42 {  // *
        Some((TokenKind::Star, pos + 1))
    } else if c == 47 {  // /
        Some((TokenKind::Slash, pos + 1))
    } else if c == 123 {  // {
        Some((TokenKind::LBrace, pos + 1))
    } else if c == 125 {  // }
        Some((TokenKind::RBrace, pos + 1))
    } else if c == 40 {  // (
        Some((TokenKind::LParen, pos + 1))
    } else if c == 41 {  // )
        Some((TokenKind::RParen, pos + 1))
    } else {
        None
    }
}

/// An unknown symbol: where it stands and what it is.
#[derive(Debug, Clone, Copy, PartialEq, Eq, Structural)]
pub struct ScanError {
    /// The index of the byte.
    pub pos: usize,
    /// Its line, counted from 0.
    pub line: usize,
    /// The byte itself.
    pub byte: u8,
}

/// The tokens of `src` from `pos` on, which lies on line `line`; or the
/// position and line of the first byte that starts no token.
pub open spec fn spans_from(src: Seq<u8>, pos: int, line: int) -> Result<Seq<Token>, (int, int)>
    decreases src.len() - pos,
{
    if pos < 0 || pos >= src.len() {
        Ok(Seq::empty())
    } else if src[pos] == 32 {  // space
        spans_from(src, pos + 1, line)
    } else if src[pos] == 10 {  // line feed
        spans_from(src, pos + 1, line + 1)
    } else {
        match span_scan(src, pos) {
            Some((kind, end)) => if pos < end <= src.len() {
                match spans_from(src, end, line) {
                    Ok(rest) => Ok(
                        seq![
                            Token { begin: pos as usize, end: end as usize, line: line as usize, kind },
                        ] + rest,
                    ),
                    Err(e) => Err(e),
                }
            } else {
                Err((pos, line))
            },
            None => Err((pos, line)),
        }
    }
}

/// The tokens of a source text.
pub open spec fn spans(src: Seq<u8>) -> Result<Seq<Token>, (int, int)> {
    spans_from(src, 0, 0)
}

/// A run ends at or after its start, within the source.
pub proof fn lemma_span_end(src: Seq<u8>, pos: int, class: SpanClass)
    requires
        0 <= pos <= src.len(),
    ensures
        pos <= span_end(src, pos, class) <= src.len(),
        pos < src.len() && class.matches(src[pos]) ==> pos < span_end(src, pos, class),
    decreases src.len() - pos,
{
    if pos < src.len() && class.matches(src[pos]) {
        lemma_span_end(src, pos + 1, class);
    }
}

/// Every token is a non-empty span of the source, at or after the place from
/// which the tokens are read and on that line or a later one.
pub proof fn lemma_spans_are_nonempty(src: Seq<u8>, pos: int, line: int)
    requires
        0 <= pos,
        0 <= line,
        src.len() <= usize::MAX,
        line + (src.len() - pos) <= usize::MAX,
    ensures
        spans_from(src, pos, line) matches Ok(toks) ==> forall|i: int|
            0 <= i < toks.len() ==> pos <= (#[trigger] toks[i]).begin < toks[i].end <= src.len()
                && line <= toks[i].line,
    decreases src.len() - pos,
{
    if pos < src.len() {
        if src[pos] == 32 {
            lemma_spans_are_nonempty(src, pos + 1, line);
        } else if src[pos] == 10 {
            lemma_spans_are_nonempty(src, pos + 1, line + 1);
        } else {
            match span_scan(src, pos) {
                Some((kind, end)) => if pos < end <= src.len() {
                    lemma_spans_are_nonempty(src, end, line);
                    if let Ok(rest) = spans_from(src, end, line) {
                        let first = Token {
                            begin: pos as usize,
                            end: end as usize,
                            line: line as usize,
                            kind,
                        };
                        let toks = seq![first] + rest;
                        assert forall|i: int| 0 <= i < toks.len() implies pos <= (
                        #[trigger] toks[i]).begin < toks[i].end <= src.len() && line
                            <= toks[i].line by {
                            if i > 0 {
                                assert(toks[i] == rest[i - 1]);
                            }
                        }
                    }
                },
                None => {},
            }
        }
    }
}

/// Takes the run of bytes of `class` at `*pos` as one token of kind `kind`.
pub fn consume_token(pos: &mut usize, line: usize, bytes: &[u8], class: SpanClass, kind: TokenKind) -> (tok:
    Token)
    requires
        *old(pos) <= bytes@.len(),
    ensures
        *final(pos) == span_end(bytes@, *old(pos) as int, class),
        *old(pos) <= *final(pos) <= bytes@.len(),
        tok == (Token { begin: *old(pos), end: *final(pos), line, kind }),
{
    let begin = *pos;
    while *pos < bytes.len() && class.contains(bytes[*pos])
        invariant
            begin <= *pos <= bytes@.len(),
            span_end(bytes@, begin as int, class) == span_end(bytes@, *pos as int, class),
        decreases bytes@.len() - *pos,
    {
        *pos += 1;
    }
    let end = *pos;
    Token { begin, end, line, kind }
}

/// Takes the byte at `*pos` as one token of kind `kind`.
pub fn consume_single(pos: &mut usize, line: usize, kind: TokenKind) -> (tok: Token)
    requires
        *old(pos) < usize::MAX,
    ensures
        *final(pos) == *old(pos) + 1,
        tok == (Token { begin: *old(pos), end: *final(pos), line, kind }),
{
    *pos += 1;
    Token { begin: *pos - 1, end: *pos, line, kind }
}

/// Takes the byte at `*pos` and, if the byte after it is the first of a pair
/// in `next`, that byte too: a token of the pair's kind, or else of kind
/// `default`.
pub fn consume_if(
    pos: &mut usize,
    line: usize,
    bytes: &[u8],
    next: &[(u8, TokenKind)],
    default: TokenKind,
) -> (tok: Token)
    requires
        *old(pos) < bytes@.len(),
    ensures
        tok.begin == *old(pos),
        tok.end == *final(pos),
        tok.line == line,
        *final(pos) <= bytes@.len(),
        match pair_after(next@, bytes@, *old(pos) as int) {
            Some(kind) => tok.kind == kind && *final(pos) == *old(pos) + 2,
            None => tok.kind == default && *final(pos) == *old(pos) + 1,
        },
{
    let begin = *pos;
    let len = bytes.len();
    *pos += 1;
    if *pos < len {
        let b = bytes[*pos];
        let mut i: usize = 0;
        while i < next.len()
            invariant
                i <= next@.len(),
                begin == *old(pos),
                len == bytes@.len(),
                *pos == begin + 1,
                *pos < bytes@.len(),
                b == bytes@[*pos as int],
                first_match(next@, b, 0) == first_match(next@, b, i as int),
            decreases next@.len() - i,
        {
            if next[i].0 == b {
                let kind = next[i].1;
                *pos += 1;
                return Token { begin, end: *pos, line, kind };
            }
            i += 1;
        }
    }
    Token { begin, end: *pos, line, kind: default }
}

/// The kind paired with the first occurrence of `b` among the pairs from
/// index `from` on.
pub open spec fn first_match(next: Seq<(u8, TokenKind)>, b: u8, from: int) -> Option<TokenKind>
    decreases next.len() - from,
{
    if from < 0 || from >= next.len() {
        None
    } else if next[from].0 == b {
        Some(next[from].1)
    } else {
        first_match(next, b, from + 1)
    }
}

/// The kind that `next` pairs with the byte after `pos`, if the source
/// reaches that far and a pair answers to the byte.
pub open spec fn pair_after(next: Seq<(u8, TokenKind)>, src: Seq<u8>, pos: int) -> Option<
    TokenKind,
> {
    if 0 <= pos + 1 < src.len() {
        first_match(next, src[pos + 1], 0)
    } else {
        None
    }
}

/// The kind of the word spelled by the bytes from `begin` to `end`.
fn word_kind_of(bytes: &[u8], begin: usize, end: usize) -> (kind: TokenKind)
    requires
        begin <= end <= bytes@.len(),
    ensures
        kind == word_kind(bytes@.subrange(begin as int, end as int)),
{
    let ghost text = bytes@.subrange(begin as int, end as int);
    let n = end - begin;
    if n == 4 && bytes[begin] == 115 && bytes[begin + 1] == 101 && bytes[begin + 2] == 108
        && bytes[begin + 3] == 102 {
        assert(text =~= seq![115u8, 101u8, 108u8, 102u8]);
        return TokenKind::KwSelf;
    }
    if n == 6 && bytes[begin] == 114 && bytes[begin + 1] == 101 && bytes[begin + 2] == 116
        && bytes[begin + 3] == 117 && bytes[begin + 4] == 114 && bytes[begin + 5] == 110 {
        assert(text =~= seq![114u8, 101u8, 116u8, 117u8, 114u8, 110u8]);
        return TokenKind::KwReturn;
    }
    if n == 6 && bytes[begin] == 115 && bytes[begin + 1] == 116 && bytes[begin + 2] == 114
        && bytes[begin + 3] == 117 && bytes[begin + 4] == 99 && bytes[begin + 5] == 116 {
        assert(text =~= seq![115u8, 116u8, 114u8, 117u8, 99u8, 116u8]);
        return TokenKind::KwStruct;
    }
    assert(text != seq![115u8, 101u8, 108u8, 102u8]) by {
        let w = seq![115u8, 101u8, 108u8, 102u8];  // "self"
        if text == w {
            assert(w.len() == 4);
            assert(w[0] == 115u8 && w[1] == 101u8 && w[2] == 108u8 && w[3] == 102u8);
        }
    }
    assert(text != seq![114u8, 101u8, 116u8, 117u8, 114u8, 110u8]) by {
        let w = seq![114u8, 101u8, 116u8, 117u8, 114u8, 110u8];  // "return"
        if text == w {
            assert(w.len() == 6);
            assert(w[0] == 114u8 && w[1] == 101u8 && w[2] == 116u8 && w[3] == 117u8 && w[4]
                == 114u8 && w[5] == 110u8);
        }
    }
    assert(text != seq![115u8, 116u8, 114u8, 117u8, 99u8, 116u8]) by {
        let w = seq![115u8, 116u8, 114u8, 117u8, 99u8, 116u8];  // "struct"
        if text == w {
            assert(w.len() == 6);
            assert(w[0] == 115u8 && w[1] == 116u8 && w[2] == 114u8 && w[3] == 117u8 && w[4]
                == 99u8 && w[5] == 116u8);
        }
    }
    TokenKind::Literal
}

/// Takes the token that starts at `*pos`, which holds neither a space nor a
/// line feed; moves nothing where no token starts.
fn scan_one(pos: &mut usize, line: usize, bytes: &[u8]) -> (res: Option<Token>)
    requires
        *old(pos) < bytes@.len(),
    ensures
        match res {
            Some(tok) => span_scan(bytes@, *old(pos) as int) == Some((tok.kind, tok.end as int))
                && tok.begin == *old(pos) && tok.line == line && *final(pos) == tok.end
                && *old(pos) < tok.end <= bytes@.len(),
            None => span_scan(bytes@, *old(pos) as int) is None && *final(pos) == *old(pos),
        },
{
    let c = bytes[*pos];
    let ghost start = *pos as int;
    proof {
        lemma_span_end(bytes@, start, SpanClass::Digit);
        lemma_span_end(bytes@, start, SpanClass::Word);
        reveal_with_fuel(first_match, 3);
    }
    if 48 <= c && c <= 57 {
        Some(consume_token(pos, line, bytes, SpanClass::Digit, TokenKind::Numeral))
    } else if (65 <= c && c <= 90) || (97 <= c && c <= 122) {
        let mut tok = consume_token(pos, line, bytes, SpanClass::Word, TokenKind::Literal);
        tok.kind = word_kind_of(bytes, tok.begin, tok.end);
        Some(tok)
    } else if c == 58 {  // :
        let pairs = [(58u8, TokenKind::DbColon), (61u8, TokenKind::ColonEq)];
        Some(consume_if(pos, line, bytes, pairs.as_slice(), TokenKind::Colon))
    } else if c == 46 {  // .
        Some(consume_single(pos, line, TokenKind::Dot))
    } else if c == 44 {  // ,
        Some(consume_single(pos, line, TokenKind::Comma))
    } else if c == 59 {  // ;
        Some(consume_single(pos, line, TokenKind::SemiColon))
    } else if c == 61 {  // =
        Some(consume_single(pos, line, TokenKind::Eq))
    } else if c == 43 {  // +
        let pairs = [(61u8, TokenKind::PlusEq)];
        Some(consume_if(pos, line, bytes, pairs.as_slice(), TokenKind::Plus))
    } else if c == 45 {  // -
        let pairs = [(62u8, TokenKind::Arrow)];
        Some(consume_if(pos, line, bytes, pairs.as_slice(), TokenKind::Minus))
    } else if c == 42 {  // *
        Some(consume_single(pos, line, TokenKind::Star))
    } else if c == 47 {  // /
        Some(consume_single(pos, line, TokenKind::Slash))
    } else if c == 123 {  // {
        Some(consume_single(pos, line, TokenKind::LBrace))
    } else if c == 125 {  // }
        Some(consume_single(pos, line, TokenKind::RBrace))
    } else if c == 40 {  // (
        Some(consume_single(pos, line, TokenKind::LParen))
    } else if c == 41 {  // )
        Some(consume_single(pos, line, TokenKind::RParen))
    } else {
        None
    }
}

/// The tokens of `source`, or the first byte that starts no token.
pub fn try_process(source: &str) -> (res: Result<Vec<Token>, ScanError>)
    ensures
        match res {
            Ok(toks) => spans(source.spec_bytes()) == Ok::<Seq<Token>, (int, int)>(toks@),
            Err(e) => spans(source.spec_bytes()) == Err::<Seq<Token>, (int, int)>(
                (e.pos as int, e.line as int),
            ) && e.pos < source.spec_bytes().len() && e.byte == source.spec_bytes()[e.pos as int],
        },
{
    let bytes = source.as_bytes();
    let mut pos: usize = 0;
    let mut line: usize = 0;
    let mut toks: Vec<Token> = Vec::new();
    while pos < bytes.len()
        invariant
            pos <= bytes@.len(),
            line <= pos,
            bytes@ == source.spec_bytes(),
            match spans_from(bytes@, pos as int, line as int) {
                Ok(rest) => spans(bytes@) == Ok::<Seq<Token>, (int, int)>(toks@ + rest),
                Err(e) => spans(bytes@) == Err::<Seq<Token>, (int, int)>(e),
            },
        decreases bytes@.len() - pos,
    {
        let c = bytes[pos];
        if c == 32 {  // space
            pos += 1;
        } else if c == 10 {  // line feed
            pos += 1;
            line += 1;
        } else {
            let ghost before = toks@;
            let at = pos;
            match scan_one(&mut pos, line, bytes) {
                Some(tok) => {
                    toks.push(tok);
                    proof {
                        if let Ok(rest) = spans_from(bytes@, pos as int, line as int) {
                            assert(before + (seq![tok] + rest) =~= before.push(tok) + rest);
                        }
                    }
                },
                None => {
                    return Err(ScanError { pos: at, line, byte: c });
                },
            }
        }
    }
    proof {
        assert(toks@ + Seq::<Token>::empty() =~= toks@);
    }
    Ok(toks)
}

/// The tokens of a source in which every byte belongs to a token or is a
/// space or a line feed.
pub fn process(source: &str) -> (toks: Vec<Token>)
    requires
        spans(source.spec_bytes()) is Ok,
    ensures
        spans(source.spec_bytes()) == Ok::<Seq<Token>, (int, int)>(toks@),
{
    match try_process(source) {
        Ok(toks) => toks,
        Err(_) => Vec::new(),
    }
}

} // verus!
