use vstd::prelude::*;
use crate::compiler::{Compiler, Program};
use crate::emit::printable_text;
use crate::labels::closed;
use crate::ast::{block_view, Block, StmtView};
use crate::grammar::{parse_tokens, SyntaxError};
use crate::lexer::{
    lemma_starts_within, lex, line_of, places, token_pos, LexError, Tokenizer,
};
use crate::lower::{fail, lower_block, CompileError, ErrorKind, GenState};
use crate::parser::parse_all;

verus! {

/// Why the front end refused a source text, and where.
#[derive(Debug, Clone, Copy, PartialEq, Eq, Structural)]
pub enum Diagnostic {
    /// A byte starts no token.
    Lexical(LexError),
    /// The tokens spell no program: what was expected and at which token, the
    /// place where that token starts, which is the end of the source where
    /// the input ended too early, and the line of that place, counted from 0.
    Syntax { error: SyntaxError, pos: usize, line: usize },
}

/// What the front end makes of a source text: the statements that its tokens
/// spell, or the first refusal with its place.
pub open spec fn front_spec(src: Seq<u8>) -> Result<Seq<StmtView>, Diagnostic> {
    match lex(src) {
        Err(p) => Err(
            Diagnostic::Lexical(
                LexError { pos: p as usize, line: line_of(src, p) as usize, byte: src[p] },
            ),
        ),
        Ok(toks) => match parse_tokens(toks) {
            Ok(stmts) => Ok(stmts),
            Err(error) => Err(
                Diagnostic::Syntax {
                    error,
                    pos: token_pos(src, error.at as int) as usize,
                    line: line_of(src, token_pos(src, error.at as int)) as usize,
                },
            ),
        },
    }
}

/// Tokenizes and parses a source text. A refusal says what is wrong and
/// where: the offending byte and its line, or the expected token, the place
/// of the token found instead, and its line.
pub fn parse_source<'p>(source: &'p [u8]) -> (res: Result<Block<'p>, Diagnostic>)
    ensures
        match res {
            Ok(b) => front_spec(source@) == Ok::<Seq<StmtView>, Diagnostic>(block_view(b@)),
            Err(d) => front_spec(source@) == Err::<Seq<StmtView>, Diagnostic>(d),
        },
{
    let (tokens, starts) = match Tokenizer::scan_source(source) {
        Ok(parts) => parts,
        Err(e) => {
            return Err(Diagnostic::Lexical(e));
        },
    };
    match parse_all(tokens.as_slice()) {
        Ok(b) => Ok(b),
        Err(error) => {
            proof {
                lemma_starts_within(source@, 0);
            }
            let pos = if error.at < starts.len() {
                assert(places(starts@)[error.at as int] == starts@[error.at as int]);
                starts[error.at]
            } else {
                source.len()
            };
            let line = Tokenizer::line_number(source, pos);
            Err(Diagnostic::Syntax { error, pos, line })
        },
    }
}

/// What a source text compiles to: the state after lowering the statements
/// that its tokens spell, from the initial state. A byte that starts no token
/// is a `Lexical` refusal; tokens that spell no program, a `Syntax` one.
pub open spec fn compile_spec(src: Seq<u8>) -> Result<GenState, CompileError> {
    match lex(src) {
        Err(_) => fail(ErrorKind::Lexical),
        Ok(toks) => match parse_tokens(toks) {
            Err(_) => fail(ErrorKind::Syntax),
            Ok(stmts) => lower_block(GenState::initial(), stmts, 0),
        },
    }
}

/// Compiles a source text: tokenizes, parses, and generates code, each stage
/// run to its end before the next starts. Gives the finished instruction list
/// with the stack space it reserves, or the first refusal.
pub fn compile_source(source: &[u8]) -> (res: Result<Program, CompileError>)
    ensures
        match res {
            Ok(p) => compile_spec(source@) matches Ok(st) && p.text@ == st.text && p.stack_size
                == st.rsp && p.labels == st.lbl && printable_text(p.text@) && closed(st),
            Err(e) => compile_spec(source@) == Err::<GenState, CompileError>(e),
        },
{
    let tokens = match Tokenizer::try_tokenize(source) {
        Ok(t) => t,
        Err(_) => {
            return Err(CompileError::new(ErrorKind::Lexical));
        },
    };
    let block = match parse_all(tokens.as_slice()) {
        Ok(b) => b,
        Err(_) => {
            return Err(CompileError::new(ErrorKind::Syntax));
        },
    };
    Compiler::compile(block)
}

} // verus!
