use vstd::prelude::*;

pub mod lexer;
pub mod parser;

verus! {

/// The kinds of tokens of the declaration level.
#[derive(Debug, PartialEq, Eq, Copy, Clone, Structural)]
pub enum TokenKind {
    Literal,
    Numeral,
    LParen,
    RParen,
    LBrace,
    RBrace,
    LBracket,
    RBracket,
    Colon,
    ColonEq,
    SemiColon,
    DbColon,
    Comma,
    Arrow,
    Dot,
    Star,
    Plus,
    Minus,
    Slash,
    Eq,
    MinusEq,
    PlusEq,
    KwSelf,
    KwStruct,
    KwReturn,
    EOF,
    Unknown,
}

/// A token as a span of the source: the bytes from `begin` up to `end`, on
/// line `line`, counted from 0.
#[derive(Debug, PartialEq, Eq, Copy, Clone, Structural)]
pub struct Token {
    pub begin: usize,
    pub end: usize,
    pub line: usize,
    pub kind: TokenKind,
}

/// A structure declaration, known by the token of its name.
#[derive(Debug, PartialEq, Eq)]
pub struct MStruct<'a> {
    pub ident: &'a Token,
}

/// A statement of the declaration level.
#[derive(Debug, PartialEq, Eq)]
pub enum Stmt<'a> {
    Struct(MStruct<'a>),
    Declare,
    Function,
}

/// The kinds of expressions of the declaration level.
#[derive(Debug, PartialEq, Eq, Copy, Clone, Structural)]
pub enum Expr {
    Bin,
    Una,
    Call,
    Assign,
    Declare,
    Numeral,
    Literal,
}

/// How a declaration names its type.
#[derive(Debug, PartialEq, Eq, Copy, Clone, Structural)]
pub enum TypeExpr {
    Infer,
    Array,
    Ident(Token),
}

} // verus!
