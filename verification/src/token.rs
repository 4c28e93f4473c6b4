use vstd::prelude::*;
use crate::ast::{BiOpKind, UnOpKind};

verus! {

/// One lexical unit of the expression language. Identifiers and number
/// literals borrow their text from the source buffer.
#[derive(Debug, Copy, Clone, Eq, PartialEq)]
pub enum Token<'t> {
    Ident(&'t str),
    Number(&'t str),
    // binary operators
    Plus,
    Minus,
    Star,
    Slash,
    Eq,
    Ne,
    Lt,
    Le,
    Gt,
    Ge,
    /// `|`
    Or,
    /// `&`
    And,
    /// `||`
    BiOr,
    /// `&&`
    BiAnd,
    // unary operators
    Not,
    // punctuation
    /// One of `(`, `)`, `{`, `}`, `[`, `]`.
    Paren(char),
    Comma,
    Assign,
    Semicolon,
    Colon,
    /// `::`
    DbColon,
    /// `:=`
    ColonEq,
    /// `->`
    Arrow,
    // keywords
    KwIf,
    KwElse,
    KwWhile,
    // type keywords
    I08Type,
    I16Type,
    I32Type,
    I64Type,
}

/// The mathematical content of a [`Token`]: the same variants, with the
/// borrowed text replaced by the sequence of its characters.
pub enum Lexeme {
    Ident(Seq<char>),
    Number(Seq<char>),
    Plus,
    Minus,
    Star,
    Slash,
    Eq,
    Ne,
    Lt,
    Le,
    Gt,
    Ge,
    Or,
    And,
    BiOr,
    BiAnd,
    Not,
    Paren(char),
    Comma,
    Assign,
    Semicolon,
    Colon,
    DbColon,
    ColonEq,
    Arrow,
    KwIf,
    KwElse,
    KwWhile,
    I08Type,
    I16Type,
    I32Type,
    I64Type,
}

impl Lexeme {
    /// The binary operator that this lexeme denotes, if any.
    pub open spec fn biop(self) -> Option<BiOpKind> {
        match self {
            Lexeme::Plus => Some(BiOpKind::Add),
            Lexeme::Minus => Some(BiOpKind::Sub),
            Lexeme::Star => Some(BiOpKind::Mul),
            Lexeme::Slash => Some(BiOpKind::Div),
            Lexeme::Assign => Some(BiOpKind::Assign),
            Lexeme::Or => Some(BiOpKind::BiOr),
            Lexeme::And => Some(BiOpKind::BiAnd),
            Lexeme::BiOr => Some(BiOpKind::BoOr),
            Lexeme::BiAnd => Some(BiOpKind::BoAnd),
            Lexeme::Eq => Some(BiOpKind::CmpEq),
            Lexeme::Ne => Some(BiOpKind::CmpNe),
            Lexeme::Lt => Some(BiOpKind::CmpLt),
            Lexeme::Le => Some(BiOpKind::CmpLe),
            Lexeme::Gt => Some(BiOpKind::CmpGt),
            Lexeme::Ge => Some(BiOpKind::CmpGe),
            _ => None,
        }
    }

    /// The prefix operator that this lexeme denotes, if any.
    pub open spec fn unop(self) -> Option<UnOpKind> {
        match self {
            Lexeme::Not => Some(UnOpKind::Not),
            Lexeme::Minus => Some(UnOpKind::Neg),
            Lexeme::And => Some(UnOpKind::Ref),
            Lexeme::Star => Some(UnOpKind::Deref),
            _ => None,
        }
    }

    /// Whether this lexeme is one of the type keywords.
    pub open spec fn is_type(self) -> bool {
        self is I08Type || self is I16Type || self is I32Type || self is I64Type
    }
}

impl<'t> Token<'t> {
    pub open spec fn view(&self) -> Lexeme {
        match self {
            Token::Ident(s) => Lexeme::Ident(s@),
            Token::Number(s) => Lexeme::Number(s@),
            Token::Plus => Lexeme::Plus,
            Token::Minus => Lexeme::Minus,
            Token::Star => Lexeme::Star,
            Token::Slash => Lexeme::Slash,
            Token::Eq => Lexeme::Eq,
            Token::Ne => Lexeme::Ne,
            Token::Lt => Lexeme::Lt,
            Token::Le => Lexeme::Le,
            Token::Gt => Lexeme::Gt,
            Token::Ge => Lexeme::Ge,
            Token::Or => Lexeme::Or,
            Token::And => Lexeme::And,
            Token::BiOr => Lexeme::BiOr,
            Token::BiAnd => Lexeme::BiAnd,
            Token::Not => Lexeme::Not,
            Token::Paren(c) => Lexeme::Paren(*c),
            Token::Comma => Lexeme::Comma,
            Token::Assign => Lexeme::Assign,
            Token::Semicolon => Lexeme::Semicolon,
            Token::Colon => Lexeme::Colon,
            Token::DbColon => Lexeme::DbColon,
            Token::ColonEq => Lexeme::ColonEq,
            Token::Arrow => Lexeme::Arrow,
            Token::KwIf => Lexeme::KwIf,
            Token::KwElse => Lexeme::KwElse,
            Token::KwWhile => Lexeme::KwWhile,
            Token::I08Type => Lexeme::I08Type,
            Token::I16Type => Lexeme::I16Type,
            Token::I32Type => Lexeme::I32Type,
            Token::I64Type => Lexeme::I64Type,
        }
    }

    /// The binary operator written with this token, if it is one.
    pub fn try_biop(&self) -> (r: Option<BiOpKind>)
        ensures
            r == self@.biop(),
    {
        match self {
            Token::Plus => Some(BiOpKind::Add),
            Token::Minus => Some(BiOpKind::Sub),
            Token::Star => Some(BiOpKind::Mul),
            Token::Slash => Some(BiOpKind::Div),
            Token::Assign => Some(BiOpKind::Assign),
            Token::Or => Some(BiOpKind::BiOr),
            Token::And => Some(BiOpKind::BiAnd),
            Token::BiOr => Some(BiOpKind::BoOr),
            Token::BiAnd => Some(BiOpKind::BoAnd),
            Token::Eq => Some(BiOpKind::CmpEq),
            Token::Ne => Some(BiOpKind::CmpNe),
            Token::Lt => Some(BiOpKind::CmpLt),
            Token::Le => Some(BiOpKind::CmpLe),
            Token::Gt => Some(BiOpKind::CmpGt),
            Token::Ge => Some(BiOpKind::CmpGe),
            _ => None,
        }
    }

    /// The prefix operator written with this token, if it is one.
    pub fn try_unop(&self) -> (r: Option<UnOpKind>)
        ensures
            r == self@.unop(),
    {
        match self {
            Token::Not => Some(UnOpKind::Not),
            Token::Minus => Some(UnOpKind::Neg),
            Token::And => Some(UnOpKind::Ref),
            Token::Star => Some(UnOpKind::Deref),
            _ => None,
        }
    }

    /// The token itself if it is a type keyword.
    pub fn try_type(&self) -> (r: Option<Token<'t>>)
        ensures
            r is Some <==> self@.is_type(),
            r is Some ==> r->0 == *self,
    {
        match self {
            Token::I08Type | Token::I16Type | Token::I32Type | Token::I64Type => Some(*self),
            _ => None,
        }
    }

    /// Whether this token is the bracket `c`.
    pub fn is_paren(&self, c: char) -> (r: bool)
        ensures
            r == (self@ == Lexeme::Paren(c)),
    {
        match self {
            Token::Paren(p) => *p == c,
            _ => false,
        }
    }
}

/// The lexemes of a token sequence, in order.
pub open spec fn lexemes(tokens: Seq<Token>) -> Seq<Lexeme> {
    Seq::new(tokens.len(), |i: int| tokens[i]@)
}

} // verus!
