use vstd::prelude::*;
use crate::lang::{MStruct, Stmt, Token, TokenKind};

verus! {

/// The kind of the token at `pos`, if there is one.
pub open spec fn kind_at(toks: Seq<Token>, pos: int) -> Option<TokenKind> {
    if 0 <= pos < toks.len() {
        Some(toks[pos].kind)
    } else {
        None
    }
}

/// Where a parameter list that is open at `pos` ends: the first index from
/// `pos` on that holds `)` or the end marker, or the end of the tokens.
pub open spec fn header_end(toks: Seq<Token>, pos: int) -> int
    decreases toks.len() - pos,
{
    if 0 <= pos < toks.len() && toks[pos].kind != TokenKind::EOF && toks[pos].kind
        != TokenKind::RParen {
        header_end(toks, pos + 1)
    } else {
        pos
    }
}

/// Whether a function starts at `pos`: a name, `::`, a parameter list in
/// parentheses, and `{`.
pub open spec fn is_func_spec(toks: Seq<Token>, pos: int) -> bool {
    &&& kind_at(toks, pos) == Some(TokenKind::Literal)
    &&& kind_at(toks, pos + 1) == Some(TokenKind::DbColon)
    &&& kind_at(toks, pos + 2) == Some(TokenKind::LParen)
    &&& kind_at(toks, header_end(toks, pos + 3)) == Some(TokenKind::RParen)
    &&& kind_at(toks, header_end(toks, pos + 3) + 1) == Some(TokenKind::LBrace)
}

/// Whether a structure starts at `pos`: a name, `::`, and `struct`.
pub open spec fn is_struct_spec(toks: Seq<Token>, pos: int) -> bool {
    &&& kind_at(toks, pos) == Some(TokenKind::Literal)
    &&& kind_at(toks, pos + 1) == Some(TokenKind::DbColon)
    &&& kind_at(toks, pos + 2) == Some(TokenKind::KwStruct)
}

/// Whether the structure that starts at `pos` is complete: its body is `{`
/// directly followed by `}`. Members are not part of the language yet.
pub open spec fn struct_closed(toks: Seq<Token>, pos: int) -> bool {
    &&& is_struct_spec(toks, pos)
    &&& kind_at(toks, pos + 3) == Some(TokenKind::LBrace)
    &&& kind_at(toks, pos + 4) == Some(TokenKind::RBrace)
}

/// The statement that starts at `pos` and the position after it. A function
/// is recognised by its head and taken as its name alone; a structure is taken
/// whole.
pub open spec fn stmt_at<'a>(toks: Seq<Token>, pos: int) -> Option<(Stmt<'a>, int)> {
    if is_func_spec(toks, pos) {
        Some((Stmt::Function, pos + 1))
    } else if struct_closed(toks, pos) {
        Some((Stmt::Struct(MStruct { ident: &toks[pos] }), pos + 5))
    } else {
        None
    }
}

/// The statements from `pos` on, after the statements `acc`: up to the end of
/// the tokens or the end marker. Nothing where a token starts no statement.
pub open spec fn stmts_from<'a>(toks: Seq<Token>, pos: int, acc: Seq<Stmt<'a>>) -> Option<
    Seq<Stmt<'a>>,
>
    decreases toks.len() - pos,
{
    match kind_at(toks, pos) {
        None => Some(acc),
        Some(kind) => if kind == TokenKind::EOF {
            Some(acc)
        } else {
            match stmt_at::<'a>(toks, pos) {
                Some((stmt, next)) => stmts_from(toks, next, acc.push(stmt)),
                None => None,
            }
        },
    }
}

/// The statements of a whole token sequence.
pub open spec fn stmts<'a>(toks: Seq<Token>) -> Option<Seq<Stmt<'a>>> {
    stmts_from(toks, 0, Seq::empty())
}

/// The kind of the token `off` places after `pos`, if there is one.
fn kind_of(pos: usize, off: usize, toks: &[Token]) -> (r: Option<TokenKind>)
    ensures
        r == kind_at(toks@, pos + off),
{
    let len = toks.len();
    if pos < len && off < len - pos {
        Some(toks[pos + off].kind)
    } else {
        None
    }
}

/// Whether the token `off` places after `pos` is of kind `kind`.
fn kind_is(pos: usize, off: usize, toks: &[Token], kind: TokenKind) -> (r: bool)
    ensures
        r == (kind_at(toks@, pos + off) == Some(kind)),
{
    match kind_of(pos, off, toks) {
        Some(k) => k == kind,
        None => false,
    }
}

/// Whether a function starts at `pos`.
pub fn is_func(pos: usize, toks: &[Token]) -> (r: bool)
    ensures
        r == is_func_spec(toks@, pos as int),
{
    if !(kind_is(pos, 0, toks, TokenKind::Literal) && kind_is(pos, 1, toks, TokenKind::DbColon)
        && kind_is(pos, 2, toks, TokenKind::LParen)) {
        return false;
    }
    let len = toks.len();
    let mut mov: usize = pos + 3;
    while mov < len && toks[mov].kind != TokenKind::EOF && toks[mov].kind != TokenKind::RParen
        invariant
            pos + 3 <= mov <= len,
            len == toks@.len(),
            header_end(toks@, pos + 3) == header_end(toks@, mov as int),
        decreases len - mov,
    {
        mov += 1;
    }
    kind_is(mov, 0, toks, TokenKind::RParen) && kind_is(mov, 1, toks, TokenKind::LBrace)
}

/// Whether a structure starts at `pos`.
pub fn is_struct(pos: usize, toks: &[Token]) -> (r: bool)
    ensures
        r == is_struct_spec(toks@, pos as int),
{
    kind_is(pos, 0, toks, TokenKind::Literal) && kind_is(pos, 1, toks, TokenKind::DbColon)
        && kind_is(pos, 2, toks, TokenKind::KwStruct)
}

/// Takes the function that starts at `*pos`.
pub fn process_func<'a>(pos: &mut usize, toks: &'a [Token]) -> (stmt: Stmt<'a>)
    requires
        is_func_spec(toks@, *old(pos) as int),
    ensures
        stmt_at::<'a>(toks@, *old(pos) as int) == Some((stmt, *final(pos) as int)),
        *final(pos) == *old(pos) + 1,
{
    let len = toks.len();
    *pos += 1;
    Stmt::Function
}

/// Takes the structure that starts at `*pos`, if it is complete.
pub fn process_struct<'a>(pos: &mut usize, toks: &'a [Token]) -> (res: Option<Stmt<'a>>)
    requires
        is_struct_spec(toks@, *old(pos) as int),
        !is_func_spec(toks@, *old(pos) as int),
    ensures
        match res {
            Some(stmt) => stmt_at::<'a>(toks@, *old(pos) as int) == Some(
                (stmt, *final(pos) as int),
            ) && *final(pos) == *old(pos) + 5,
            None => stmt_at::<'a>(toks@, *old(pos) as int) is None && *final(pos) == *old(pos),
        },
{
    if kind_is(*pos, 3, toks, TokenKind::LBrace) && kind_is(*pos, 4, toks, TokenKind::RBrace) {
        let len = toks.len();
        let s = MStruct { ident: &toks[*pos] };
        *pos += 5;
        Some(Stmt::Struct(s))
    } else {
        None
    }
}

/// Takes the statement that starts at `*pos`, if one does.
pub fn process_stmt<'a>(pos: &mut usize, source: &'a str, toks: &'a [Token]) -> (res: Option<
    Stmt<'a>,
>)
    ensures
        match res {
            Some(stmt) => stmt_at::<'a>(toks@, *old(pos) as int) == Some(
                (stmt, *final(pos) as int),
            ) && *old(pos) < *final(pos) <= toks@.len(),
            None => stmt_at::<'a>(toks@, *old(pos) as int) is None && *final(pos) == *old(pos),
        },
{
    if is_func(*pos, toks) {
        Some(process_func(pos, toks))
    } else if is_struct(*pos, toks) {
        process_struct(pos, toks)
    } else {
        None
    }
}

/// The statements that `toks` spell, or nothing where a token starts no
/// statement.
pub fn try_process<'a>(source: &'a str, toks: &'a [Token]) -> (res: Option<Vec<Stmt<'a>>>)
    ensures
        match res {
            Some(v) => stmts::<'a>(toks@) == Some(v@),
            None => stmts::<'a>(toks@) is None,
        },
{
    let mut pos: usize = 0;
    let mut out: Vec<Stmt<'a>> = Vec::new();
    while pos < toks.len()
        invariant
            pos <= toks@.len(),
            stmts_from(toks@, pos as int, out@) == stmts::<'a>(toks@),
        decreases toks@.len() - pos,
    {
        if toks[pos].kind == TokenKind::EOF {
            return Some(out);
        }
        match process_stmt(&mut pos, source, toks) {
            Some(stmt) => {
                out.push(stmt);
            },
            None => {
                return None;
            },
        }
    }
    Some(out)
}

/// The statements that `toks` spell; no statement at all where a token starts
/// none.
pub fn process<'a>(source: &'a str, toks: &'a [Token]) -> (res: Vec<Stmt<'a>>)
    ensures
        res@ == (match stmts::<'a>(toks@) {
            Some(s) => s,
            None => Seq::empty(),
        }),
{
    match try_process(source, toks) {
        Some(v) => v,
        None => Vec::new(),
    }
}

} // verus!
