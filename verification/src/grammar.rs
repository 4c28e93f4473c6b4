use vstd::prelude::*;
use crate::ast::{ExprView, LocalView, StmtView};
use crate::token::Lexeme;

verus! {

/// What the parser was looking for where it gave up.
#[derive(Debug, Clone, Copy, PartialEq, Eq, Structural)]
pub enum Expected {
    /// The start of an expression.
    Expression,
    /// The bracket given.
    Paren(char),
    /// The name of a local.
    Ident,
    /// `:` between the name of a local and its type.
    Colon,
    /// A type keyword.
    Type,
    /// The size of an array.
    Number,
}

/// A syntax error: the index of the offending token, which is the number of
/// tokens where the input ended too early, and what was expected there.
#[derive(Debug, Clone, Copy, PartialEq, Eq, Structural)]
pub struct SyntaxError {
    pub at: usize,
    pub expected: Expected,
}

/// The refusal of the token at `pos`, where `expected` was looked for.
pub open spec fn refuse<T>(pos: int, expected: Expected) -> Result<T, SyntaxError> {
    Err(SyntaxError { at: pos as usize, expected })
}

/// The token at `pos`, if there is one.
pub open spec fn tok_at(toks: Seq<Lexeme>, pos: int) -> Option<Lexeme> {
    if 0 <= pos < toks.len() {
        Some(toks[pos])
    } else {
        None
    }
}

/// Whether the token at `pos` is the bracket `c`.
pub open spec fn paren_at(toks: Seq<Lexeme>, pos: int, c: char) -> bool {
    tok_at(toks, pos) == Some(Lexeme::Paren(c))
}

/// A parse result that ends after `lo` and within `hi`, as every one does;
/// a refusal at `lo` otherwise.
pub open spec fn within<T>(r: Result<(T, int), SyntaxError>, lo: int, hi: int) -> Result<
    (T, int),
    SyntaxError,
> {
    match r {
        Ok((v, p)) => if lo < p <= hi {
            r
        } else {
            refuse(lo, Expected::Expression)
        },
        Err(e) => Err(e),
    }
}

/// A leading expression at `pos`: an identifier, a number, a parenthesised
/// expression, an `if`, a `while`, or a prefix operator in front of another
/// leading expression.
pub open spec fn parse_leading_spec(toks: Seq<Lexeme>, pos: int) -> Result<
    (ExprView, int),
    SyntaxError,
>
    decreases toks.len() - pos, 0nat,
{
    match tok_at(toks, pos) {
        None => refuse(pos, Expected::Expression),
        Some(t) => match t {
            Lexeme::Ident(s) => Ok((ExprView::Ident(s), pos + 1)),
            Lexeme::Number(s) => Ok((ExprView::Number(s), pos + 1)),
            Lexeme::KwIf => parse_if_spec(toks, pos + 1),
            Lexeme::KwWhile => parse_while_spec(toks, pos + 1),
            Lexeme::Paren(c) => if c == '(' {
                match within(parse_expr_spec(toks, pos + 1, 0), pos, toks.len() as int) {
                    Ok((inner, p)) => if paren_at(toks, p, ')') {
                        Ok((ExprView::SubExpr(Box::new(inner)), p + 1))
                    } else {
                        refuse(p, Expected::Paren(')'))
                    },
                    Err(e) => Err(e),
                }
            } else {
                refuse(pos, Expected::Expression)
            },
            _ => match t.unop() {
                Some(kind) => match parse_leading_spec(toks, pos + 1) {
                    Ok((child, p)) => Ok((ExprView::UnOp(kind, Box::new(child)), p)),
                    Err(e) => Err(e),
                },
                None => refuse(pos, Expected::Expression),
            },
        },
    }
}

/// An expression at `pos` whose binary operators all bind at least as
/// strongly as `prec`: a leading expression, then its continuations.
pub open spec fn parse_expr_spec(toks: Seq<Lexeme>, pos: int, prec: int) -> Result<
    (ExprView, int),
    SyntaxError,
>
    decreases toks.len() - pos, 2nat,
{
    match within(parse_leading_spec(toks, pos), pos, toks.len() as int) {
        Ok((lhs, p)) => parse_tail_spec(toks, p, lhs, prec),
        Err(e) => Err(e),
    }
}

/// The continuations of the expression `lhs` that ends at `pos`. A binary
/// operator whose left binding power is at least `prec` takes as its right
/// operand an expression parsed at the operator's right binding power, and
/// the two fold into one node; `[` takes an index up to `]`; `(` takes an
/// argument list up to `)`. The result continues in the same way until
/// nothing applies.
pub open spec fn parse_tail_spec(toks: Seq<Lexeme>, pos: int, lhs: ExprView, prec: int) -> Result<
    (ExprView, int),
    SyntaxError,
>
    decreases toks.len() - pos, 1nat,
{
    match tok_at(toks, pos) {
        None => Ok((lhs, pos)),
        Some(t) => {
            if t.biop() is Some && t.biop()->Some_0.spec_lprec() >= prec {
                let kind = t.biop()->Some_0;
                match within(
                    parse_expr_spec(toks, pos + 1, kind.spec_rprec()),
                    pos,
                    toks.len() as int,
                ) {
                    Ok((rhs, p)) => parse_tail_spec(
                        toks,
                        p,
                        ExprView::BiOp(kind, Box::new(lhs), Box::new(rhs)),
                        prec,
                    ),
                    Err(e) => Err(e),
                }
            } else if t == Lexeme::Paren('[') {
                match within(parse_expr_spec(toks, pos + 1, 0), pos, toks.len() as int) {
                    Ok((index, p)) => if paren_at(toks, p, ']') {
                        parse_tail_spec(
                            toks,
                            p + 1,
                            ExprView::Index(Box::new(lhs), Box::new(index)),
                            prec,
                        )
                    } else {
                        refuse(p, Expected::Paren(']'))
                    },
                    Err(e) => Err(e),
                }
            } else if t == Lexeme::Paren('(') {
                match within(parse_args_spec(toks, pos + 1, Seq::empty()), pos, toks.len() as int) {
                    Ok((args, p)) => parse_tail_spec(
                        toks,
                        p,
                        ExprView::Call(Box::new(lhs), args),
                        prec,
                    ),
                    Err(e) => Err(e),
                }
            } else {
                Ok((lhs, pos))
            }
        },
    }
}

/// The rest of an argument list from `pos` on, after the arguments `acc`:
/// expressions separated by `,` or `;`, up to the closing `)`.
pub open spec fn parse_args_spec(toks: Seq<Lexeme>, pos: int, acc: Seq<ExprView>) -> Result<
    (Seq<ExprView>, int),
    SyntaxError,
>
    decreases toks.len() - pos, 3nat,
{
    match tok_at(toks, pos) {
        None => refuse(pos, Expected::Paren(')')),
        Some(t) => {
            if t is Semicolon || t is Comma {
                parse_args_spec(toks, pos + 1, acc)
            } else if t == Lexeme::Paren(')') {
                Ok((acc, pos + 1))
            } else {
                match within(parse_expr_spec(toks, pos, 0), pos, toks.len() as int) {
                    Ok((arg, p)) => parse_args_spec(toks, p, acc.push(arg)),
                    Err(e) => Err(e),
                }
            }
        },
    }
}

/// A block in braces at `pos`: `{`, statements, `}`.
pub open spec fn parse_braces_spec(toks: Seq<Lexeme>, pos: int) -> Result<
    (Seq<StmtView>, int),
    SyntaxError,
>
    decreases toks.len() - pos, 7nat,
{
    if paren_at(toks, pos, '{') {
        parse_block_spec(toks, pos + 1, Seq::empty())
    } else {
        refuse(pos, Expected::Paren('{'))
    }
}

/// An `if` whose keyword ends at `pos`: a condition, a block in braces, and
/// after `else` a second block in braces.
pub open spec fn parse_if_spec(toks: Seq<Lexeme>, pos: int) -> Result<(ExprView, int), SyntaxError>
    decreases toks.len() - pos, 8nat,
{
    match within(parse_expr_spec(toks, pos, 0), pos, toks.len() as int) {
        Ok((cond, p)) => match within(parse_braces_spec(toks, p), p, toks.len() as int) {
            Ok((on_true, q)) => if tok_at(toks, q) == Some(Lexeme::KwElse) {
                match parse_braces_spec(toks, q + 1) {
                    Ok((on_false, r)) => Ok(
                        (ExprView::If(Box::new(cond), on_true, Some(on_false)), r),
                    ),
                    Err(e) => Err(e),
                }
            } else {
                Ok((ExprView::If(Box::new(cond), on_true, None), q))
            },
            Err(e) => Err(e),
        },
        Err(e) => Err(e),
    }
}

/// A `while` whose keyword ends at `pos`: a condition and a block in braces.
pub open spec fn parse_while_spec(toks: Seq<Lexeme>, pos: int) -> Result<
    (ExprView, int),
    SyntaxError,
>
    decreases toks.len() - pos, 8nat,
{
    match within(parse_expr_spec(toks, pos, 0), pos, toks.len() as int) {
        Ok((cond, p)) => match parse_braces_spec(toks, p) {
            Ok((body, q)) => Ok((ExprView::While(Box::new(cond), body), q)),
            Err(e) => Err(e),
        },
        Err(e) => Err(e),
    }
}

/// The optional `= expression` of a declaration whose name ends at `pos`.
pub open spec fn parse_init_spec(toks: Seq<Lexeme>, pos: int) -> Result<
    (Option<ExprView>, int),
    SyntaxError,
>
    decreases toks.len() - pos, 3nat,
{
    if tok_at(toks, pos) == Some(Lexeme::Assign) {
        match parse_expr_spec(toks, pos + 1, 0) {
            Ok((value, p)) => Ok((Some(value), p)),
            Err(e) => Err(e),
        }
    } else {
        Ok((None, pos))
    }
}

/// What may follow the type of a declaration: `*`, which marks a pointer and
/// leaves no trace in the tree, or `[size]`, or nothing. Gives the size and
/// the position after.
pub open spec fn parse_shape_spec(toks: Seq<Lexeme>, pos: int) -> Result<
    (Option<Seq<char>>, int),
    SyntaxError,
> {
    if tok_at(toks, pos) == Some(Lexeme::Star) {
        Ok((None, pos + 1))
    } else if paren_at(toks, pos, '[') {
        match tok_at(toks, pos + 1) {
            Some(Lexeme::Number(size)) => if paren_at(toks, pos + 2, ']') {
                Ok((Some(size), pos + 3))
            } else {
                refuse(pos + 2, Expected::Paren(']'))
            },
            _ => refuse(pos + 1, Expected::Number),
        }
    } else {
        Ok((None, pos))
    }
}

/// A declaration that starts with its type at `pos`: the type keyword, then
/// `*` or `[size]` or neither, then the name, then optionally `=` and an
/// initialiser.
pub open spec fn parse_var_spec(toks: Seq<Lexeme>, pos: int) -> Result<(LocalView, int), SyntaxError>
    decreases toks.len() - pos, 4nat,
{
    match tok_at(toks, pos) {
        Some(typ) => if typ.is_type() {
            match parse_shape_spec(toks, pos + 1) {
                Ok((size, p)) => match tok_at(toks, p) {
                    Some(Lexeme::Ident(name)) => match parse_init_spec(toks, p + 1) {
                        Ok((value, q)) => Ok((LocalView { name, size, typ: Some(typ), value }, q)),
                        Err(e) => Err(e),
                    },
                    _ => refuse(p, Expected::Ident),
                },
                Err(e) => Err(e),
            }
        } else {
            refuse(pos, Expected::Type)
        },
        None => refuse(pos, Expected::Type),
    }
}

/// A declaration that starts with its name at `pos`: the name, `:`, the type
/// keyword, then `*` or `[size]` or neither, then optionally `=` and an
/// initialiser.
pub open spec fn parse_named_var_spec(toks: Seq<Lexeme>, pos: int) -> Result<
    (LocalView, int),
    SyntaxError,
>
    decreases toks.len() - pos, 4nat,
{
    match tok_at(toks, pos) {
        Some(Lexeme::Ident(name)) => if tok_at(toks, pos + 1) == Some(Lexeme::Colon) {
            match tok_at(toks, pos + 2) {
                Some(typ) => if typ.is_type() {
                    match parse_shape_spec(toks, pos + 3) {
                        Ok((size, p)) => match parse_init_spec(toks, p) {
                            Ok((value, q)) => Ok(
                                (LocalView { name, size, typ: Some(typ), value }, q),
                            ),
                            Err(e) => Err(e),
                        },
                        Err(e) => Err(e),
                    }
                } else {
                    refuse(pos + 2, Expected::Type)
                },
                None => refuse(pos + 2, Expected::Type),
            }
        } else {
            refuse(pos + 1, Expected::Colon)
        },
        _ => refuse(pos, Expected::Ident),
    }
}

/// Whether a declaration of the form `name : type` starts at `pos`.
pub open spec fn named_var_at(toks: Seq<Lexeme>, pos: int) -> bool {
    tok_at(toks, pos) matches Some(Lexeme::Ident(_)) && tok_at(toks, pos + 1) == Some(
        Lexeme::Colon,
    )
}

/// A statement at `pos`: a declaration where a type keyword leads, or a name
/// followed by `:`; an expression otherwise.
pub open spec fn parse_stmt_spec(toks: Seq<Lexeme>, pos: int) -> Result<(StmtView, int), SyntaxError>
    decreases toks.len() - pos, 5nat,
{
    match tok_at(toks, pos) {
        Some(t) => if t.is_type() {
            match parse_var_spec(toks, pos) {
                Ok((local, p)) => Ok((StmtView::Local(local), p)),
                Err(e) => Err(e),
            }
        } else if named_var_at(toks, pos) {
            match parse_named_var_spec(toks, pos) {
                Ok((local, p)) => Ok((StmtView::Local(local), p)),
                Err(e) => Err(e),
            }
        } else {
            match parse_expr_spec(toks, pos, 0) {
                Ok((e, p)) => Ok((StmtView::Expr(e), p)),
                Err(e) => Err(e),
            }
        },
        None => refuse(pos, Expected::Expression),
    }
}

/// The rest of a block in braces from `pos` on, after the statements `acc`:
/// statements, each optionally followed by `;`, up to the closing `}`.
pub open spec fn parse_block_spec(toks: Seq<Lexeme>, pos: int, acc: Seq<StmtView>) -> Result<
    (Seq<StmtView>, int),
    SyntaxError,
>
    decreases toks.len() - pos, 6nat,
{
    match tok_at(toks, pos) {
        None => refuse(pos, Expected::Paren('}')),
        Some(t) => {
            if t is Semicolon {
                parse_block_spec(toks, pos + 1, acc)
            } else if t == Lexeme::Paren('}') {
                Ok((acc, pos + 1))
            } else {
                match within(parse_stmt_spec(toks, pos), pos, toks.len() as int) {
                    Ok((stmt, p)) => parse_block_spec(toks, p, acc.push(stmt)),
                    Err(e) => Err(e),
                }
            }
        },
    }
}

/// The rest of a program from `pos` on, after the statements `acc`:
/// statements, each optionally followed by `;`, up to the end of the tokens.
pub open spec fn parse_program_spec(toks: Seq<Lexeme>, pos: int, acc: Seq<StmtView>) -> Result<
    Seq<StmtView>,
    SyntaxError,
>
    decreases toks.len() - pos, 6nat,
{
    match tok_at(toks, pos) {
        None => Ok(acc),
        Some(t) => {
            if t is Semicolon {
                parse_program_spec(toks, pos + 1, acc)
            } else {
                match within(parse_stmt_spec(toks, pos), pos, toks.len() as int) {
                    Ok((stmt, p)) => parse_program_spec(toks, p, acc.push(stmt)),
                    Err(e) => Err(e),
                }
            }
        },
    }
}

/// The statements of a whole token sequence, or the first syntax error.
pub open spec fn parse_tokens(toks: Seq<Lexeme>) -> Result<Seq<StmtView>, SyntaxError> {
    parse_program_spec(toks, 0, Seq::empty())
}

} // verus!
