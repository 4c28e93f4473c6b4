use vstd::prelude::*;
use crate::ast::{ExprView, StmtView};
use crate::grammar::{
    paren_at, parse_args_spec, parse_block_spec, parse_braces_spec, parse_expr_spec,
    parse_if_spec, parse_init_spec, parse_leading_spec, parse_named_var_spec,
    parse_shape_spec, parse_stmt_spec, parse_tail_spec, parse_var_spec, parse_while_spec,
    parse_program_spec, parse_tokens, tok_at, within, SyntaxError,
};
use crate::token::Lexeme;

verus! {

/// A parse that ends after `lo` and within `hi`, or is refused at a token
/// from `lo` on, at most at `hi`, where the input ends.
pub open spec fn ends_in<T>(r: Result<(T, int), SyntaxError>, lo: int, hi: int) -> bool {
    match r {
        Ok((_, p)) => lo < p <= hi,
        Err(e) => lo <= e.at <= hi,
    }
}

/// The same of a parse that may consume nothing.
pub open spec fn ends_from<T>(r: Result<(T, int), SyntaxError>, lo: int, hi: int) -> bool {
    match r {
        Ok((_, p)) => lo <= p <= hi,
        Err(e) => lo <= e.at <= hi,
    }
}

proof fn lemma_leading(toks: Seq<Lexeme>, pos: int)
    requires
        0 <= pos <= toks.len() <= usize::MAX,
    ensures
        ends_in(parse_leading_spec(toks, pos), pos, toks.len() as int),
    decreases toks.len() - pos, 0nat,
{
    match tok_at(toks, pos) {
        None => {},
        Some(t) => match t {
            Lexeme::Ident(_) => {},
            Lexeme::Number(_) => {},
            Lexeme::KwIf => lemma_if(toks, pos + 1),
            Lexeme::KwWhile => lemma_while(toks, pos + 1),
            Lexeme::Paren(_) => lemma_expr(toks, pos + 1, 0),
            _ => lemma_leading(toks, pos + 1),
        },
    }
}

proof fn lemma_expr(toks: Seq<Lexeme>, pos: int, prec: int)
    requires
        0 <= pos <= toks.len() <= usize::MAX,
    ensures
        ends_in(parse_expr_spec(toks, pos, prec), pos, toks.len() as int),
    decreases toks.len() - pos, 2nat,
{
    lemma_leading(toks, pos);
    match within(parse_leading_spec(toks, pos), pos, toks.len() as int) {
        Ok((lhs, p)) => lemma_tail(toks, p, lhs, prec),
        Err(_) => {},
    }
}

proof fn lemma_tail(toks: Seq<Lexeme>, pos: int, lhs: ExprView, prec: int)
    requires
        0 <= pos <= toks.len() <= usize::MAX,
    ensures
        ends_from(parse_tail_spec(toks, pos, lhs, prec), pos, toks.len() as int),
    decreases toks.len() - pos, 1nat,
{
    match tok_at(toks, pos) {
        None => {},
        Some(t) => {
            if t.biop() is Some && t.biop()->Some_0.spec_lprec() >= prec {
                let kind = t.biop()->Some_0;
                lemma_expr(toks, pos + 1, kind.spec_rprec());
                match within(
                    parse_expr_spec(toks, pos + 1, kind.spec_rprec()),
                    pos,
                    toks.len() as int,
                ) {
                    Ok((rhs, p)) => lemma_tail(
                        toks,
                        p,
                        ExprView::BiOp(kind, Box::new(lhs), Box::new(rhs)),
                        prec,
                    ),
                    Err(_) => {},
                }
            } else if t == Lexeme::Paren('[') {
                lemma_expr(toks, pos + 1, 0);
                match within(parse_expr_spec(toks, pos + 1, 0), pos, toks.len() as int) {
                    Ok((index, p)) => if paren_at(toks, p, ']') {
                        lemma_tail(
                            toks,
                            p + 1,
                            ExprView::Index(Box::new(lhs), Box::new(index)),
                            prec,
                        );
                    },
                    Err(_) => {},
                }
            } else if t == Lexeme::Paren('(') {
                lemma_args(toks, pos + 1, Seq::empty());
                match within(parse_args_spec(toks, pos + 1, Seq::empty()), pos, toks.len() as int) {
                    Ok((args, p)) => lemma_tail(
                        toks,
                        p,
                        ExprView::Call(Box::new(lhs), args),
                        prec,
                    ),
                    Err(_) => {},
                }
            }
        },
    }
}

proof fn lemma_args(toks: Seq<Lexeme>, pos: int, acc: Seq<ExprView>)
    requires
        0 <= pos <= toks.len() <= usize::MAX,
    ensures
        ends_in(parse_args_spec(toks, pos, acc), pos, toks.len() as int),
    decreases toks.len() - pos, 3nat,
{
    match tok_at(toks, pos) {
        None => {},
        Some(t) => {
            if t is Semicolon || t is Comma {
                lemma_args(toks, pos + 1, acc);
            } else if t == Lexeme::Paren(')') {
            } else {
                lemma_expr(toks, pos, 0);
                match within(parse_expr_spec(toks, pos, 0), pos, toks.len() as int) {
                    Ok((arg, p)) => lemma_args(toks, p, acc.push(arg)),
                    Err(_) => {},
                }
            }
        },
    }
}

proof fn lemma_braces(toks: Seq<Lexeme>, pos: int)
    requires
        0 <= pos <= toks.len() <= usize::MAX,
    ensures
        ends_in(parse_braces_spec(toks, pos), pos, toks.len() as int),
    decreases toks.len() - pos, 7nat,
{
    if paren_at(toks, pos, '{') {
        lemma_block(toks, pos + 1, Seq::empty());
    }
}

proof fn lemma_if(toks: Seq<Lexeme>, pos: int)
    requires
        0 <= pos <= toks.len() <= usize::MAX,
    ensures
        ends_in(parse_if_spec(toks, pos), pos, toks.len() as int),
    decreases toks.len() - pos, 8nat,
{
    lemma_expr(toks, pos, 0);
    match within(parse_expr_spec(toks, pos, 0), pos, toks.len() as int) {
        Ok((cond, p)) => {
            lemma_braces(toks, p);
            match within(parse_braces_spec(toks, p), p, toks.len() as int) {
                Ok((on_true, q)) => {
                    if q < toks.len() {
                        lemma_braces(toks, q + 1);
                    }
                },
                Err(_) => {},
            }
        },
        Err(_) => {},
    }
}

proof fn lemma_while(toks: Seq<Lexeme>, pos: int)
    requires
        0 <= pos <= toks.len() <= usize::MAX,
    ensures
        ends_in(parse_while_spec(toks, pos), pos, toks.len() as int),
    decreases toks.len() - pos, 8nat,
{
    lemma_expr(toks, pos, 0);
    match within(parse_expr_spec(toks, pos, 0), pos, toks.len() as int) {
        Ok((cond, p)) => lemma_braces(toks, p),
        Err(_) => {},
    }
}

proof fn lemma_init(toks: Seq<Lexeme>, pos: int)
    requires
        0 <= pos <= toks.len() <= usize::MAX,
    ensures
        ends_from(parse_init_spec(toks, pos), pos, toks.len() as int),
    decreases toks.len() - pos, 3nat,
{
    if tok_at(toks, pos) == Some(Lexeme::Assign) {
        lemma_expr(toks, pos + 1, 0);
    }
}

proof fn lemma_shape(toks: Seq<Lexeme>, pos: int)
    requires
        0 <= pos <= toks.len() <= usize::MAX,
    ensures
        ends_from(parse_shape_spec(toks, pos), pos, toks.len() as int),
{
}

proof fn lemma_var(toks: Seq<Lexeme>, pos: int)
    requires
        0 <= pos <= toks.len() <= usize::MAX,
    ensures
        ends_in(parse_var_spec(toks, pos), pos, toks.len() as int),
    decreases toks.len() - pos, 4nat,
{
    if pos < toks.len() {
        lemma_shape(toks, pos + 1);
        match parse_shape_spec(toks, pos + 1) {
            Ok((size, p)) => {
                if p < toks.len() {
                    lemma_init(toks, p + 1);
                }
            },
            Err(_) => {},
        }
    }
}

proof fn lemma_named_var(toks: Seq<Lexeme>, pos: int)
    requires
        0 <= pos <= toks.len() <= usize::MAX,
    ensures
        ends_in(parse_named_var_spec(toks, pos), pos, toks.len() as int),
    decreases toks.len() - pos, 4nat,
{
    if pos + 2 < toks.len() {
        lemma_shape(toks, pos + 3);
        match parse_shape_spec(toks, pos + 3) {
            Ok((size, p)) => lemma_init(toks, p),
            Err(_) => {},
        }
    }
}

proof fn lemma_stmt(toks: Seq<Lexeme>, pos: int)
    requires
        0 <= pos <= toks.len() <= usize::MAX,
    ensures
        ends_in(parse_stmt_spec(toks, pos), pos, toks.len() as int),
    decreases toks.len() - pos, 5nat,
{
    lemma_var(toks, pos);
    lemma_named_var(toks, pos);
    lemma_expr(toks, pos, 0);
}

proof fn lemma_block(toks: Seq<Lexeme>, pos: int, acc: Seq<StmtView>)
    requires
        0 <= pos <= toks.len() <= usize::MAX,
    ensures
        ends_in(parse_block_spec(toks, pos, acc), pos, toks.len() as int),
    decreases toks.len() - pos, 6nat,
{
    match tok_at(toks, pos) {
        None => {},
        Some(t) => {
            if t is Semicolon {
                lemma_block(toks, pos + 1, acc);
            } else if t == Lexeme::Paren('}') {
            } else {
                lemma_stmt(toks, pos);
                match within(parse_stmt_spec(toks, pos), pos, toks.len() as int) {
                    Ok((stmt, p)) => lemma_block(toks, p, acc.push(stmt)),
                    Err(_) => {},
                }
            }
        },
    }
}

proof fn lemma_program(toks: Seq<Lexeme>, pos: int, acc: Seq<StmtView>)
    requires
        0 <= pos <= toks.len() <= usize::MAX,
    ensures
        parse_program_spec(toks, pos, acc) matches Err(e) ==> pos <= e.at <= toks.len(),
    decreases toks.len() - pos,
{
    match tok_at(toks, pos) {
        None => {},
        Some(t) => {
            if t is Semicolon {
                lemma_program(toks, pos + 1, acc);
            } else {
                lemma_stmt(toks, pos);
                match within(parse_stmt_spec(toks, pos), pos, toks.len() as int) {
                    Ok((stmt, p)) => lemma_program(toks, p, acc.push(stmt)),
                    Err(_) => {},
                }
            }
        },
    }
}

/// Every expression consumes at least one token and none beyond the end:
/// the parser never stands still and never reads past its input. A refusal
/// names a token from the start of the expression on, or the end of the
/// input.
pub proof fn lemma_expression_advances(toks: Seq<Lexeme>, pos: int, prec: int)
    requires
        0 <= pos <= toks.len() <= usize::MAX,
    ensures
        ends_in(parse_expr_spec(toks, pos, prec), pos, toks.len() as int),
        ends_in(parse_leading_spec(toks, pos), pos, toks.len() as int),
{
    lemma_expr(toks, pos, prec);
    lemma_leading(toks, pos);
}

/// Every statement and every block in braces consumes at least one token and
/// none beyond the end; a refusal names a token from its start on, or the end
/// of the input.
pub proof fn lemma_statement_advances(toks: Seq<Lexeme>, pos: int, acc: Seq<StmtView>)
    requires
        0 <= pos <= toks.len() <= usize::MAX,
    ensures
        ends_in(parse_stmt_spec(toks, pos), pos, toks.len() as int),
        ends_in(parse_block_spec(toks, pos, acc), pos, toks.len() as int),
{
    lemma_stmt(toks, pos);
    lemma_block(toks, pos, acc);
}

/// A syntax error of a whole program names one of its tokens, or the end of
/// the input.
pub proof fn lemma_syntax_error_is_within(toks: Seq<Lexeme>)
    requires
        toks.len() <= usize::MAX,
    ensures
        parse_tokens(toks) matches Err(e) ==> e.at <= toks.len(),
{
    lemma_program(toks, 0, Seq::empty());
}

/// Whether `t` is an operand that stands alone: a name or a number.
pub open spec fn is_atom(t: Lexeme) -> bool {
    t is Ident || t is Number
}

/// The tree of an atom.
pub open spec fn atom(t: Lexeme) -> ExprView {
    match t {
        Lexeme::Ident(s) => ExprView::Ident(s),
        Lexeme::Number(s) => ExprView::Number(s),
        _ => ExprView::Number(Seq::empty()),
    }
}

/// Precedence and associativity, for two operators between three operands:
/// `a op1 b op2 c` groups to the right, as `a op1 (b op2 c)`, exactly when the
/// left binding power of `op2` is at least the right binding power of `op1`,
/// and to the left, as `(a op1 b) op2 c`, otherwise. So multiplication after
/// addition groups to the right, as does assignment after assignment; two
/// equal operators other than assignment group to the left.
pub proof fn lemma_two_operators_group_by_binding_power(toks: Seq<Lexeme>)
    requires
        toks.len() == 5,
        is_atom(toks[0]),
        is_atom(toks[2]),
        is_atom(toks[4]),
        toks[1].biop() is Some,
        toks[3].biop() is Some,
    ensures
        ({
            let op1 = toks[1].biop()->Some_0;
            let op2 = toks[3].biop()->Some_0;
            let a = Box::new(atom(toks[0]));
            let b = Box::new(atom(toks[2]));
            let c = Box::new(atom(toks[4]));
            parse_expr_spec(toks, 0, 0) == Ok::<(ExprView, int), SyntaxError>(
                (
                    if op2.spec_lprec() >= op1.spec_rprec() {
                        ExprView::BiOp(op1, a, Box::new(ExprView::BiOp(op2, b, c)))
                    } else {
                        ExprView::BiOp(op2, Box::new(ExprView::BiOp(op1, a, b)), c)
                    },
                    5int,
                ),
            )
        }),
{
    let op1 = toks[1].biop()->Some_0;
    let op2 = toks[3].biop()->Some_0;
    let a = atom(toks[0]);
    let b = atom(toks[2]);
    let c = atom(toks[4]);
    assert(parse_leading_spec(toks, 0) == Ok::<(ExprView, int), SyntaxError>((a, 1int)));
    assert(parse_leading_spec(toks, 2) == Ok::<(ExprView, int), SyntaxError>((b, 3int)));
    assert(parse_leading_spec(toks, 4) == Ok::<(ExprView, int), SyntaxError>((c, 5int)));
    // the last operand, with whatever is in front of it, ends the expression
    assert forall|lhs: ExprView, prec: int| #[trigger]
        parse_tail_spec(toks, 5, lhs, prec) == Ok::<(ExprView, int), SyntaxError>((lhs, 5int)) by {}
    assert forall|prec: int| #[trigger] parse_expr_spec(toks, 4, prec) == Ok::<(ExprView, int), SyntaxError>((c, 5int)) by {
        assert(parse_tail_spec(toks, 5, c, prec) == Ok::<(ExprView, int), SyntaxError>((c, 5int)));
    }
    let right = ExprView::BiOp(op2, Box::new(b), Box::new(c));
    let left = ExprView::BiOp(op1, Box::new(a), Box::new(b));
    if op2.spec_lprec() >= op1.spec_rprec() {
        assert(parse_expr_spec(toks, 4, op2.spec_rprec()) == Ok::<(ExprView, int), SyntaxError>((c, 5int)));
        assert(parse_tail_spec(toks, 5, right, op1.spec_rprec()) == Ok::<(ExprView, int), SyntaxError>((right, 5int)));
        assert(parse_tail_spec(toks, 3, b, op1.spec_rprec()) == Ok::<(ExprView, int), SyntaxError>((right, 5int)));
        assert(parse_expr_spec(toks, 2, op1.spec_rprec()) == Ok::<(ExprView, int), SyntaxError>((right, 5int)));
        let whole = ExprView::BiOp(op1, Box::new(a), Box::new(right));
        assert(parse_tail_spec(toks, 5, whole, 0) == Ok::<(ExprView, int), SyntaxError>((whole, 5int)));
        assert(parse_tail_spec(toks, 1, a, 0) == Ok::<(ExprView, int), SyntaxError>((whole, 5int)));
    } else {
        assert(parse_tail_spec(toks, 3, b, op1.spec_rprec()) == Ok::<(ExprView, int), SyntaxError>((b, 3int)));
        assert(parse_expr_spec(toks, 2, op1.spec_rprec()) == Ok::<(ExprView, int), SyntaxError>((b, 3int)));
        assert(parse_expr_spec(toks, 4, op2.spec_rprec()) == Ok::<(ExprView, int), SyntaxError>((c, 5int)));
        let whole = ExprView::BiOp(op2, Box::new(left), Box::new(c));
        assert(parse_tail_spec(toks, 5, whole, 0) == Ok::<(ExprView, int), SyntaxError>((whole, 5int)));
        assert(parse_tail_spec(toks, 3, left, 0) == Ok::<(ExprView, int), SyntaxError>((whole, 5int)));
        assert(parse_tail_spec(toks, 1, a, 0) == Ok::<(ExprView, int), SyntaxError>((whole, 5int)));
    }
}

} // verus!
