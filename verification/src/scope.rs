use vstd::prelude::*;
use crate::ast::{ExprView, StmtView};
use crate::balance::{
    block_declares, expr_declares, lemma_block_stack_balance, lemma_cond_stack_balance,
    lemma_expr_stack_balance, lemma_stmt_stack_balance, stmt_declares,
};
use crate::lower::{
    is_arithmetic, lookup_in, lower_arith, lower_assign, lower_block, lower_comparison,
    lower_cond, lower_either, lower_expr, lower_if, lower_index, lower_stmt, lower_unop,
    lower_while, GenState, Mode, LITERAL_MAX,
};
use crate::register::Operand;
use crate::text::bounded_literal;

verus! {

/// Whether `e` holds, outside the arguments of calls, a name that `locals`
/// does not declare, or a number literal that is no run of digits within the
/// range of a signed word.
pub open spec fn expr_doomed(e: ExprView, locals: Seq<(Seq<char>, int)>) -> bool
    decreases e,
{
    match e {
        ExprView::Number(s) => bounded_literal(s, LITERAL_MAX as int) is None,
        ExprView::Ident(name) => lookup_in(locals, name) is None,
        ExprView::Index(base, index) => expr_doomed(*base, locals) || expr_doomed(*index, locals),
        ExprView::If(cond, on_true, on_false) => expr_doomed(*cond, locals) || block_doomed(
            on_true,
            locals,
        ) || match on_false {
            Some(b) => block_doomed(b, locals),
            None => false,
        },
        ExprView::While(cond, body) => expr_doomed(*cond, locals) || block_doomed(body, locals),
        ExprView::SubExpr(inner) => expr_doomed(*inner, locals),
        ExprView::UnOp(_, child) => expr_doomed(*child, locals),
        ExprView::BiOp(_, a, b) => expr_doomed(*a, locals) || expr_doomed(*b, locals),
        ExprView::Call(_, _) => false,
    }
}

/// Whether the expression statement `s` is doomed.
pub open spec fn stmt_doomed(s: StmtView, locals: Seq<(Seq<char>, int)>) -> bool
    decreases s,
{
    match s {
        StmtView::Local(_) => false,
        StmtView::Expr(e) => expr_doomed(e, locals),
    }
}

/// Whether one of the statements of `b` is doomed.
pub open spec fn block_doomed(b: Seq<StmtView>, locals: Seq<(Seq<char>, int)>) -> bool
    decreases b,
{
    exists|i: int| 0 <= i < b.len() && stmt_doomed(#[trigger] b[i], locals)
}

proof fn lemma_expr(st: GenState, e: ExprView, mode: Mode)
    requires
        expr_doomed(e, st.locals),
        !expr_declares(e),
    ensures
        lower_expr(st, e, mode) is Err,
    decreases e, 1nat,
{
    match e {
        ExprView::Number(_) => {},
        ExprView::Ident(_) => {},
        ExprView::Index(_, _) => lemma_index(st, e, mode),
        ExprView::UnOp(_, _) => lemma_unop(st, e, mode),
        ExprView::BiOp(kind, _, _) => {
            if kind is Assign {
                lemma_assign(st, e);
            } else if is_arithmetic(kind) {
                lemma_arith(st, e);
            }
        },
        ExprView::SubExpr(inner) => lemma_expr(st, *inner, mode),
        ExprView::If(_, _, _) => lemma_if(st, e),
        ExprView::While(_, _) => lemma_while(st, e),
        ExprView::Call(_, _) => {},
    }
}

proof fn lemma_index(st: GenState, e: ExprView, mode: Mode)
    requires
        e is Index,
        expr_doomed(e, st.locals),
        !expr_declares(e),
    ensures
        lower_index(st, e, mode) is Err,
    decreases e, 0nat,
{
    reveal_with_fuel(expr_doomed, 2);
    if let ExprView::Index(base, index) = e {
        if expr_doomed(*index, st.locals) {
            lemma_expr(st, *index, Mode::Value);
        } else {
            lemma_expr_stack_balance(st, *index, Mode::Value);
        }
    }
}

proof fn lemma_unop(st: GenState, e: ExprView, mode: Mode)
    requires
        e is UnOp,
        expr_doomed(e, st.locals),
        !expr_declares(e),
    ensures
        lower_unop(st, e, mode) is Err,
    decreases e, 0nat,
{
    if let ExprView::UnOp(_, child) = e {
        lemma_expr(st, *child, Mode::Value);
        lemma_expr(st, *child, Mode::Address);
    }
}

proof fn lemma_assign(st: GenState, e: ExprView)
    requires
        e is BiOp,
        expr_doomed(e, st.locals),
        !expr_declares(e),
    ensures
        lower_assign(st, e) is Err,
    decreases e, 0nat,
{
    if let ExprView::BiOp(_, a, b) = e {
        if expr_doomed(*b, st.locals) {
            lemma_expr(st, *b, Mode::Value);
        } else {
            lemma_expr_stack_balance(st, *b, Mode::Value);
            if let Ok(s1) = lower_expr(st, *b, Mode::Value) {
                if let Ok(s2) = s1.push(Operand::spec_rax()) {
                    lemma_expr(s2, *a, Mode::Address);
                }
            }
        }
    }
}

proof fn lemma_arith(st: GenState, e: ExprView)
    requires
        e is BiOp,
        expr_doomed(e, st.locals),
        !expr_declares(e),
    ensures
        lower_arith(st, e) is Err,
    decreases e, 0nat,
{
    if let ExprView::BiOp(_, a, b) = e {
        if expr_doomed(*a, st.locals) {
            lemma_expr(st, *a, Mode::Value);
        } else {
            lemma_expr_stack_balance(st, *a, Mode::Value);
            if let Ok(s1) = lower_expr(st, *a, Mode::Value) {
                if let Ok(s2) = s1.push(Operand::spec_rax()) {
                    lemma_expr(s2, *b, Mode::Value);
                }
            }
        }
    }
}

proof fn lemma_comparison(st: GenState, e: ExprView, target: int)
    requires
        e is BiOp,
        expr_doomed(e, st.locals),
        !expr_declares(e),
    ensures
        lower_comparison(st, e, target) is Err,
    decreases e, 0nat,
{
    if let ExprView::BiOp(_, a, b) = e {
        if expr_doomed(*a, st.locals) {
            lemma_expr(st, *a, Mode::Value);
        } else {
            lemma_expr_stack_balance(st, *a, Mode::Value);
            if let Ok(s1) = lower_expr(st, *a, Mode::Value) {
                if let Ok(s2) = s1.push(Operand::spec_rax()) {
                    lemma_expr(s2, *b, Mode::Value);
                }
            }
        }
    }
}

proof fn lemma_cond(st: GenState, e: ExprView, target: int)
    requires
        expr_doomed(e, st.locals),
        !expr_declares(e),
    ensures
        lower_cond(st, e, target) is Err,
    decreases e, 1nat,
{
    match e {
        ExprView::BiOp(kind, a, b) => {
            if kind.is_comparison() {
                lemma_comparison(st, e, target);
            } else if kind is BoAnd {
                if expr_doomed(*a, st.locals) {
                    lemma_cond(st, *a, target);
                } else {
                    lemma_cond_stack_balance(st, *a, target);
                    if let Ok(s1) = lower_cond(st, *a, target) {
                        lemma_cond(s1, *b, target);
                    }
                }
            } else if kind is BoOr {
                lemma_either(st, e, target);
            }
        },
        ExprView::SubExpr(inner) => lemma_cond(st, *inner, target),
        _ => {},
    }
}

proof fn lemma_either(st: GenState, e: ExprView, target: int)
    requires
        e is BiOp,
        expr_doomed(e, st.locals),
        !expr_declares(e),
    ensures
        lower_either(st, e, target) is Err,
    decreases e, 0nat,
{
    if let ExprView::BiOp(_, a, b) = e {
        if let Ok(s1) = st.fresh(2) {
            if expr_doomed(*a, st.locals) {
                lemma_cond(s1, *a, st.lbl);
            } else {
                lemma_cond_stack_balance(s1, *a, st.lbl);
                if let Ok(s2) = lower_cond(s1, *a, st.lbl) {
                    let s3 = s2.emit(
                        crate::opcode::OpKind::Jmp(
                            crate::opcode::JmpKind::Jmp,
                            (st.lbl + 1) as u64,
                        ),
                    ).emit(crate::opcode::OpKind::Lbl(st.lbl as u64));
                    lemma_cond(s3, *b, target);
                }
            }
        }
    }
}

proof fn lemma_if(st: GenState, e: ExprView)
    requires
        e is If,
        expr_doomed(e, st.locals),
        !expr_declares(e),
    ensures
        lower_if(st, e) is Err,
    decreases e, 0nat,
{
    match e {
        ExprView::If(cond, on_true, None) => {
            if let Ok(s1) = st.fresh(1) {
                if expr_doomed(*cond, st.locals) {
                    lemma_cond(s1, *cond, st.lbl);
                } else {
                    lemma_cond_stack_balance(s1, *cond, st.lbl);
                    if let Ok(s2) = lower_cond(s1, *cond, st.lbl) {
                        lemma_block(s2, on_true, 0);
                    }
                }
            }
        },
        ExprView::If(cond, on_true, Some(on_false)) => {
            if let Ok(s1) = st.fresh(2) {
                if expr_doomed(*cond, st.locals) {
                    lemma_cond(s1, *cond, st.lbl);
                } else {
                    lemma_cond_stack_balance(s1, *cond, st.lbl);
                    if let Ok(s2) = lower_cond(s1, *cond, st.lbl) {
                        if block_doomed(on_true, st.locals) {
                            lemma_block(s2, on_true, 0);
                        } else {
                            lemma_block_stack_balance(s2, on_true);
                            if let Ok(s3) = lower_block(s2, on_true, 0) {
                                let s4 = s3.emit(
                                    crate::opcode::OpKind::Jmp(
                                        crate::opcode::JmpKind::Jmp,
                                        (st.lbl + 1) as u64,
                                    ),
                                ).emit(crate::opcode::OpKind::Lbl(st.lbl as u64));
                                lemma_block(s4, on_false, 0);
                            }
                        }
                    }
                }
            }
        },
        _ => {},
    }
}

proof fn lemma_while(st: GenState, e: ExprView)
    requires
        e is While,
        expr_doomed(e, st.locals),
        !expr_declares(e),
    ensures
        lower_while(st, e) is Err,
    decreases e, 0nat,
{
    if let ExprView::While(cond, body) = e {
        if let Ok(s1) = st.fresh(2) {
            let s2 = s1.emit(crate::opcode::OpKind::Lbl(st.lbl as u64));
            if expr_doomed(*cond, st.locals) {
                lemma_cond(s2, *cond, st.lbl + 1);
            } else {
                lemma_cond_stack_balance(s2, *cond, st.lbl + 1);
                if let Ok(s3) = lower_cond(s2, *cond, st.lbl + 1) {
                    lemma_block(s3, body, 0);
                }
            }
        }
    }
}

proof fn lemma_stmt(st: GenState, s: StmtView)
    requires
        stmt_doomed(s, st.locals),
        !stmt_declares(s),
    ensures
        lower_stmt(st, s) is Err,
    decreases s, 0nat,
{
    match s {
        StmtView::Local(_) => {},
        StmtView::Expr(e) => lemma_expr(st, e, Mode::Value),
    }
}

/// A block without declarations: the statement at `at` is doomed, and the
/// lowering has reached `from`, not beyond it.
proof fn lemma_block_at(st: GenState, b: Seq<StmtView>, from: int, at: int)
    requires
        0 <= from <= at < b.len(),
        stmt_doomed(b[at], st.locals),
        !block_declares(b),
    ensures
        lower_block(st, b, from) is Err,
    decreases b, b.len() - from,
{
    assert(!stmt_declares(b[from]));
    if from == at {
        lemma_stmt(st, b[from]);
    } else {
        lemma_stmt_stack_balance(st, b[from]);
        if let Ok(next) = lower_stmt(st, b[from]) {
            lemma_block_at(next, b, from + 1, at);
        }
    }
}

proof fn lemma_block(st: GenState, b: Seq<StmtView>, from: int)
    requires
        from == 0,
        block_doomed(b, st.locals),
        !block_declares(b),
    ensures
        lower_block(st, b, from) is Err,
    decreases b, b.len() + 1,
{
    let at = choose|i: int| 0 <= i < b.len() && stmt_doomed(#[trigger] b[i], st.locals);
    lemma_block_at(st, b, 0, at);
}

/// No silent zero for an unknown name, no wrapped value for an oversized
/// number: an expression that declares nothing and holds, anywhere outside
/// the arguments of a call, a name that was never declared or a number
/// literal beyond the range of a signed word does not compile, whatever else
/// it holds and whether its value or its address is asked for.
pub proof fn lemma_doomed_expression_never_compiles(st: GenState, e: ExprView, mode: Mode)
    requires
        expr_doomed(e, st.locals),
        !expr_declares(e),
    ensures
        lower_expr(st, e, mode) is Err,
{
    lemma_expr(st, e, mode);
}

/// The same of an expression statement.
pub proof fn lemma_doomed_statement_never_compiles(st: GenState, s: StmtView)
    requires
        stmt_doomed(s, st.locals),
        !stmt_declares(s),
    ensures
        lower_stmt(st, s) is Err,
{
    lemma_stmt(st, s);
}

} // verus!
