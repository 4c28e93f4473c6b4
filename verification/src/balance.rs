use vstd::prelude::*;
use crate::ast::{ExprView, LocalView, StmtView};
use crate::lower::{
    fail, is_arithmetic, lookup_in, lower_arith, lower_assign, lower_block, lower_comparison, lower_cond,
    lower_either, lower_expr, lower_if, lower_index, lower_local, lower_stmt, lower_unop,
    lower_while, CompileError, ErrorKind, GenState, Mode, LITERAL_MAX,
};
use crate::text::{decimal_value, is_literal};

verus! {

/// Whether a declaration stands in one of the blocks nested in `e`.
pub open spec fn expr_declares(e: ExprView) -> bool
    decreases e,
{
    match e {
        ExprView::Number(_) => false,
        ExprView::Ident(_) => false,
        ExprView::Index(base, index) => expr_declares(*base) || expr_declares(*index),
        ExprView::If(cond, on_true, on_false) => expr_declares(*cond) || block_declares(on_true)
            || match on_false {
            Some(b) => block_declares(b),
            None => false,
        },
        ExprView::While(cond, body) => expr_declares(*cond) || block_declares(body),
        ExprView::SubExpr(inner) => expr_declares(*inner),
        ExprView::UnOp(_, child) => expr_declares(*child),
        ExprView::BiOp(_, a, b) => expr_declares(*a) || expr_declares(*b),
        ExprView::Call(_, _) => false,
    }
}

/// Whether `s` is a declaration or holds one in a nested block.
pub open spec fn stmt_declares(s: StmtView) -> bool
    decreases s,
{
    match s {
        StmtView::Local(_) => true,
        StmtView::Expr(e) => expr_declares(e),
    }
}

/// Whether one of the statements of `b` is or holds a declaration.
pub open spec fn block_declares(b: Seq<StmtView>) -> bool
    decreases b,
{
    exists|i: int| 0 <= i < b.len() && stmt_declares(#[trigger] b[i])
}

/// What every lowering step keeps: the counters do not go back, and what was
/// emitted and declared stays, in place.
pub open spec fn grows(a: GenState, b: GenState) -> bool {
    &&& a.rsp <= b.rsp
    &&& a.lbl <= b.lbl
    &&& a.text.len() <= b.text.len()
    &&& forall|i: int|
        #![trigger a.text[i]]
        #![trigger b.text[i]]
        0 <= i < a.text.len() ==> a.text[i] == b.text[i]
    &&& a.locals.len() <= b.locals.len()
    &&& forall|i: int|
        #![trigger a.locals[i]]
        #![trigger b.locals[i]]
        0 <= i < a.locals.len() ==> a.locals[i] == b.locals[i]
}

/// A step that leaves the stack as deep as it found it, and declares nothing.
pub open spec fn balanced(a: GenState, b: GenState) -> bool {
    a.rsp == b.rsp && a.locals == b.locals
}

/// What holds of a successful step over a tree that may or may not declare.
pub open spec fn step_ok(a: GenState, r: Result<GenState, CompileError>, declares: bool) -> bool {
    r matches Ok(b) ==> grows(a, b) && (!declares ==> balanced(a, b))
}

proof fn lemma_expr(st: GenState, e: ExprView, mode: Mode)
    ensures
        step_ok(st, lower_expr(st, e, mode), expr_declares(e)),
    decreases e, 1nat,
{
    match e {
        ExprView::Number(_) => {},
        ExprView::Ident(_) => {},
        ExprView::Index(_, _) => lemma_index(st, e, mode),
        ExprView::UnOp(_, _) => lemma_unop(st, e, mode),
        ExprView::BiOp(kind, _, _) => {
            if kind is Assign {
                lemma_assign(st, e);
            } else if is_arithmetic(kind) {
                lemma_arith(st, e);
            }
        },
        ExprView::SubExpr(inner) => lemma_expr(st, *inner, mode),
        ExprView::If(_, _, _) => lemma_if(st, e),
        ExprView::While(_, _) => lemma_while(st, e),
        ExprView::Call(_, _) => {},
    }
}

proof fn lemma_index(st: GenState, e: ExprView, mode: Mode)
    requires
        e is Index,
    ensures
        step_ok(st, lower_index(st, e, mode), expr_declares(e)),
    decreases e, 0nat,
{
    if let ExprView::Index(base, index) = e {
        lemma_expr(st, *index, Mode::Value);
    }
}

proof fn lemma_unop(st: GenState, e: ExprView, mode: Mode)
    requires
        e is UnOp,
    ensures
        step_ok(st, lower_unop(st, e, mode), expr_declares(e)),
    decreases e, 0nat,
{
    if let ExprView::UnOp(kind, child) = e {
        lemma_expr(st, *child, Mode::Value);
        lemma_expr(st, *child, Mode::Address);
    }
}

proof fn lemma_assign(st: GenState, e: ExprView)
    requires
        e is BiOp,
    ensures
        step_ok(st, lower_assign(st, e), expr_declares(e)),
    decreases e, 0nat,
{
    if let ExprView::BiOp(_, a, b) = e {
        lemma_expr(st, *b, Mode::Value);
        if let Ok(s1) = lower_expr(st, *b, Mode::Value) {
            if let Ok(s2) = s1.push(crate::register::Operand::spec_rax()) {
                lemma_expr(s2, *a, Mode::Address);
            }
        }
    }
}

proof fn lemma_arith(st: GenState, e: ExprView)
    requires
        e matches ExprView::BiOp(kind, _, _) && is_arithmetic(kind),
    ensures
        step_ok(st, lower_arith(st, e), expr_declares(e)),
    decreases e, 0nat,
{
    if let ExprView::BiOp(kind, a, b) = e {
        lemma_expr(st, *a, Mode::Value);
        if let Ok(s1) = lower_expr(st, *a, Mode::Value) {
            if let Ok(s2) = s1.push(crate::register::Operand::spec_rax()) {
                lemma_expr(s2, *b, Mode::Value);
            }
        }
    }
}

proof fn lemma_if(st: GenState, e: ExprView)
    requires
        e is If,
    ensures
        step_ok(st, lower_if(st, e), expr_declares(e)),
    decreases e, 0nat,
{
    match e {
        ExprView::If(cond, on_true, None) => {
            if let Ok(s1) = st.fresh(1) {
                lemma_cond(s1, *cond, st.lbl);
                if let Ok(s2) = lower_cond(s1, *cond, st.lbl) {
                    lemma_block(s2, on_true, 0);
                }
            }
        },
        ExprView::If(cond, on_true, Some(on_false)) => {
            if let Ok(s1) = st.fresh(2) {
                lemma_cond(s1, *cond, st.lbl);
                if let Ok(s2) = lower_cond(s1, *cond, st.lbl) {
                    lemma_block(s2, on_true, 0);
                    if let Ok(s3) = lower_block(s2, on_true, 0) {
                        let s4 = s3.emit(
                            crate::opcode::OpKind::Jmp(
                                crate::opcode::JmpKind::Jmp,
                                (st.lbl + 1) as u64,
                            ),
                        ).emit(crate::opcode::OpKind::Lbl(st.lbl as u64));
                        lemma_block(s4, on_false, 0);
                    }
                }
            }
        },
        _ => {},
    }
}

proof fn lemma_while(st: GenState, e: ExprView)
    requires
        e is While,
    ensures
        step_ok(st, lower_while(st, e), expr_declares(e)),
    decreases e, 0nat,
{
    if let ExprView::While(cond, body) = e {
        if let Ok(s1) = st.fresh(2) {
            let s2 = s1.emit(crate::opcode::OpKind::Lbl(st.lbl as u64));
            lemma_cond(s2, *cond, st.lbl + 1);
            if let Ok(s3) = lower_cond(s2, *cond, st.lbl + 1) {
                lemma_block(s3, body, 0);
            }
        }
    }
}

proof fn lemma_cond(st: GenState, e: ExprView, target: int)
    ensures
        step_ok(st, lower_cond(st, e, target), expr_declares(e)),
    decreases e, 1nat,
{
    match e {
        ExprView::BiOp(kind, a, b) => {
            if kind.is_comparison() {
                lemma_comparison(st, e, target);
            } else if kind is BoAnd {
                lemma_cond(st, *a, target);
                if let Ok(s1) = lower_cond(st, *a, target) {
                    lemma_cond(s1, *b, target);
                }
            } else if kind is BoOr {
                lemma_either(st, e, target);
            }
        },
        ExprView::SubExpr(inner) => lemma_cond(st, *inner, target),
        _ => {},
    }
}

proof fn lemma_comparison(st: GenState, e: ExprView, target: int)
    requires
        e is BiOp,
    ensures
        step_ok(st, lower_comparison(st, e, target), expr_declares(e)),
    decreases e, 0nat,
{
    if let ExprView::BiOp(kind, a, b) = e {
        lemma_expr(st, *a, Mode::Value);
        if let Ok(s1) = lower_expr(st, *a, Mode::Value) {
            if let Ok(s2) = s1.push(crate::register::Operand::spec_rax()) {
                lemma_expr(s2, *b, Mode::Value);
            }
        }
    }
}

proof fn lemma_either(st: GenState, e: ExprView, target: int)
    requires
        e is BiOp,
    ensures
        step_ok(st, lower_either(st, e, target), expr_declares(e)),
    decreases e, 0nat,
{
    if let ExprView::BiOp(_, a, b) = e {
        if let Ok(s1) = st.fresh(2) {
            lemma_cond(s1, *a, st.lbl);
            if let Ok(s2) = lower_cond(s1, *a, st.lbl) {
                let s3 = s2.emit(
                    crate::opcode::OpKind::Jmp(crate::opcode::JmpKind::Jmp, (st.lbl + 1) as u64),
                ).emit(crate::opcode::OpKind::Lbl(st.lbl as u64));
                lemma_cond(s3, *b, target);
            }
        }
    }
}

proof fn lemma_local(st: GenState, l: LocalView)
    ensures
        step_ok(st, lower_local(st, l), true),
    decreases l, 0nat,
{
    match l.value {
        Some(e) => lemma_expr(st, e, Mode::Value),
        None => {
            if let Some(size) = l.size {
                if is_literal(size) {
                    crate::text::lemma_decimal_value_nonnegative(size);
                }
            }
        },
    }
}

proof fn lemma_stmt(st: GenState, s: StmtView)
    ensures
        step_ok(st, lower_stmt(st, s), stmt_declares(s)),
    decreases s, 0nat,
{
    match s {
        StmtView::Local(l) => lemma_local(st, l),
        StmtView::Expr(e) => lemma_expr(st, e, Mode::Value),
    }
}

proof fn lemma_block(st: GenState, b: Seq<StmtView>, from: int)
    requires
        0 <= from,
    ensures
        step_ok(st, lower_block(st, b, from), block_declares(b)),
    decreases b, b.len() - from,
{
    if from < b.len() {
        lemma_stmt(st, b[from]);
        if let Ok(next) = lower_stmt(st, b[from]) {
            lemma_block(next, b, from + 1);
        }
    }
}

/// Push/pop balance: lowering an expression none of whose nested blocks
/// declares a local leaves the virtual stack exactly as deep as it found it,
/// and the symbol table as it was. Whatever the expression, the stack is never
/// left shallower, labels are never given back, and what was emitted and
/// declared before is still in place.
pub proof fn lemma_expr_stack_balance(st: GenState, e: ExprView, mode: Mode)
    ensures
        lower_expr(st, e, mode) matches Ok(after) ==> {
            &&& grows(st, after)
            &&& !expr_declares(e) ==> after.rsp == st.rsp && after.locals == st.locals
        },
{
    lemma_expr(st, e, mode);
}

/// Push/pop balance of a whole statement: an expression statement that holds
/// no declaration has a net stack delta of zero.
pub proof fn lemma_stmt_stack_balance(st: GenState, s: StmtView)
    ensures
        lower_stmt(st, s) matches Ok(after) ==> {
            &&& grows(st, after)
            &&& !stmt_declares(s) ==> after.rsp == st.rsp && after.locals == st.locals
        },
{
    lemma_stmt(st, s);
}

/// Push/pop balance of a condition.
pub proof fn lemma_cond_stack_balance(st: GenState, e: ExprView, target: int)
    ensures
        lower_cond(st, e, target) matches Ok(after) ==> {
            &&& grows(st, after)
            &&& !expr_declares(e) ==> after.rsp == st.rsp && after.locals == st.locals
        },
{
    lemma_cond(st, e, target);
}

/// Push/pop balance of a block: a block without declarations has a net
/// stack delta of zero.
pub proof fn lemma_block_stack_balance(st: GenState, b: Seq<StmtView>)
    ensures
        lower_block(st, b, 0) matches Ok(after) ==> {
            &&& grows(st, after)
            &&& !block_declares(b) ==> after.rsp == st.rsp && after.locals == st.locals
        },
{
    lemma_block(st, b, 0);
}

/// A declaration with an initialiser records its name exactly one word deeper
/// than the stack stood after the initialiser; so two scalar declarations in
/// a row, the second with an initialiser that declares nothing, lie one word
/// apart.
pub proof fn lemma_scalar_declarations_one_word_apart(
    st: GenState,
    first: LocalView,
    second: LocalView,
)
    requires
        first.value is Some,
        second.value is Some,
        !expr_declares(second.value->Some_0),
        lower_local(st, first) is Ok,
        lower_local(lower_local(st, first)->Ok_0, second) is Ok,
    ensures
        ({
            let mid = lower_local(st, first)->Ok_0;
            let end = lower_local(mid, second)->Ok_0;
            &&& mid.lookup(first.name) == Some(mid.rsp)
            &&& end.lookup(second.name) == Some(end.rsp)
            &&& end.rsp == mid.rsp + 8
            &&& end.locals.len() == mid.locals.len() + 1
        }),
{
    let mid = lower_local(st, first)->Ok_0;
    lemma_expr(mid, second.value->Some_0, Mode::Value);
    let end = lower_local(mid, second)->Ok_0;
    lemma_expr(st, first.value->Some_0, Mode::Value);
    assert(mid.locals.last() == (first.name, mid.rsp));
    assert(end.locals.last() == (second.name, end.rsp));
}

/// No declaration of `name`, no depth; and the other way round.
pub proof fn lemma_lookup_none_iff_undeclared(locals: Seq<(Seq<char>, int)>, name: Seq<char>)
    ensures
        lookup_in(locals, name) is None <==> forall|i: int|
            0 <= i < locals.len() ==> (#[trigger] locals[i]).0 != name,
    decreases locals.len(),
{
    if locals.len() > 0 {
        lemma_lookup_none_iff_undeclared(locals.drop_last(), name);
        if locals.last().0 == name {
            assert(locals[locals.len() - 1].0 == name);
        } else {
            if lookup_in(locals, name) is None {
                assert forall|i: int| 0 <= i < locals.len() implies (#[trigger] locals[i]).0
                    != name by {
                    if i < locals.len() - 1 {
                        assert(locals.drop_last()[i] == locals[i]);
                    }
                }
            } else {
                if forall|i: int| 0 <= i < locals.len() ==> (#[trigger] locals[i]).0 != name {
                    assert forall|i: int| 0 <= i < locals.drop_last().len() implies (
                    #[trigger] locals.drop_last()[i]).0 != name by {
                        assert(locals.drop_last()[i] == locals[i]);
                    }
                }
            }
        }
    }
}

/// An identifier that no declaration so far has named is refused, read or
/// written, with `IdentNotFound`: no instruction is produced for it.
pub proof fn lemma_undeclared_identifier_fails(st: GenState, name: Seq<char>, mode: Mode)
    requires
        forall|i: int| 0 <= i < st.locals.len() ==> (#[trigger] st.locals[i]).0 != name,
    ensures
        lower_expr(st, ExprView::Ident(name), mode) == fail(ErrorKind::IdentNotFound),
        lower_stmt(st, StmtView::Expr(ExprView::Ident(name))) == fail(ErrorKind::IdentNotFound),
{
    lemma_lookup_none_iff_undeclared(st.locals, name);
}

/// A declared identifier is found: its lowering is one load, or one address
/// computation, at the displacement between the current depth and the
/// declared one.
pub proof fn lemma_declared_identifier_loads(st: GenState, name: Seq<char>, mode: Mode)
    requires
        st.lookup(name) is Some,
    ensures
        lower_expr(st, ExprView::Ident(name), mode) == Ok::<GenState, CompileError>(
            st.emit(
                crate::lower::slot_access(
                    crate::register::Operand::stack_slot(st.rsp - st.lookup(name)->Some_0),
                    mode,
                ),
            ),
        ),
{
}

/// A number literal above the largest signed word is refused when its value
/// is needed, with `LiteralOverflow`.
pub proof fn lemma_literal_overflow_fails(st: GenState, text: Seq<char>)
    requires
        is_literal(text),
        decimal_value(text) > LITERAL_MAX,
    ensures
        lower_expr(st, ExprView::Number(text), Mode::Value) == fail(ErrorKind::LiteralOverflow),
{
}

/// A number literal within the range of a signed word is lowered, to one
/// move of its value into the accumulator.
pub proof fn lemma_literal_in_range_loads(st: GenState, text: Seq<char>)
    requires
        is_literal(text),
        decimal_value(text) <= LITERAL_MAX,
    ensures
        lower_expr(st, ExprView::Number(text), Mode::Value) == Ok::<GenState, CompileError>(
            st.emit(
                crate::opcode::OpKind::Mov(
                    crate::register::Operand::spec_rax(),
                    crate::register::Operand::Immediate(decimal_value(text) as i64),
                ),
            ),
        ),
{
}

} // verus!
