use vstd::prelude::*;
use crate::ast::{BiOpKind, ExprView};
use crate::labels::{
    extends, label_at, lemma_block_labels, lemma_cond_labels, lemma_expr_labels, step,
};
use crate::lower::{
    lower_block, lower_comparison, lower_cond, lower_if, lower_while, negated_jump, GenState,
};
use crate::opcode::{JmpKind, OpKind};

verus! {

/// The comparison that a condition ends in when it is one, possibly in
/// parentheses.
pub open spec fn comparison_of(e: ExprView) -> Option<BiOpKind>
    decreases e,
{
    match e {
        ExprView::BiOp(kind, _, _) => if kind.is_comparison() {
            Some(kind)
        } else {
            None
        },
        ExprView::SubExpr(inner) => comparison_of(*inner),
        _ => None,
    }
}

/// Negation polarity: the code of a comparison used as a condition ends in
/// the jump to the target that is taken exactly when the comparison does not
/// hold.
pub proof fn lemma_comparison_ends_in_negated_jump(st: GenState, e: ExprView, target: int)
    requires
        comparison_of(e) is Some,
        lower_cond(st, e, target) is Ok,
    ensures
        ({
            let after = lower_cond(st, e, target)->Ok_0;
            &&& after.text.len() > st.text.len()
            &&& after.text.last().kind == OpKind::Jmp(
                negated_jump(comparison_of(e)->Some_0),
                target as u64,
            )
        }),
    decreases e,
{
    match e {
        ExprView::SubExpr(inner) => lemma_comparison_ends_in_negated_jump(st, *inner, target),
        ExprView::BiOp(kind, a, b) => {
            assert(lower_cond(st, e, target) == lower_comparison(st, e, target));
            crate::balance::lemma_expr_stack_balance(st, *a, crate::lower::Mode::Value);
            let s1 = crate::lower::lower_expr(st, *a, crate::lower::Mode::Value)->Ok_0;
            let s2 = s1.push(crate::register::Operand::spec_rax())->Ok_0;
            crate::balance::lemma_expr_stack_balance(s2, *b, crate::lower::Mode::Value);
            let s3 = crate::lower::lower_expr(s2, *b, crate::lower::Mode::Value)->Ok_0;
            assert(lower_comparison(st, e, target) is Ok);
            assert(s3.text.len() >= st.text.len());
        },
        _ => {},
    }
}

/// The states that the lowering of a `while` passes through.
pub struct WhileShape {
    /// After the two labels are taken and the top label is defined.
    pub top: GenState,
    /// After the condition.
    pub cond: GenState,
    /// After the body.
    pub body: GenState,
    /// After the jump back and the end label.
    pub end: GenState,
}

/// The states that the lowering of the loop `e` from `st` passes through.
pub open spec fn while_shape(st: GenState, e: ExprView) -> WhileShape {
    let top = st.fresh(2)->Ok_0.emit(OpKind::Lbl(st.lbl as u64));
    let cond = lower_cond(top, *e->While_0, st.lbl + 1)->Ok_0;
    let body = lower_block(cond, e->While_1, 0)->Ok_0;
    WhileShape { top, cond, body, end: lower_while(st, e)->Ok_0 }
}

/// A loop whose condition is false on entry does not reach its body. The
/// code of a `while` over a comparison is, in this order: the top label; the
/// code of the condition, whose last instruction jumps to the end label
/// exactly when the comparison does not hold; the body; the jump back to the
/// top label; the end label. The end label is defined nowhere else. So the
/// jump, when taken, lands behind every instruction of the body and behind
/// the jump back.
pub proof fn lemma_while_exit_skips_body(st: GenState, e: ExprView)
    requires
        0 <= st.lbl,
        e is While,
        comparison_of(*e->While_0) is Some,
        lower_while(st, e) is Ok,
    ensures
        ({
            let shape = while_shape(st, e);
            let text = shape.end.text;
            let first = st.text.len() as int;
            let branch = shape.cond.text.len() - 1;
            let back = shape.body.text.len() as int;
            let exit = back + 1;
            &&& extends(st.text, text)
            &&& text.len() == exit + 1
            &&& first < branch < shape.cond.text.len() <= back
            &&& text[first].kind == OpKind::Lbl(st.lbl as u64)
            &&& text[branch].kind == OpKind::Jmp(
                negated_jump(comparison_of(*e->While_0)->Some_0),
                (st.lbl + 1) as u64,
            )
            &&& text[back].kind == OpKind::Jmp(JmpKind::Jmp, st.lbl as u64)
            &&& text[exit].kind == OpKind::Lbl((st.lbl + 1) as u64)
            &&& forall|j: int|
                first <= j < text.len() && #[trigger] label_at(text, j) == Some(st.lbl + 1) ==> j
                    == exit
            &&& forall|j: int|
                first <= j < text.len() && #[trigger] label_at(text, j) == Some(st.lbl) ==> j
                    == first
        }),
{
    let shape = while_shape(st, e);
    let text = shape.end.text;
    let first = st.text.len() as int;
    let exit = shape.body.text.len() as int + 1;
    let s1 = st.fresh(2)->Ok_0;
    lemma_cond_labels(shape.top, *e->While_0, st.lbl + 1);
    lemma_comparison_ends_in_negated_jump(shape.top, *e->While_0, st.lbl + 1);
    lemma_block_labels(shape.cond, e->While_1);
    crate::labels::lemma_expr_labels(st, e, crate::lower::Mode::Value);
    assert(lower_while(st, e) == crate::lower::lower_expr(st, e, crate::lower::Mode::Value));
    assert(step(st, shape.end, Set::empty()));
    assert(label_at(text, exit) == Some(st.lbl + 1));
    assert(label_at(text, first) == Some(st.lbl));
    assert forall|j: int|
        first <= j < text.len() && #[trigger] label_at(text, j) == Some(st.lbl + 1) implies j
        == exit by {
        if j < exit {
            assert(label_at(text, j) != label_at(text, exit));
        }
    }
    assert forall|j: int|
        first <= j < text.len() && #[trigger] label_at(text, j) == Some(st.lbl) implies j
        == first by {
        if first < j {
            assert(label_at(text, first) != label_at(text, j));
        }
    }
}

/// The states that the lowering of an `if` with an `else` passes through.
pub struct IfShape {
    /// After the condition.
    pub cond: GenState,
    /// After the first block.
    pub on_true: GenState,
    /// After the second block.
    pub on_false: GenState,
    /// After the end label.
    pub end: GenState,
}

/// The states that the lowering of the `if` with `else` `e` from `st` passes
/// through.
pub open spec fn if_shape(st: GenState, e: ExprView) -> IfShape {
    let cond = lower_cond(st.fresh(2)->Ok_0, *e->If_0, st.lbl)->Ok_0;
    let on_true = lower_block(cond, e->If_1, 0)->Ok_0;
    let on_false = lower_block(
        on_true.emit(OpKind::Jmp(JmpKind::Jmp, (st.lbl + 1) as u64)).emit(
            OpKind::Lbl(st.lbl as u64),
        ),
        e->If_2->Some_0,
        0,
    )->Ok_0;
    IfShape { cond, on_true, on_false, end: lower_if(st, e)->Ok_0 }
}

/// Label ordering and negation polarity of `if` with `else`. The code of an
/// `if` over a comparison is, in this order: the code of the condition, whose
/// last instruction jumps to the first label exactly when the comparison does
/// not hold; the first block; an unconditional jump to the second label; the
/// first label; the second block; the second label. The two labels are the
/// next two of the counter, and each is defined nowhere else.
pub proof fn lemma_if_else_shape(st: GenState, e: ExprView)
    requires
        0 <= st.lbl,
        e is If,
        e->If_2 is Some,
        comparison_of(*e->If_0) is Some,
        lower_if(st, e) is Ok,
    ensures
        ({
            let shape = if_shape(st, e);
            let text = shape.end.text;
            let first = st.text.len() as int;
            let branch = shape.cond.text.len() - 1;
            let over = shape.on_true.text.len() as int;
            let otherwise = over + 1;
            let last = shape.on_false.text.len() as int;
            &&& extends(st.text, text)
            &&& text.len() == last + 1
            &&& first <= branch < shape.cond.text.len() <= over
            &&& otherwise < last
            &&& text[branch].kind == OpKind::Jmp(
                negated_jump(comparison_of(*e->If_0)->Some_0),
                st.lbl as u64,
            )
            &&& text[over].kind == OpKind::Jmp(JmpKind::Jmp, (st.lbl + 1) as u64)
            &&& text[otherwise].kind == OpKind::Lbl(st.lbl as u64)
            &&& text[last].kind == OpKind::Lbl((st.lbl + 1) as u64)
            &&& forall|j: int|
                first <= j < text.len() && #[trigger] label_at(text, j) == Some(st.lbl) ==> j
                    == otherwise
            &&& forall|j: int|
                first <= j < text.len() && #[trigger] label_at(text, j) == Some(st.lbl + 1) ==> j
                    == last
        }),
{
    let shape = if_shape(st, e);
    let text = shape.end.text;
    let first = st.text.len() as int;
    let otherwise = shape.on_true.text.len() as int + 1;
    let last = shape.on_false.text.len() as int;
    let s1 = st.fresh(2)->Ok_0;
    lemma_cond_labels(s1, *e->If_0, st.lbl);
    lemma_comparison_ends_in_negated_jump(s1, *e->If_0, st.lbl);
    lemma_block_labels(shape.cond, e->If_1);
    let s4 = shape.on_true.emit(OpKind::Jmp(JmpKind::Jmp, (st.lbl + 1) as u64)).emit(
        OpKind::Lbl(st.lbl as u64),
    );
    lemma_block_labels(s4, e->If_2->Some_0);
    lemma_expr_labels(st, e, crate::lower::Mode::Value);
    assert(lower_if(st, e) == crate::lower::lower_expr(st, e, crate::lower::Mode::Value));
    assert(step(st, shape.end, Set::empty()));
    assert(text[otherwise] == s4.text[otherwise]);
    assert(label_at(text, otherwise) == Some(st.lbl));
    assert(label_at(text, last) == Some(st.lbl + 1));
    assert forall|j: int|
        first <= j < text.len() && #[trigger] label_at(text, j) == Some(st.lbl) implies j
        == otherwise by {
        if j < otherwise {
            assert(label_at(text, j) != label_at(text, otherwise));
        } else if otherwise < j {
            assert(label_at(text, otherwise) != label_at(text, j));
        }
    }
    assert forall|j: int|
        first <= j < text.len() && #[trigger] label_at(text, j) == Some(st.lbl + 1) implies j
        == last by {
        if j < last {
            assert(label_at(text, j) != label_at(text, last));
        }
    }
}

} // verus!
