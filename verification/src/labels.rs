use vstd::prelude::*;
use crate::ast::{ExprView, LocalView, StmtView};
use crate::lower::{
    is_arithmetic, lower_arith, lower_assign, lower_block, lower_comparison, lower_cond,
    lower_either, lower_expr, lower_if, lower_index, lower_local, lower_stmt, lower_unop,
    lower_while, CompileError, GenState, Mode, LABEL_LIMIT,
};
use crate::opcode::{JmpKind, OpKind, Opcode};
use crate::register::Operand;

verus! {

/// The label that the instruction at `i` defines, if it defines one.
pub open spec fn label_at(text: Seq<Opcode>, i: int) -> Option<int> {
    match text[i].kind {
        OpKind::Lbl(l) => Some(l as int),
        _ => None,
    }
}

/// The label that the instruction at `i` jumps to, if it is a jump.
pub open spec fn target_at(text: Seq<Opcode>, i: int) -> Option<int> {
    match text[i].kind {
        OpKind::Jmp(_, l) => Some(l as int),
        _ => None,
    }
}

/// The labels from `lo` up to, not including, `hi`.
pub open spec fn label_range(lo: int, hi: int) -> Set<int> {
    Set::new(|l: int| lo <= l < hi)
}

/// What holds of the instructions of `text` from index `from` on: they
/// define exactly the labels `defs`, each of them once, and jump only to
/// labels among `jumps`.
pub open spec fn segment(text: Seq<Opcode>, from: int, defs: Set<int>, jumps: Set<int>) -> bool {
    &&& 0 <= from <= text.len()
    &&& forall|i: int|
        from <= i < text.len() ==> (#[trigger] label_at(text, i) matches Some(l)
            ==> defs.contains(l))
    &&& forall|i: int, j: int|
        from <= i < j < text.len() && (#[trigger] label_at(text, i)) is Some ==> label_at(text, i)
            != #[trigger] label_at(text, j)
    &&& forall|l: int|
        #[trigger] defs.contains(l) ==> exists|i: int|
            from <= i < text.len() && #[trigger] label_at(text, i) == Some(l)
    &&& forall|i: int|
        from <= i < text.len() ==> (#[trigger] target_at(text, i) matches Some(l)
            ==> jumps.contains(l))
}

/// Whether `longer` starts with `shorter`.
pub open spec fn extends(shorter: Seq<Opcode>, longer: Seq<Opcode>) -> bool {
    &&& shorter.len() <= longer.len()
    &&& forall|i: int|
        #![trigger shorter[i]]
        #![trigger longer[i]]
        0 <= i < shorter.len() ==> shorter[i] == longer[i]
}

/// Whether the instructions of `text` from `from` on neither define a label
/// nor jump.
pub open spec fn plain_from(text: Seq<Opcode>, from: int) -> bool {
    forall|i: int|
        from <= i < text.len() ==> (#[trigger] text[i]).kind !is Lbl && text[i].kind !is Jmp
}

/// Nothing defines nothing and jumps nowhere.
pub proof fn lemma_segment_empty(text: Seq<Opcode>, jumps: Set<int>)
    ensures
        segment(text, text.len() as int, Set::empty(), jumps),
{
}

/// Instructions that neither define a label nor jump change nothing.
pub proof fn lemma_segment_plain(
    before: Seq<Opcode>,
    after: Seq<Opcode>,
    from: int,
    defs: Set<int>,
    jumps: Set<int>,
)
    requires
        segment(before, from, defs, jumps),
        extends(before, after),
        plain_from(after, before.len() as int),
    ensures
        segment(after, from, defs, jumps),
{
    assert forall|i: int| from <= i < after.len() implies (#[trigger] label_at(after, i) matches Some(
        l,
    ) ==> defs.contains(l)) by {
        if i < before.len() {
            assert(label_at(before, i) == label_at(after, i));
        } else {
            assert(after[i].kind !is Lbl);
        }
    }
    assert forall|i: int, j: int|
        from <= i < j < after.len() && (#[trigger] label_at(after, i)) is Some implies label_at(
        after,
        i,
    ) != #[trigger] label_at(after, j) by {
        if i < before.len() {
            assert(label_at(before, i) == label_at(after, i));
            if j < before.len() {
                assert(label_at(before, j) == label_at(after, j));
            } else {
                assert(after[j].kind !is Lbl);
            }
        } else {
            assert(after[i].kind !is Lbl);
        }
    }
    assert forall|l: int| #[trigger] defs.contains(l) implies exists|i: int|
        from <= i < after.len() && #[trigger] label_at(after, i) == Some(l) by {
        let i = choose|i: int| from <= i < before.len() && #[trigger] label_at(before, i) == Some(l);
        assert(label_at(after, i) == Some(l));
    }
    assert forall|i: int| from <= i < after.len() implies (#[trigger] target_at(after, i) matches Some(
        l,
    ) ==> jumps.contains(l)) by {
        if i < before.len() {
            assert(target_at(before, i) == target_at(after, i));
        } else {
            assert(after[i].kind !is Jmp);
        }
    }
}

/// A label not yet defined may be defined.
pub proof fn lemma_segment_label(
    text: Seq<Opcode>,
    from: int,
    defs: Set<int>,
    jumps: Set<int>,
    l: u64,
)
    requires
        segment(text, from, defs, jumps),
        !defs.contains(l as int),
    ensures
        segment(text.push(Opcode::word(OpKind::Lbl(l))), from, defs.insert(l as int), jumps),
{
    let after = text.push(Opcode::word(OpKind::Lbl(l)));
    let d2 = defs.insert(l as int);
    assert forall|i: int| from <= i < after.len() implies (#[trigger] label_at(after, i) matches Some(
        x,
    ) ==> d2.contains(x)) by {
        if i < text.len() {
            assert(label_at(text, i) == label_at(after, i));
        }
    }
    assert forall|i: int, j: int|
        from <= i < j < after.len() && (#[trigger] label_at(after, i)) is Some implies label_at(
        after,
        i,
    ) != #[trigger] label_at(after, j) by {
        assert(label_at(text, i) == label_at(after, i));
        if j < text.len() {
            assert(label_at(text, j) == label_at(after, j));
        }
    }
    assert forall|x: int| #[trigger] d2.contains(x) implies exists|i: int|
        from <= i < after.len() && #[trigger] label_at(after, i) == Some(x) by {
        if x == l as int {
            assert(label_at(after, text.len() as int) == Some(x));
        } else {
            assert(defs.contains(x));
            let i = choose|i: int| from <= i < text.len() && #[trigger] label_at(text, i) == Some(x);
            assert(label_at(after, i) == Some(x));
        }
    }
    assert forall|i: int| from <= i < after.len() implies (#[trigger] target_at(after, i) matches Some(
        x,
    ) ==> jumps.contains(x)) by {
        if i < text.len() {
            assert(target_at(text, i) == target_at(after, i));
        }
    }
}

/// A jump to an allowed label may be added.
pub proof fn lemma_segment_jump(
    text: Seq<Opcode>,
    from: int,
    defs: Set<int>,
    jumps: Set<int>,
    op: Opcode,
)
    requires
        segment(text, from, defs, jumps),
        op.kind matches OpKind::Jmp(_, l) && jumps.contains(l as int),
    ensures
        segment(text.push(op), from, defs, jumps),
{
    let after = text.push(op);
    assert forall|i: int| from <= i < after.len() implies (#[trigger] label_at(after, i) matches Some(
        x,
    ) ==> defs.contains(x)) by {
        if i < text.len() {
            assert(label_at(text, i) == label_at(after, i));
        }
    }
    assert forall|i: int, j: int|
        from <= i < j < after.len() && (#[trigger] label_at(after, i)) is Some implies label_at(
        after,
        i,
    ) != #[trigger] label_at(after, j) by {
        assert(label_at(text, i) == label_at(after, i));
        if j < text.len() {
            assert(label_at(text, j) == label_at(after, j));
        }
    }
    assert forall|x: int| #[trigger] defs.contains(x) implies exists|i: int|
        from <= i < after.len() && #[trigger] label_at(after, i) == Some(x) by {
        let i = choose|i: int| from <= i < text.len() && #[trigger] label_at(text, i) == Some(x);
        assert(label_at(after, i) == Some(x));
    }
    assert forall|i: int| from <= i < after.len() implies (#[trigger] target_at(after, i) matches Some(
        x,
    ) ==> jumps.contains(x)) by {
        if i < text.len() {
            assert(target_at(text, i) == target_at(after, i));
        }
    }
}

/// Two segments in a row, with no label in common, are one segment.
pub proof fn lemma_segment_compose(
    first: Seq<Opcode>,
    both: Seq<Opcode>,
    from: int,
    defs1: Set<int>,
    defs2: Set<int>,
    jumps1: Set<int>,
    jumps2: Set<int>,
)
    requires
        segment(first, from, defs1, jumps1),
        extends(first, both),
        segment(both, first.len() as int, defs2, jumps2),
        defs1.disjoint(defs2),
    ensures
        segment(both, from, defs1 + defs2, jumps1 + jumps2),
{
    let mid = first.len() as int;
    let d = defs1 + defs2;
    assert forall|i: int| from <= i < both.len() implies (#[trigger] label_at(both, i) matches Some(
        x,
    ) ==> d.contains(x)) by {
        if i < mid {
            assert(label_at(first, i) == label_at(both, i));
        }
    }
    assert forall|i: int, j: int|
        from <= i < j < both.len() && (#[trigger] label_at(both, i)) is Some implies label_at(both, i)
        != #[trigger] label_at(both, j) by {
        if i < mid {
            assert(label_at(first, i) == label_at(both, i));
            if j < mid {
                assert(label_at(first, j) == label_at(both, j));
            } else {
                if label_at(both, j) is Some {
                    assert(defs2.contains(label_at(both, j)->Some_0));
                    assert(defs1.contains(label_at(first, i)->Some_0));
                }
            }
        }
    }
    assert forall|x: int| #[trigger] d.contains(x) implies exists|i: int|
        from <= i < both.len() && #[trigger] label_at(both, i) == Some(x) by {
        if defs1.contains(x) {
            let i = choose|i: int| from <= i < first.len() && #[trigger] label_at(first, i) == Some(x);
            assert(label_at(both, i) == Some(x));
        } else {
            assert(defs2.contains(x));
            let i = choose|i: int| mid <= i < both.len() && #[trigger] label_at(both, i) == Some(x);
            assert(label_at(both, i) == Some(x));
        }
    }
    assert forall|i: int| from <= i < both.len() implies (#[trigger] target_at(both, i) matches Some(
        x,
    ) ==> (jumps1 + jumps2).contains(x)) by {
        if i < mid {
            assert(target_at(first, i) == target_at(both, i));
        }
    }
}

/// A segment may be described by any set equal to its labels, and by any
/// larger set of allowed targets.
pub proof fn lemma_segment_widen(
    text: Seq<Opcode>,
    from: int,
    defs: Set<int>,
    jumps: Set<int>,
    defs2: Set<int>,
    jumps2: Set<int>,
)
    requires
        segment(text, from, defs, jumps),
        defs =~= defs2,
        jumps.subset_of(jumps2),
    ensures
        segment(text, from, defs2, jumps2),
{
}

/// A lowering step from `a` to `b` that keeps the label discipline: what was
/// emitted stays; the labels taken from the counter on the way, and no
/// others, are defined on the way, each once; and every jump emitted on the
/// way goes to one of them or to one of `extra`.
pub open spec fn step(a: GenState, b: GenState, extra: Set<int>) -> bool {
    &&& 0 <= a.lbl <= b.lbl
    &&& extends(a.text, b.text)
    &&& segment(
        b.text,
        a.text.len() as int,
        label_range(a.lbl, b.lbl),
        label_range(a.lbl, b.lbl) + extra,
    )
}

/// What holds of the outcome of a lowering function.
pub open spec fn step_ok(a: GenState, r: Result<GenState, CompileError>, extra: Set<int>) -> bool {
    r matches Ok(b) ==> step(a, b, extra)
}

proof fn lemma_step_plain(a: GenState, b: GenState, extra: Set<int>)
    requires
        0 <= a.lbl,
        a.lbl == b.lbl,
        extends(a.text, b.text),
        plain_from(b.text, a.text.len() as int),
    ensures
        step(a, b, extra),
{
    lemma_segment_empty(a.text, label_range(a.lbl, a.lbl) + extra);
    lemma_segment_plain(
        a.text,
        b.text,
        a.text.len() as int,
        Set::empty(),
        label_range(a.lbl, a.lbl) + extra,
    );
    lemma_segment_widen(
        b.text,
        a.text.len() as int,
        Set::empty(),
        label_range(a.lbl, a.lbl) + extra,
        label_range(a.lbl, b.lbl),
        label_range(a.lbl, b.lbl) + extra,
    );
}

proof fn lemma_step_trans(a: GenState, b: GenState, c: GenState, e1: Set<int>, e2: Set<int>)
    requires
        step(a, b, e1),
        step(b, c, e2),
    ensures
        step(a, c, e1 + e2),
{
    lemma_segment_compose(
        b.text,
        c.text,
        a.text.len() as int,
        label_range(a.lbl, b.lbl),
        label_range(b.lbl, c.lbl),
        label_range(a.lbl, b.lbl) + e1,
        label_range(b.lbl, c.lbl) + e2,
    );
    lemma_segment_widen(
        c.text,
        a.text.len() as int,
        label_range(a.lbl, b.lbl) + label_range(b.lbl, c.lbl),
        (label_range(a.lbl, b.lbl) + e1) + (label_range(b.lbl, c.lbl) + e2),
        label_range(a.lbl, c.lbl),
        label_range(a.lbl, c.lbl) + (e1 + e2),
    );
}

proof fn lemma_step_widen(a: GenState, b: GenState, e1: Set<int>, e2: Set<int>)
    requires
        step(a, b, e1),
        e1.subset_of(e2),
    ensures
        step(a, b, e2),
{
    lemma_segment_widen(
        b.text,
        a.text.len() as int,
        label_range(a.lbl, b.lbl),
        label_range(a.lbl, b.lbl) + e1,
        label_range(a.lbl, b.lbl),
        label_range(a.lbl, b.lbl) + e2,
    );
}

/// Two steps in a row where neither jumps outside.
proof fn lemma_step_then(a: GenState, b: GenState, c: GenState, extra: Set<int>)
    requires
        step(a, b, extra),
        step(b, c, extra),
    ensures
        step(a, c, extra),
{
    lemma_step_trans(a, b, c, extra, extra);
    lemma_step_widen(a, c, extra + extra, extra);
}

/// A step followed by instructions that neither define a label nor jump.
proof fn lemma_step_then_plain(a: GenState, b: GenState, c: GenState, extra: Set<int>)
    requires
        step(a, b, extra),
        b.lbl == c.lbl,
        extends(b.text, c.text),
        plain_from(c.text, b.text.len() as int),
    ensures
        step(a, c, extra),
{
    lemma_step_plain(b, c, extra);
    lemma_step_then(a, b, c, extra);
}

proof fn lemma_lbl_expr(st: GenState, e: ExprView, mode: Mode)
    requires
        0 <= st.lbl,
    ensures
        step_ok(st, lower_expr(st, e, mode), Set::empty()),
    decreases e, 1nat,
{
    let none = Set::<int>::empty();
    match e {
        ExprView::Number(_) => {
            if let Ok(b) = lower_expr(st, e, mode) {
                lemma_step_plain(st, b, none);
            }
        },
        ExprView::Ident(_) => {
            if let Ok(b) = lower_expr(st, e, mode) {
                lemma_step_plain(st, b, none);
            }
        },
        ExprView::Index(_, _) => lemma_lbl_index(st, e, mode),
        ExprView::UnOp(_, _) => lemma_lbl_unop(st, e, mode),
        ExprView::BiOp(kind, _, _) => {
            if kind is Assign {
                lemma_lbl_assign(st, e);
            } else if is_arithmetic(kind) {
                lemma_lbl_arith(st, e);
            }
        },
        ExprView::SubExpr(inner) => lemma_lbl_expr(st, *inner, mode),
        ExprView::If(_, _, _) => lemma_lbl_if(st, e),
        ExprView::While(_, _) => lemma_lbl_while(st, e),
        ExprView::Call(_, _) => {},
    }
}

proof fn lemma_lbl_index(st: GenState, e: ExprView, mode: Mode)
    requires
        0 <= st.lbl,
        e is Index,
    ensures
        step_ok(st, lower_index(st, e, mode), Set::empty()),
    decreases e, 0nat,
{
    let none = Set::<int>::empty();
    if let ExprView::Index(base, index) = e {
        lemma_lbl_expr(st, *index, Mode::Value);
        if let Ok(s1) = lower_expr(st, *index, Mode::Value) {
            if let Ok(s2) = lower_index(st, e, mode) {
                lemma_step_then_plain(st, s1, s2, none);
            }
        }
    }
}

proof fn lemma_lbl_unop(st: GenState, e: ExprView, mode: Mode)
    requires
        0 <= st.lbl,
        e is UnOp,
    ensures
        step_ok(st, lower_unop(st, e, mode), Set::empty()),
    decreases e, 0nat,
{
    let none = Set::<int>::empty();
    if let ExprView::UnOp(kind, child) = e {
        lemma_lbl_expr(st, *child, Mode::Value);
        lemma_lbl_expr(st, *child, Mode::Address);
        if let Ok(s2) = lower_unop(st, e, mode) {
            if let Ok(s1) = lower_expr(st, *child, Mode::Value) {
                if !(kind is Ref) {
                    lemma_step_then_plain(st, s1, s2, none);
                }
            }
        }
    }
}

proof fn lemma_lbl_assign(st: GenState, e: ExprView)
    requires
        0 <= st.lbl,
        e is BiOp,
    ensures
        step_ok(st, lower_assign(st, e), Set::empty()),
    decreases e, 0nat,
{
    let none = Set::<int>::empty();
    if let ExprView::BiOp(_, a, b) = e {
        lemma_lbl_expr(st, *b, Mode::Value);
        if let Ok(s1) = lower_expr(st, *b, Mode::Value) {
            if let Ok(s2) = s1.push(Operand::spec_rax()) {
                lemma_step_then_plain(st, s1, s2, none);
                lemma_lbl_expr(s2, *a, Mode::Address);
                if let Ok(s3) = lower_expr(s2, *a, Mode::Address) {
                    lemma_step_then(st, s2, s3, none);
                    if let Ok(s4) = lower_assign(st, e) {
                        lemma_step_then_plain(st, s3, s4, none);
                    }
                }
            }
        }
    }
}

proof fn lemma_lbl_arith(st: GenState, e: ExprView)
    requires
        0 <= st.lbl,
        e matches ExprView::BiOp(kind, _, _) && is_arithmetic(kind),
    ensures
        step_ok(st, lower_arith(st, e), Set::empty()),
    decreases e, 0nat,
{
    let none = Set::<int>::empty();
    if let ExprView::BiOp(kind, a, b) = e {
        lemma_lbl_expr(st, *a, Mode::Value);
        if let Ok(s1) = lower_expr(st, *a, Mode::Value) {
            if let Ok(s2) = s1.push(Operand::spec_rax()) {
                lemma_step_then_plain(st, s1, s2, none);
                lemma_lbl_expr(s2, *b, Mode::Value);
                if let Ok(s3) = lower_expr(s2, *b, Mode::Value) {
                    lemma_step_then(st, s2, s3, none);
                    if let Ok(s4) = lower_arith(st, e) {
                        lemma_step_then_plain(st, s3, s4, none);
                    }
                }
            }
        }
    }
}

proof fn lemma_lbl_comparison(st: GenState, e: ExprView, target: int)
    requires
        0 <= st.lbl,
        0 <= target <= LABEL_LIMIT,
        e is BiOp,
    ensures
        step_ok(st, lower_comparison(st, e, target), set![target]),
    decreases e, 0nat,
{
    let none = Set::<int>::empty();
    let out = set![target];
    if let ExprView::BiOp(kind, a, b) = e {
        lemma_lbl_expr(st, *a, Mode::Value);
        if let Ok(s1) = lower_expr(st, *a, Mode::Value) {
            if let Ok(s2) = s1.push(Operand::spec_rax()) {
                lemma_step_then_plain(st, s1, s2, none);
                lemma_lbl_expr(s2, *b, Mode::Value);
                if let Ok(s3) = lower_expr(s2, *b, Mode::Value) {
                    lemma_step_then(st, s2, s3, none);
                    let rax = Operand::spec_rax();
                    let rdx = Operand::spec_rdx();
                    let s4 = s3.emit(OpKind::Mov(rdx, rax)).pop(rax).emit(OpKind::Cmp(rax, rdx));
                    lemma_step_then_plain(st, s3, s4, none);
                    lemma_step_widen(st, s4, none, out);
                    let jump = Opcode::word(
                        OpKind::Jmp(crate::lower::negated_jump(kind), target as u64),
                    );
                    lemma_segment_jump(
                        s4.text,
                        st.text.len() as int,
                        label_range(st.lbl, s4.lbl),
                        label_range(st.lbl, s4.lbl) + out,
                        jump,
                    );
                }
            }
        }
    }
}

proof fn lemma_lbl_cond(st: GenState, e: ExprView, target: int)
    requires
        0 <= st.lbl,
        0 <= target <= LABEL_LIMIT,
    ensures
        step_ok(st, lower_cond(st, e, target), set![target]),
    decreases e, 1nat,
{
    let out = set![target];
    match e {
        ExprView::BiOp(kind, a, b) => {
            if kind.is_comparison() {
                lemma_lbl_comparison(st, e, target);
            } else if kind is BoAnd {
                lemma_lbl_cond(st, *a, target);
                if let Ok(s1) = lower_cond(st, *a, target) {
                    lemma_lbl_cond(s1, *b, target);
                    if let Ok(s2) = lower_cond(s1, *b, target) {
                        lemma_step_then(st, s1, s2, out);
                    }
                }
            } else if kind is BoOr {
                lemma_lbl_either(st, e, target);
            }
        },
        ExprView::SubExpr(inner) => lemma_lbl_cond(st, *inner, target),
        _ => {},
    }
}

/// The frame of a construct that took `n` labels from `st.lbl` on before
/// lowering anything: so far its instructions define `defs`, and whatever it
/// jumps to lies among the labels taken up to `cur.lbl` or is `target`.
spec fn frame(st: GenState, cur: GenState, defs: Set<int>, extra: Set<int>) -> bool {
    &&& 0 <= st.lbl <= cur.lbl
    &&& extends(st.text, cur.text)
    &&& segment(cur.text, st.text.len() as int, defs, label_range(st.lbl, cur.lbl) + extra)
}

/// A step inside a frame: the labels it defines join the frame's.
proof fn lemma_frame_step(
    st: GenState,
    cur: GenState,
    next: GenState,
    defs: Set<int>,
    extra: Set<int>,
    step_extra: Set<int>,
)
    requires
        frame(st, cur, defs, extra),
        step(cur, next, step_extra),
        step_extra.subset_of(label_range(st.lbl, cur.lbl) + extra),
        forall|l: int| defs.contains(l) ==> l < cur.lbl,
    ensures
        frame(st, next, defs + label_range(cur.lbl, next.lbl), extra),
{
    lemma_segment_compose(
        cur.text,
        next.text,
        st.text.len() as int,
        defs,
        label_range(cur.lbl, next.lbl),
        label_range(st.lbl, cur.lbl) + extra,
        label_range(cur.lbl, next.lbl) + step_extra,
    );
    lemma_segment_widen(
        next.text,
        st.text.len() as int,
        defs + label_range(cur.lbl, next.lbl),
        (label_range(st.lbl, cur.lbl) + extra) + (label_range(cur.lbl, next.lbl) + step_extra),
        defs + label_range(cur.lbl, next.lbl),
        label_range(st.lbl, next.lbl) + extra,
    );
}

/// Defining, inside a frame, a label that the frame took and has not defined.
proof fn lemma_frame_label(st: GenState, cur: GenState, defs: Set<int>, extra: Set<int>, l: int)
    requires
        frame(st, cur, defs, extra),
        0 <= l <= LABEL_LIMIT,
        !defs.contains(l),
    ensures
        frame(st, cur.emit(OpKind::Lbl(l as u64)), defs.insert(l), extra),
{
    lemma_segment_label(
        cur.text,
        st.text.len() as int,
        defs,
        label_range(st.lbl, cur.lbl) + extra,
        l as u64,
    );
}

/// Jumping, inside a frame, to a label that the frame took.
proof fn lemma_frame_jump(st: GenState, cur: GenState, defs: Set<int>, extra: Set<int>, l: int)
    requires
        frame(st, cur, defs, extra),
        0 <= l <= LABEL_LIMIT,
        st.lbl <= l < cur.lbl,
    ensures
        frame(st, cur.emit(OpKind::Jmp(JmpKind::Jmp, l as u64)), defs, extra),
{
    lemma_segment_jump(
        cur.text,
        st.text.len() as int,
        defs,
        label_range(st.lbl, cur.lbl) + extra,
        Opcode::word(OpKind::Jmp(JmpKind::Jmp, l as u64)),
    );
}

/// A frame that has defined every label it took is a step.
proof fn lemma_frame_close(st: GenState, cur: GenState, defs: Set<int>, extra: Set<int>)
    requires
        frame(st, cur, defs, extra),
        defs =~= label_range(st.lbl, cur.lbl),
    ensures
        step(st, cur, extra),
{
}

proof fn lemma_lbl_either(st: GenState, e: ExprView, target: int)
    requires
        0 <= st.lbl,
        0 <= target <= LABEL_LIMIT,
        e is BiOp,
    ensures
        step_ok(st, lower_either(st, e, target), set![target]),
    decreases e, 0nat,
{
    let out = set![target];
    if let ExprView::BiOp(_, a, b) = e {
        let second = st.lbl;
        let holds = st.lbl + 1;
        if let Ok(s1) = st.fresh(2) {
            lemma_segment_empty(st.text, label_range(st.lbl, s1.lbl) + out);
            assert(frame(st, s1, Set::empty(), out));
            lemma_lbl_cond(s1, *a, second);
            if let Ok(s2) = lower_cond(s1, *a, second) {
                lemma_frame_step(st, s1, s2, Set::empty(), out, set![second]);
                let d2 = Set::<int>::empty() + label_range(s1.lbl, s2.lbl);
                lemma_frame_jump(st, s2, d2, out, holds);
                let s3 = s2.emit(OpKind::Jmp(JmpKind::Jmp, holds as u64));
                lemma_frame_label(st, s3, d2, out, second);
                let s4 = s3.emit(OpKind::Lbl(second as u64));
                let d4 = d2.insert(second);
                lemma_lbl_cond(s4, *b, target);
                if let Ok(s5) = lower_cond(s4, *b, target) {
                    lemma_frame_step(st, s4, s5, d4, out, out);
                    let d5 = d4 + label_range(s4.lbl, s5.lbl);
                    lemma_frame_label(st, s5, d5, out, holds);
                    let s6 = s5.emit(OpKind::Lbl(holds as u64));
                    lemma_frame_close(st, s6, d5.insert(holds), out);
                }
            }
        }
    }
}

proof fn lemma_lbl_if(st: GenState, e: ExprView)
    requires
        0 <= st.lbl,
        e is If,
    ensures
        step_ok(st, lower_if(st, e), Set::empty()),
    decreases e, 0nat,
{
    let none = Set::<int>::empty();
    match e {
        ExprView::If(cond, on_true, None) => {
            let skip = st.lbl;
            if let Ok(s1) = st.fresh(1) {
                lemma_segment_empty(st.text, label_range(st.lbl, s1.lbl) + none);
                assert(frame(st, s1, Set::empty(), none));
                lemma_lbl_cond(s1, *cond, skip);
                if let Ok(s2) = lower_cond(s1, *cond, skip) {
                    lemma_frame_step(st, s1, s2, Set::empty(), none, set![skip]);
                    let d2 = Set::<int>::empty() + label_range(s1.lbl, s2.lbl);
                    lemma_lbl_block(s2, on_true, 0);
                    if let Ok(s3) = lower_block(s2, on_true, 0) {
                        lemma_frame_step(st, s2, s3, d2, none, none);
                        let d3 = d2 + label_range(s2.lbl, s3.lbl);
                        lemma_frame_label(st, s3, d3, none, skip);
                        let s4 = s3.emit(OpKind::Lbl(skip as u64));
                        lemma_frame_close(st, s4, d3.insert(skip), none);
                    }
                }
            }
        },
        ExprView::If(cond, on_true, Some(on_false)) => {
            let otherwise = st.lbl;
            let end = st.lbl + 1;
            if let Ok(s1) = st.fresh(2) {
                lemma_segment_empty(st.text, label_range(st.lbl, s1.lbl) + none);
                assert(frame(st, s1, Set::empty(), none));
                lemma_lbl_cond(s1, *cond, otherwise);
                if let Ok(s2) = lower_cond(s1, *cond, otherwise) {
                    lemma_frame_step(st, s1, s2, Set::empty(), none, set![otherwise]);
                    let d2 = Set::<int>::empty() + label_range(s1.lbl, s2.lbl);
                    lemma_lbl_block(s2, on_true, 0);
                    if let Ok(s3) = lower_block(s2, on_true, 0) {
                        lemma_frame_step(st, s2, s3, d2, none, none);
                        let d3 = d2 + label_range(s2.lbl, s3.lbl);
                        lemma_frame_jump(st, s3, d3, none, end);
                        let s4 = s3.emit(OpKind::Jmp(JmpKind::Jmp, end as u64));
                        lemma_frame_label(st, s4, d3, none, otherwise);
                        let s5 = s4.emit(OpKind::Lbl(otherwise as u64));
                        let d5 = d3.insert(otherwise);
                        lemma_lbl_block(s5, on_false, 0);
                        if let Ok(s6) = lower_block(s5, on_false, 0) {
                            lemma_frame_step(st, s5, s6, d5, none, none);
                            let d6 = d5 + label_range(s5.lbl, s6.lbl);
                            lemma_frame_label(st, s6, d6, none, end);
                            let s7 = s6.emit(OpKind::Lbl(end as u64));
                            lemma_frame_close(st, s7, d6.insert(end), none);
                        }
                    }
                }
            }
        },
        _ => {},
    }
}

proof fn lemma_lbl_while(st: GenState, e: ExprView)
    requires
        0 <= st.lbl,
        e is While,
    ensures
        step_ok(st, lower_while(st, e), Set::empty()),
    decreases e, 0nat,
{
    let none = Set::<int>::empty();
    if let ExprView::While(cond, body) = e {
        let top = st.lbl;
        let end = st.lbl + 1;
        if let Ok(s1) = st.fresh(2) {
            lemma_segment_empty(st.text, label_range(st.lbl, s1.lbl) + none);
            assert(frame(st, s1, Set::empty(), none));
            lemma_frame_label(st, s1, Set::empty(), none, top);
            let s2 = s1.emit(OpKind::Lbl(top as u64));
            let d2 = Set::<int>::empty().insert(top);
            lemma_lbl_cond(s2, *cond, end);
            if let Ok(s3) = lower_cond(s2, *cond, end) {
                lemma_frame_step(st, s2, s3, d2, none, set![end]);
                let d3 = d2 + label_range(s2.lbl, s3.lbl);
                lemma_lbl_block(s3, body, 0);
                if let Ok(s4) = lower_block(s3, body, 0) {
                    lemma_frame_step(st, s3, s4, d3, none, none);
                    let d4 = d3 + label_range(s3.lbl, s4.lbl);
                    lemma_frame_jump(st, s4, d4, none, top);
                    let s5 = s4.emit(OpKind::Jmp(JmpKind::Jmp, top as u64));
                    lemma_frame_label(st, s5, d4, none, end);
                    let s6 = s5.emit(OpKind::Lbl(end as u64));
                    lemma_frame_close(st, s6, d4.insert(end), none);
                }
            }
        }
    }
}

proof fn lemma_lbl_local(st: GenState, l: LocalView)
    requires
        0 <= st.lbl,
    ensures
        step_ok(st, lower_local(st, l), Set::empty()),
    decreases l, 0nat,
{
    let none = Set::<int>::empty();
    match l.value {
        Some(e) => {
            lemma_lbl_expr(st, e, Mode::Value);
            if let Ok(s1) = lower_expr(st, e, Mode::Value) {
                if let Ok(s2) = lower_local(st, l) {
                    lemma_step_then_plain(st, s1, s2, none);
                }
            }
        },
        None => {
            if let Ok(s2) = lower_local(st, l) {
                lemma_step_plain(st, s2, none);
            }
        },
    }
}

proof fn lemma_lbl_stmt(st: GenState, s: StmtView)
    requires
        0 <= st.lbl,
    ensures
        step_ok(st, lower_stmt(st, s), Set::empty()),
    decreases s, 0nat,
{
    match s {
        StmtView::Local(l) => lemma_lbl_local(st, l),
        StmtView::Expr(e) => lemma_lbl_expr(st, e, Mode::Value),
    }
}

proof fn lemma_lbl_block(st: GenState, b: Seq<StmtView>, from: int)
    requires
        0 <= st.lbl,
        0 <= from,
    ensures
        step_ok(st, lower_block(st, b, from), Set::empty()),
    decreases b, b.len() - from,
{
    let none = Set::<int>::empty();
    if from < b.len() {
        lemma_lbl_stmt(st, b[from]);
        if let Ok(next) = lower_stmt(st, b[from]) {
            lemma_lbl_block(next, b, from + 1);
            if let Ok(last) = lower_block(next, b, from + 1) {
                lemma_step_then(st, next, last, none);
            }
        }
    } else {
        lemma_step_plain(st, st, none);
    }
}

/// A state between statements: its instructions define exactly the labels
/// taken from the counter so far, each once, and jump only to those.
pub open spec fn closed(st: GenState) -> bool {
    &&& 0 <= st.lbl
    &&& segment(st.text, 0, label_range(0, st.lbl), label_range(0, st.lbl))
}

/// The state at the start of a unit is closed.
pub proof fn lemma_initial_closed()
    ensures
        closed(GenState::initial()),
{
}

/// Labels come from the one counter and are never used twice: lowering an
/// expression defines exactly the labels it takes from the counter, each
/// once, whatever was lowered before or is lowered around it, and jumps to no
/// other label.
pub proof fn lemma_expr_labels(st: GenState, e: ExprView, mode: Mode)
    requires
        0 <= st.lbl,
    ensures
        lower_expr(st, e, mode) matches Ok(after) ==> step(st, after, Set::empty()),
{
    lemma_lbl_expr(st, e, mode);
}

/// Lowering a condition defines exactly the labels it takes from the counter,
/// each once, and jumps to no label but those and its target.
pub proof fn lemma_cond_labels(st: GenState, e: ExprView, target: int)
    requires
        0 <= st.lbl,
        0 <= target <= LABEL_LIMIT,
    ensures
        lower_cond(st, e, target) matches Ok(after) ==> step(st, after, set![target]),
{
    lemma_lbl_cond(st, e, target);
}

/// Lowering a statement defines exactly the labels it takes from the counter,
/// each once, and jumps to no other label.
pub proof fn lemma_stmt_labels(st: GenState, s: StmtView)
    requires
        0 <= st.lbl,
    ensures
        lower_stmt(st, s) matches Ok(after) ==> step(st, after, Set::empty()),
{
    lemma_lbl_stmt(st, s);
}

/// Lowering a block defines exactly the labels it takes from the counter,
/// each once, and jumps to no other label.
pub proof fn lemma_block_labels(st: GenState, b: Seq<StmtView>)
    requires
        0 <= st.lbl,
    ensures
        lower_block(st, b, 0) matches Ok(after) ==> step(st, after, Set::empty()),
{
    lemma_lbl_block(st, b, 0);
}

/// A step from a closed state ends in a closed state.
pub proof fn lemma_step_keeps_closed(st: GenState, after: GenState)
    requires
        closed(st),
        step(st, after, Set::empty()),
    ensures
        closed(after),
{
    lemma_segment_compose(
        st.text,
        after.text,
        0,
        label_range(0, st.lbl),
        label_range(st.lbl, after.lbl),
        label_range(0, st.lbl),
        label_range(st.lbl, after.lbl) + Set::<int>::empty(),
    );
    lemma_segment_widen(
        after.text,
        0,
        label_range(0, st.lbl) + label_range(st.lbl, after.lbl),
        label_range(0, st.lbl) + (label_range(st.lbl, after.lbl) + Set::<int>::empty()),
        label_range(0, after.lbl),
        label_range(0, after.lbl),
    );
}

/// In the code of a whole unit every label below the final counter is
/// defined exactly once, and every jump goes to one of them.
pub proof fn lemma_unit_labels_closed(b: Seq<StmtView>)
    ensures
        lower_block(GenState::initial(), b, 0) matches Ok(after) ==> closed(after),
{
    lemma_lbl_block(GenState::initial(), b, 0);
    if let Ok(after) = lower_block(GenState::initial(), b, 0) {
        lemma_step_keeps_closed(GenState::initial(), after);
    }
}

/// In a closed state every jump has one landing place, and only one.
pub proof fn lemma_jump_lands_once(st: GenState, i: int)
    requires
        closed(st),
        0 <= i < st.text.len(),
        target_at(st.text, i) is Some,
    ensures
        exists|j: int|
            0 <= j < st.text.len() && #[trigger] label_at(st.text, j) == target_at(st.text, i)
                && forall|k: int|
                0 <= k < st.text.len() && #[trigger] label_at(st.text, k) == target_at(st.text, i)
                    ==> k == j,
{
    let l = target_at(st.text, i)->Some_0;
    assert(label_range(0, st.lbl).contains(l));
    let j = choose|j: int| 0 <= j < st.text.len() && #[trigger] label_at(st.text, j) == Some(l);
    assert forall|k: int|
        0 <= k < st.text.len() && #[trigger] label_at(st.text, k) == Some(l) implies k == j by {
        if k < j {
            assert(label_at(st.text, k) != label_at(st.text, j));
        } else if j < k {
            assert(label_at(st.text, j) != label_at(st.text, k));
        }
    }
}

} // verus!
