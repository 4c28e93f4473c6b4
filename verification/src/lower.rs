use vstd::prelude::*;
use crate::ast::{BiOpKind, ExprView, LocalView, StmtView, UnOpKind};
use crate::emit::printable_text;
use crate::opcode::{JmpKind, OpKind, Opcode};
use crate::register::Operand;
use crate::text::bounded_literal;

verus! {

/// The size in bytes of the one machine word that every scalar occupies.
pub const WORD: u64 = 8;

/// The deepest virtual stack that the generator tracks: every displacement
/// from the stack pointer must fit a signed word.
pub const STACK_LIMIT: u64 = 0x7fff_ffff_ffff_ffff;

/// The largest number literal: the largest signed word.
pub const LITERAL_MAX: u64 = 0x7fff_ffff_ffff_ffff;

/// The largest label number.
pub const LABEL_LIMIT: u64 = 0xffff_ffff_ffff_ffff;

/// Why code generation refused a program.
#[derive(Debug, Clone, Copy, PartialEq, Eq, Structural)]
pub enum ErrorKind {
    /// The source holds a byte that starts no token.
    Lexical,
    /// The tokens do not form a program.
    Syntax,
    /// A number literal is not a run of digits that fits a signed word.
    LiteralOverflow,
    /// An identifier is read or written before any declaration of it.
    IdentNotFound,
    /// An array size is not a run of digits, or the array does not fit the stack.
    InvalidArraySize,
    /// An address was asked of an expression that has none.
    NotAssignable,
    /// A comparison or a logical operator stands where a value is needed.
    ConditionAsValue,
    /// The condition of an `if` or `while` is not built from comparisons.
    InvalidCondition,
    /// The base of an index expression is not the name of a local.
    InvalidIndexBase,
    /// The expression has no lowering: a call.
    Unsupported,
    /// The virtual stack would exceed `STACK_LIMIT`.
    StackTooDeep,
    /// The label counter would exceed `LABEL_LIMIT`.
    TooManyLabels,
}

/// A refusal of the code generator.
#[derive(Debug, Clone, Copy, PartialEq, Eq, Structural)]
pub struct CompileError {
    pub kind: ErrorKind,
}

/// Whether an expression is lowered for its value or for its address.
#[derive(Debug, Clone, Copy, PartialEq, Eq, Structural)]
pub enum Mode {
    Value,
    Address,
}

/// The refusal of kind `kind`, as the result of a lowering step.
pub open spec fn fail(kind: ErrorKind) -> Result<GenState, CompileError> {
    Err(CompileError { kind })
}

/// The state that the generator carries through a compilation unit.
pub struct GenState {
    /// Bytes pushed since entry.
    pub rsp: int,
    /// The next unused label.
    pub lbl: int,
    /// The instructions emitted so far.
    pub text: Seq<Opcode>,
    /// The locals declared so far, oldest first, each with the stack depth at
    /// its declaration.
    pub locals: Seq<(Seq<char>, int)>,
}

/// The depth recorded by the latest declaration of `name` among `locals`.
pub open spec fn lookup_in(locals: Seq<(Seq<char>, int)>, name: Seq<char>) -> Option<int>
    decreases locals.len(),
{
    if locals.len() == 0 {
        None
    } else if locals.last().0 == name {
        Some(locals.last().1)
    } else {
        lookup_in(locals.drop_last(), name)
    }
}

/// The jump that is taken exactly when the comparison `kind` does not hold.
pub open spec fn negated_jump(kind: BiOpKind) -> JmpKind {
    match kind {
        BiOpKind::CmpEq => JmpKind::Jne,
        BiOpKind::CmpNe => JmpKind::Je,
        BiOpKind::CmpLt => JmpKind::Jge,
        BiOpKind::CmpLe => JmpKind::Jg,
        BiOpKind::CmpGt => JmpKind::Jle,
        _ => JmpKind::Jl,
    }
}

impl GenState {
    /// The state at the start of a compilation unit.
    pub open spec fn initial() -> GenState {
        GenState { rsp: 0, lbl: 0, text: Seq::empty(), locals: Seq::empty() }
    }

    /// The invariant of the generator: the counters and the recorded depths
    /// are within their limits, and every instruction emitted has a line in
    /// the listing.
    pub open spec fn wf(self) -> bool {
        &&& printable_text(self.text)
        &&& 0 <= self.rsp <= STACK_LIMIT
        &&& 0 <= self.lbl <= LABEL_LIMIT
        &&& forall|i: int|
            0 <= i < self.locals.len() ==> 0 <= (#[trigger] self.locals[i]).1 <= STACK_LIMIT
    }

    /// Appends one full-word instruction.
    pub open spec fn emit(self, kind: OpKind) -> GenState {
        GenState { text: self.text.push(Opcode::word(kind)), ..self }
    }

    /// Spills `operand`: one push, one word deeper.
    pub open spec fn push(self, operand: Operand) -> Result<GenState, CompileError> {
        if self.rsp + WORD > STACK_LIMIT {
            fail(ErrorKind::StackTooDeep)
        } else {
            Ok(GenState { rsp: self.rsp + WORD, ..self.emit(OpKind::Push(operand)) })
        }
    }

    /// Restores into `operand`: one pop, one word shallower.
    pub open spec fn pop(self, operand: Operand) -> GenState {
        GenState { rsp: self.rsp - WORD, ..self.emit(OpKind::Pop(operand)) }
    }

    /// Takes `n` labels from the counter; the first of them is `self.lbl`.
    pub open spec fn fresh(self, n: int) -> Result<GenState, CompileError> {
        if self.lbl + n > LABEL_LIMIT {
            fail(ErrorKind::TooManyLabels)
        } else {
            Ok(GenState { lbl: self.lbl + n, ..self })
        }
    }

    /// The depth at which `name` was last declared.
    pub open spec fn lookup(self, name: Seq<char>) -> Option<int> {
        lookup_in(self.locals, name)
    }

    /// Records `name` at the current depth.
    pub open spec fn declare(self, name: Seq<char>) -> GenState {
        GenState { locals: self.locals.push((name, self.rsp)), ..self }
    }

    /// Pushes `n` zeroed words.
    pub open spec fn reserve(self, n: int) -> GenState {
        GenState {
            rsp: self.rsp + WORD * n,
            text: self.text + Seq::new(
                n as nat,
                |i: int| Opcode::word(OpKind::Push(Operand::Immediate(0))),
            ),
            ..self
        }
    }

    /// Loads the local `name`, or its address, into the accumulator.
    pub open spec fn access(self, name: Seq<char>, mode: Mode) -> Result<GenState, CompileError> {
        match self.lookup(name) {
            None => fail(ErrorKind::IdentNotFound),
            Some(depth) => Ok(self.emit(slot_access(Operand::stack_slot(self.rsp - depth), mode))),
        }
    }

    /// Loads the element of the array `name` whose negated, scaled index is in
    /// the accumulator, or that element's address.
    pub open spec fn access_indexed(self, name: Seq<char>, mode: Mode) -> Result<
        GenState,
        CompileError,
    > {
        match self.lookup(name) {
            None => fail(ErrorKind::IdentNotFound),
            Some(depth) => Ok(
                self.emit(
                    OpKind::Add(Operand::spec_rax(), Operand::Immediate((self.rsp - depth) as i64)),
                ).emit(slot_access(Operand::spec_indexed(
                    crate::register::RegKind::SP,
                    crate::register::RegSize::R,
                    Operand::spec_rax(),
                ), mode)),
            ),
        }
    }
}

/// The instruction that brings `slot`, or its address, into the accumulator.
pub open spec fn slot_access(slot: Operand, mode: Mode) -> OpKind {
    match mode {
        Mode::Value => OpKind::Mov(Operand::spec_rax(), slot),
        Mode::Address => OpKind::Lea(Operand::spec_rax(), slot),
    }
}

/// After a step that succeeded, one more instruction; a refusal stays.
pub open spec fn then_emit(r: Result<GenState, CompileError>, kind: OpKind) -> Result<
    GenState,
    CompileError,
> {
    match r {
        Ok(st) => Ok(st.emit(kind)),
        Err(e) => Err(e),
    }
}

/// After a step that succeeded, a spill; a refusal stays.
pub open spec fn then_push(r: Result<GenState, CompileError>, operand: Operand) -> Result<
    GenState,
    CompileError,
> {
    match r {
        Ok(st) => st.push(operand),
        Err(e) => Err(e),
    }
}

/// After a step that succeeded, a restore; a refusal stays.
pub open spec fn then_pop(r: Result<GenState, CompileError>, operand: Operand) -> Result<
    GenState,
    CompileError,
> {
    match r {
        Ok(st) => Ok(st.pop(operand)),
        Err(e) => Err(e),
    }
}

/// After a step that succeeded, a declaration at the depth reached; a
/// refusal stays.
pub open spec fn then_declare(r: Result<GenState, CompileError>, name: Seq<char>) -> Result<
    GenState,
    CompileError,
> {
    match r {
        Ok(st) => Ok(st.declare(name)),
        Err(e) => Err(e),
    }
}

/// What the operator `kind` adds after both operands are evaluated: the left
/// one spilled, the right one in the accumulator.
pub open spec fn combine(st: GenState, kind: BiOpKind) -> GenState {
    let rax = Operand::spec_rax();
    let rdx = Operand::spec_rdx();
    let rcx = Operand::spec_rcx();
    match kind {
        BiOpKind::Add => st.pop(rdx).emit(OpKind::Add(rax, rdx)),
        BiOpKind::Sub => st.emit(OpKind::Mov(rdx, rax)).pop(rax).emit(OpKind::Sub(rax, rdx)),
        BiOpKind::Mul => st.pop(rdx).emit(OpKind::Mul(rdx)),
        BiOpKind::Div => st.emit(OpKind::Mov(rcx, rax)).pop(rax).emit(OpKind::Cdq).emit(
            OpKind::Div(rcx),
        ),
        BiOpKind::BiOr => st.pop(rdx).emit(OpKind::Or(rax, rdx)),
        BiOpKind::BiAnd => st.pop(rdx).emit(OpKind::And(rax, rdx)),
        _ => st,
    }
}

/// Whether `kind` computes a value from two values.
pub open spec fn is_arithmetic(kind: BiOpKind) -> bool {
    kind is Add || kind is Sub || kind is Mul || kind is Div || kind is BiOr || kind is BiAnd
}

/// Loads the number literal `text` into the accumulator.
pub open spec fn lower_number(st: GenState, text: Seq<char>) -> Result<GenState, CompileError> {
    match bounded_literal(text, LITERAL_MAX as int) {
        Some(v) => Ok(st.emit(OpKind::Mov(Operand::spec_rax(), Operand::Immediate(v as i64)))),
        None => fail(ErrorKind::LiteralOverflow),
    }
}

/// The lowering of an expression: the state after the instructions that leave
/// its value, or in `Mode::Address` its address, in the accumulator.
pub open spec fn lower_expr(st: GenState, e: ExprView, mode: Mode) -> Result<
    GenState,
    CompileError,
>
    decreases e, 1nat,
{
    match e {
        ExprView::Number(s) => if mode is Address {
            fail(ErrorKind::NotAssignable)
        } else {
            lower_number(st, s)
        },
        ExprView::Ident(name) => st.access(name, mode),
        ExprView::Index(_, _) => lower_index(st, e, mode),
        ExprView::UnOp(_, _) => lower_unop(st, e, mode),
        ExprView::BiOp(kind, _, _) => {
            if kind.is_comparison() || kind is BoOr || kind is BoAnd {
                fail(ErrorKind::ConditionAsValue)
            } else if mode is Address {
                fail(ErrorKind::NotAssignable)
            } else if kind is Assign {
                lower_assign(st, e)
            } else {
                lower_arith(st, e)
            }
        },
        ExprView::SubExpr(inner) => lower_expr(st, *inner, mode),
        ExprView::If(_, _, _) => if mode is Address {
            fail(ErrorKind::NotAssignable)
        } else {
            lower_if(st, e)
        },
        ExprView::While(_, _) => if mode is Address {
            fail(ErrorKind::NotAssignable)
        } else {
            lower_while(st, e)
        },
        ExprView::Call(_, _) => fail(ErrorKind::Unsupported),
    }
}

/// Array element access: the index is evaluated, scaled by the word size and
/// negated; the base local's displacement is added; the sum indexes the stack.
pub open spec fn lower_index(st: GenState, e: ExprView, mode: Mode) -> Result<
    GenState,
    CompileError,
>
    decreases e, 0nat,
{
    match e {
        ExprView::Index(base, index) => match lower_expr(st, *index, Mode::Value) {
            Err(err) => Err(err),
            Ok(st) => {
                let st = st.emit(OpKind::Mov(Operand::spec_rdx(), Operand::Immediate(8))).emit(
                    OpKind::Mul(Operand::spec_rdx()),
                ).emit(OpKind::Neg(Operand::spec_rax()));
                match *base {
                    ExprView::Ident(name) => st.access_indexed(name, mode),
                    _ => fail(ErrorKind::InvalidIndexBase),
                }
            },
        },
        _ => Ok(st),
    }
}

/// A prefix operator: negation and complement work on the accumulator in
/// place; address-of lowers its operand for its address; dereference loads
/// through the operand's value, or, asked for an address, yields that value.
pub open spec fn lower_unop(st: GenState, e: ExprView, mode: Mode) -> Result<
    GenState,
    CompileError,
>
    decreases e, 0nat,
{
    let rax = Operand::spec_rax();
    match e {
        ExprView::UnOp(kind, child) => match kind {
            UnOpKind::Neg => if mode is Address {
                fail(ErrorKind::NotAssignable)
            } else {
                then_emit(lower_expr(st, *child, Mode::Value), OpKind::Neg(rax))
            },
            UnOpKind::Not => if mode is Address {
                fail(ErrorKind::NotAssignable)
            } else {
                then_emit(lower_expr(st, *child, Mode::Value), OpKind::Not(rax))
            },
            UnOpKind::Ref => if mode is Address {
                fail(ErrorKind::NotAssignable)
            } else {
                lower_expr(st, *child, Mode::Address)
            },
            UnOpKind::Deref => if mode is Address {
                lower_expr(st, *child, Mode::Value)
            } else {
                then_emit(
                    lower_expr(st, *child, Mode::Value),
                    OpKind::Mov(rax, Operand::through_rax()),
                )
            },
        },
        _ => Ok(st),
    }
}

/// Assignment: the right side is evaluated and spilled, the left side's
/// address computed, the value popped and stored through the address. The
/// stored value is the value of the assignment.
pub open spec fn lower_assign(st: GenState, e: ExprView) -> Result<GenState, CompileError>
    decreases e, 0nat,
{
    let rax = Operand::spec_rax();
    let rdx = Operand::spec_rdx();
    match e {
        ExprView::BiOp(_, a, b) => match then_push(lower_expr(st, *b, Mode::Value), rax) {
            Err(err) => Err(err),
            Ok(st) => {
                let r = then_pop(lower_expr(st, *a, Mode::Address), rdx);
                let r = then_emit(r, OpKind::Mov(Operand::through_rax(), rdx));
                then_emit(r, OpKind::Mov(rax, rdx))
            },
        },
        _ => Ok(st),
    }
}

/// Arithmetic: the left operand is evaluated and spilled, the right operand
/// evaluated, and the operator applied between the two.
pub open spec fn lower_arith(st: GenState, e: ExprView) -> Result<GenState, CompileError>
    decreases e, 0nat,
{
    match e {
        ExprView::BiOp(kind, a, b) => match then_push(
            lower_expr(st, *a, Mode::Value),
            Operand::spec_rax(),
        ) {
            Err(err) => Err(err),
            Ok(st) => match lower_expr(st, *b, Mode::Value) {
                Err(err) => Err(err),
                Ok(st) => Ok(combine(st, kind)),
            },
        },
        _ => Ok(st),
    }
}

/// `if`: without an `else`, one label, defined after the block; the condition
/// jumps there when false. With an `else`, two labels, taken together before
/// anything is lowered: the condition jumps to the first, which is defined
/// before the `else` block; the first block ends in a jump to the second,
/// which is defined at the end.
pub open spec fn lower_if(st: GenState, e: ExprView) -> Result<GenState, CompileError>
    decreases e, 0nat,
{
    match e {
        ExprView::If(cond, on_true, None) => {
            let skip = st.lbl;
            match st.fresh(1) {
                Err(err) => Err(err),
                Ok(st) => match lower_cond(st, *cond, skip) {
                    Err(err) => Err(err),
                    Ok(st) => then_emit(lower_block(st, on_true, 0), OpKind::Lbl(skip as u64)),
                },
            }
        },
        ExprView::If(cond, on_true, Some(on_false)) => {
            let otherwise = st.lbl;
            let end = st.lbl + 1;
            match st.fresh(2) {
                Err(err) => Err(err),
                Ok(st) => match lower_cond(st, *cond, otherwise) {
                    Err(err) => Err(err),
                    Ok(st) => match lower_block(st, on_true, 0) {
                        Err(err) => Err(err),
                        Ok(st) => {
                            let st = st.emit(OpKind::Jmp(JmpKind::Jmp, end as u64)).emit(
                                OpKind::Lbl(otherwise as u64),
                            );
                            then_emit(lower_block(st, on_false, 0), OpKind::Lbl(end as u64))
                        },
                    },
                },
            }
        },
        _ => Ok(st),
    }
}

/// `while`: two labels, taken together before anything is lowered. The first
/// is defined at the top; the condition jumps to the second when false; the
/// body ends in a jump to the first; the second is defined at the end.
pub open spec fn lower_while(st: GenState, e: ExprView) -> Result<GenState, CompileError>
    decreases e, 0nat,
{
    match e {
        ExprView::While(cond, body) => {
            let top = st.lbl;
            let end = st.lbl + 1;
            match st.fresh(2) {
                Err(err) => Err(err),
                Ok(st) => match lower_cond(st.emit(OpKind::Lbl(top as u64)), *cond, end) {
                    Err(err) => Err(err),
                    Ok(st) => {
                        let r = then_emit(
                            lower_block(st, body, 0),
                            OpKind::Jmp(JmpKind::Jmp, top as u64),
                        );
                        then_emit(r, OpKind::Lbl(end as u64))
                    },
                },
            }
        },
        _ => Ok(st),
    }
}

/// The lowering of a condition: the state after the instructions that jump to
/// the label `target` when the condition is false and fall through when it is
/// true. Only comparisons, the two logical operators over conditions, and
/// parentheses around a condition are conditions.
pub open spec fn lower_cond(st: GenState, e: ExprView, target: int) -> Result<
    GenState,
    CompileError,
>
    decreases e, 1nat,
{
    match e {
        ExprView::BiOp(kind, a, b) => {
            if kind.is_comparison() {
                lower_comparison(st, e, target)
            } else if kind is BoAnd {
                match lower_cond(st, *a, target) {
                    Err(err) => Err(err),
                    Ok(st) => lower_cond(st, *b, target),
                }
            } else if kind is BoOr {
                lower_either(st, e, target)
            } else {
                fail(ErrorKind::InvalidCondition)
            }
        },
        ExprView::SubExpr(inner) => lower_cond(st, *inner, target),
        _ => fail(ErrorKind::InvalidCondition),
    }
}

/// A comparison in a condition: both operands are evaluated, compared, and a
/// jump on the negated comparison leaves for `target`.
pub open spec fn lower_comparison(st: GenState, e: ExprView, target: int) -> Result<
    GenState,
    CompileError,
>
    decreases e, 0nat,
{
    let rax = Operand::spec_rax();
    let rdx = Operand::spec_rdx();
    match e {
        ExprView::BiOp(kind, a, b) => match then_push(lower_expr(st, *a, Mode::Value), rax) {
            Err(err) => Err(err),
            Ok(st) => match lower_expr(st, *b, Mode::Value) {
                Err(err) => Err(err),
                Ok(st) => Ok(
                    st.emit(OpKind::Mov(rdx, rax)).pop(rax).emit(OpKind::Cmp(rax, rdx)).emit(
                        OpKind::Jmp(negated_jump(kind), target as u64),
                    ),
                ),
            },
        },
        _ => Ok(st),
    }
}

/// Logical or, short-circuited: two labels. When the left condition is false
/// control goes to the first label, where the right condition is tried with
/// the outer target; when it is true, a jump skips the right condition to the
/// second label.
pub open spec fn lower_either(st: GenState, e: ExprView, target: int) -> Result<
    GenState,
    CompileError,
>
    decreases e, 0nat,
{
    match e {
        ExprView::BiOp(_, a, b) => {
            let second = st.lbl;
            let holds = st.lbl + 1;
            match st.fresh(2) {
                Err(err) => Err(err),
                Ok(st) => match lower_cond(st, *a, second) {
                    Err(err) => Err(err),
                    Ok(st) => {
                        let st = st.emit(OpKind::Jmp(JmpKind::Jmp, holds as u64)).emit(
                            OpKind::Lbl(second as u64),
                        );
                        then_emit(lower_cond(st, *b, target), OpKind::Lbl(holds as u64))
                    },
                },
            }
        },
        _ => Ok(st),
    }
}

/// The lowering of a local declaration: storage is pushed, then the name is
/// recorded at the depth reached. An initialiser's value is the storage; an
/// array reserves as many zeroed words as its size says; a bare scalar
/// reserves one.
pub open spec fn lower_local(st: GenState, l: LocalView) -> Result<GenState, CompileError>
    decreases l, 0nat,
{
    match l.value {
        Some(e) => then_declare(
            then_push(lower_expr(st, e, Mode::Value), Operand::spec_rax()),
            l.name,
        ),
        None => match l.size {
            Some(size) => match bounded_literal(size, (STACK_LIMIT - st.rsp) / 8) {
                Some(n) => Ok(st.reserve(n).declare(l.name)),
                None => fail(ErrorKind::InvalidArraySize),
            },
            None => then_declare(st.push(Operand::Immediate(0)), l.name),
        },
    }
}

/// The lowering of a statement.
pub open spec fn lower_stmt(st: GenState, s: StmtView) -> Result<GenState, CompileError>
    decreases s, 0nat,
{
    match s {
        StmtView::Local(l) => lower_local(st, l),
        StmtView::Expr(e) => lower_expr(st, e, Mode::Value),
    }
}

/// The lowering of the statements of `b` from index `from` on, in order.
pub open spec fn lower_block(st: GenState, b: Seq<StmtView>, from: int) -> Result<
    GenState,
    CompileError,
>
    decreases b, b.len() - from,
{
    if 0 <= from < b.len() {
        match lower_stmt(st, b[from]) {
            Ok(next) => lower_block(next, b, from + 1),
            Err(e) => Err(e),
        }
    } else {
        Ok(st)
    }
}

} // verus!
