use vstd::prelude::*;
use crate::ast::{block_view, BiOpKind, Block, Expr, Local, Stmt, UnOpKind};
use crate::balance::grows;
use crate::emit::printable_text;
use crate::labels::{closed, lemma_unit_labels_closed};
use crate::lower::{
    combine, is_arithmetic, lookup_in, lower_arith, lower_assign, lower_block, lower_comparison,
    lower_cond, lower_either, lower_expr, lower_if, lower_index, lower_local, lower_number,
    lower_stmt, lower_unop, lower_while, negated_jump, CompileError, ErrorKind, GenState, Mode,
    LABEL_LIMIT, LITERAL_MAX, STACK_LIMIT, WORD,
};
use crate::opcode::{JmpKind, LabelId, OpKind, Opcode};
use crate::register::{Operand, RegKind, RegSize};
use crate::text::parse_literal;

verus! {

impl CompileError {
    pub fn new(kind: ErrorKind) -> (e: CompileError)
        ensures
            e.kind == kind,
    {
        CompileError { kind }
    }

    /// The sentence that goes with each kind of refusal.
    pub open spec fn message_text(kind: ErrorKind) -> Seq<char> {
        match kind {
            ErrorKind::Lexical => "unknown symbol"@,
            ErrorKind::Syntax => "unexpected token"@,
            ErrorKind::LiteralOverflow => "Number too big"@,
            ErrorKind::IdentNotFound => "Ident: not found"@,
            ErrorKind::InvalidArraySize => "invalid array size"@,
            ErrorKind::NotAssignable => "expression has no address"@,
            ErrorKind::ConditionAsValue => "comparison used as a value"@,
            ErrorKind::InvalidCondition => "invalid cmp for jmp"@,
            ErrorKind::InvalidIndexBase => "index base is not a local"@,
            ErrorKind::Unsupported => "calls are not supported"@,
            ErrorKind::StackTooDeep => "stack too deep"@,
            ErrorKind::TooManyLabels => "too many labels"@,
        }
    }

    /// A sentence for the person who wrote the program.
    pub fn message(&self) -> (s: &'static str)
        ensures
            s@ == CompileError::message_text(self.kind),
    {
        match self.kind {
            ErrorKind::Lexical => "unknown symbol",
            ErrorKind::Syntax => "unexpected token",
            ErrorKind::LiteralOverflow => "Number too big",
            ErrorKind::IdentNotFound => "Ident: not found",
            ErrorKind::InvalidArraySize => "invalid array size",
            ErrorKind::NotAssignable => "expression has no address",
            ErrorKind::ConditionAsValue => "comparison used as a value",
            ErrorKind::InvalidCondition => "invalid cmp for jmp",
            ErrorKind::InvalidIndexBase => "index base is not a local",
            ErrorKind::Unsupported => "calls are not supported",
            ErrorKind::StackTooDeep => "stack too deep",
            ErrorKind::TooManyLabels => "too many labels",
        }
    }
}

impl BiOpKind {
    /// The jump that leaves a condition when this comparison does not hold.
    pub fn to_jmp(&self) -> (r: Result<JmpKind, CompileError>)
        ensures
            self.is_comparison() ==> r == Ok::<JmpKind, CompileError>(negated_jump(*self)),
            !self.is_comparison() ==> r == Err::<JmpKind, CompileError>(
                CompileError { kind: ErrorKind::InvalidCondition },
            ),
    {
        match self {
            BiOpKind::CmpEq => Ok(JmpKind::Jne),
            BiOpKind::CmpNe => Ok(JmpKind::Je),
            BiOpKind::CmpLt => Ok(JmpKind::Jge),
            BiOpKind::CmpLe => Ok(JmpKind::Jg),
            BiOpKind::CmpGt => Ok(JmpKind::Jle),
            BiOpKind::CmpGe => Ok(JmpKind::Jl),
            _ => Err(CompileError::new(ErrorKind::InvalidCondition)),
        }
    }
}

/// One entry of the symbol table.
pub struct Symbol {
    pub name: String,
    pub offset: u64,
}

/// The finished instruction list of a compilation unit, with the stack space
/// that its locals and spills reserve and the number of labels it uses.
#[derive(Debug, PartialEq, Eq)]
pub struct Program {
    pub text: Vec<Opcode>,
    pub stack_size: u64,
    pub labels: u64,
}

/// The code generator: walks statements and appends target instructions,
/// tracking the virtual stack depth, the locals and the label counter.
pub struct Compiler {
    rsp: u64,
    lbl: u64,
    text: Vec<Opcode>,
    locals: Vec<Symbol>,
}

impl Compiler {
    pub closed spec fn view(&self) -> GenState {
        GenState {
            rsp: self.rsp as int,
            lbl: self.lbl as int,
            text: self.text@,
            locals: Seq::new(
                self.locals.len() as nat,
                |i: int| (self.locals[i].name@, self.locals[i].offset as int),
            ),
        }
    }

    pub fn new() -> (c: Self)
        ensures
            c@ == GenState::initial(),
            c@.wf(),
    {
        let c = Self { rsp: 0, lbl: 0, text: Vec::new(), locals: Vec::new() };
        assert(c@.locals =~= Seq::empty());
        c
    }

    /// Bytes pushed since entry.
    pub fn stack_depth(&self) -> (d: u64)
        ensures
            d == self@.rsp,
    {
        self.rsp
    }

    /// The next unused label.
    pub fn next_label(&self) -> (l: LabelId)
        ensures
            l == self@.lbl,
    {
        self.lbl
    }

    /// The number of declarations recorded.
    pub fn symbol_count(&self) -> (n: usize)
        ensures
            n == self@.locals.len(),
    {
        self.locals.len()
    }

    /// The instructions emitted so far.
    pub fn text(&self) -> (t: &Vec<Opcode>)
        ensures
            t@ == self@.text,
    {
        &self.text
    }

    /// Ends the unit: the instructions, the stack depth reached, and the
    /// number of labels taken.
    pub fn finish(self) -> (p: Program)
        ensures
            p.text@ == self@.text,
            p.stack_size == self@.rsp,
            p.labels == self@.lbl,
            self@.wf() ==> printable_text(p.text@),
    {
        Program { text: self.text, stack_size: self.rsp, labels: self.lbl }
    }

    /// The depth at which `name` was last declared.
    pub fn offset_of(&self, name: &str) -> (r: Option<u64>)
        requires
            self@.wf(),
        ensures
            match self@.lookup(name@) {
                Some(d) => r == Some(d as u64),
                None => r is None,
            },
    {
        let key = name.to_owned();
        let ghost locals = self@.locals;
        let mut i = self.locals.len();
        assert(locals.take(i as int) =~= locals);
        while i > 0
            invariant
                i <= self.locals.len(),
                key@ == name@,
                locals == self@.locals,
                lookup_in(locals, name@) == lookup_in(locals.take(i as int), name@),
            decreases i,
        {
            i -= 1;
            proof {
                let t = locals.take(i + 1);
                assert(t.drop_last() =~= locals.take(i as int));
                assert(t.last() == locals[i as int]);
            }
            if self.locals[i].name == key {
                return Some(self.locals[i].offset);
            }
        }
        assert(locals.take(0).len() == 0);
        None
    }

    fn emit(&mut self, kind: OpKind)
        ensures
            final(self)@ == old(self)@.emit(kind),
    {
        self.text.push(Opcode::u64(kind));
        assert(final(self)@.locals =~= old(self)@.locals);
    }

    fn fresh(&mut self, n: u64) -> (res: Result<LabelId, CompileError>)
        requires
            old(self)@.wf(),
        ensures
            final(self)@.wf(),
            grows(old(self)@, final(self)@),
            match res {
                Ok(first) => old(self)@.fresh(n as int) == Ok::<GenState, CompileError>(
                    final(self)@,
                ) && first == old(self)@.lbl,
                Err(e) => old(self)@.fresh(n as int) == Err::<GenState, CompileError>(e),
            },
    {
        if n > LABEL_LIMIT - self.lbl {
            return Err(CompileError::new(ErrorKind::TooManyLabels));
        }
        let first = self.lbl;
        self.lbl = self.lbl + n;
        assert(final(self)@.locals =~= old(self)@.locals);
        Ok(first)
    }

    fn declare(&mut self, name: &str)
        requires
            old(self)@.wf(),
        ensures
            final(self)@ == old(self)@.declare(name@),
            final(self)@.wf(),
    {
        self.locals.push(Symbol { name: name.to_owned(), offset: self.rsp });
        assert(final(self)@.locals =~= old(self)@.locals.push((name@, old(self)@.rsp)));
    }

    /// Spills `operand` onto the stack.
    pub fn push(&mut self, operand: Operand) -> (res: Result<(), CompileError>)
        requires
            old(self)@.wf(),
            operand.printable(),
        ensures
            final(self)@.wf(),
            grows(old(self)@, final(self)@),
            match res {
                Ok(()) => old(self)@.push(operand) == Ok::<GenState, CompileError>(final(self)@),
                Err(e) => old(self)@.push(operand) == Err::<GenState, CompileError>(e),
            },
    {
        if self.rsp > STACK_LIMIT - WORD {
            return Err(CompileError::new(ErrorKind::StackTooDeep));
        }
        self.text.push(Opcode::u64(OpKind::Push(operand)));
        self.rsp += 8;
        assert(final(self)@.locals =~= old(self)@.locals);
        Ok(())
    }

    /// Restores the latest spill into `operand`.
    pub fn pop(&mut self, operand: Operand)
        requires
            old(self)@.wf(),
            operand.printable(),
            old(self)@.rsp >= WORD,
        ensures
            final(self)@ == old(self)@.pop(operand),
            final(self)@.wf(),
    {
        self.text.push(Opcode::u64(OpKind::Pop(operand)));
        self.rsp -= 8;
        assert(final(self)@.locals =~= old(self)@.locals);
    }

    #[inline]
    pub fn push_rax(&mut self) -> (res: Result<(), CompileError>)
        requires
            old(self)@.wf(),
        ensures
            final(self)@.wf(),
            grows(old(self)@, final(self)@),
            match res {
                Ok(()) => old(self)@.push(Operand::spec_rax()) == Ok::<GenState, CompileError>(
                    final(self)@,
                ),
                Err(e) => old(self)@.push(Operand::spec_rax()) == Err::<GenState, CompileError>(e),
            },
    {
        self.push(Operand::rax())
    }

    #[inline]
    pub fn pop_rax(&mut self)
        requires
            old(self)@.wf(),
            old(self)@.rsp >= WORD,
        ensures
            final(self)@ == old(self)@.pop(Operand::spec_rax()),
            final(self)@.wf(),
    {
        self.pop(Operand::rax())
    }

    #[inline]
    pub fn pop_rdx(&mut self)
        requires
            old(self)@.wf(),
            old(self)@.rsp >= WORD,
        ensures
            final(self)@ == old(self)@.pop(Operand::spec_rdx()),
            final(self)@.wf(),
    {
        self.pop(Operand::rdx())
    }

    fn access(&mut self, name: &str, mode: Mode) -> (res: Result<(), CompileError>)
        requires
            old(self)@.wf(),
        ensures
            final(self)@.wf(),
            grows(old(self)@, final(self)@),
            match res {
                Ok(()) => old(self)@.access(name@, mode) == Ok::<GenState, CompileError>(
                    final(self)@,
                ) && final(self)@.rsp == old(self)@.rsp,
                Err(e) => old(self)@.access(name@, mode) == Err::<GenState, CompileError>(e),
            },
    {
        let depth = match self.offset_of(name) {
            Some(d) => d,
            None => {
                return Err(CompileError::new(ErrorKind::IdentNotFound));
            },
        };
        proof {
            lemma_lookup_bounded(self@, name@);
        }
        let disp: i64 = self.rsp as i64 - depth as i64;
        let slot = Operand::indexed(RegKind::SP, RegSize::R, Operand::immediate(disp));
        match mode {
            Mode::Value => self.emit(OpKind::Mov(Operand::rax(), slot)),
            Mode::Address => self.emit(OpKind::Lea(Operand::rax(), slot)),
        }
        Ok(())
    }

    fn access_indexed(&mut self, name: &str, mode: Mode) -> (res: Result<(), CompileError>)
        requires
            old(self)@.wf(),
        ensures
            final(self)@.wf(),
            grows(old(self)@, final(self)@),
            match res {
                Ok(()) => old(self)@.access_indexed(name@, mode) == Ok::<GenState, CompileError>(
                    final(self)@,
                ) && final(self)@.rsp == old(self)@.rsp,
                Err(e) => old(self)@.access_indexed(name@, mode) == Err::<GenState, CompileError>(
                    e,
                ),
            },
    {
        let depth = match self.offset_of(name) {
            Some(d) => d,
            None => {
                return Err(CompileError::new(ErrorKind::IdentNotFound));
            },
        };
        proof {
            lemma_lookup_bounded(self@, name@);
        }
        let disp: i64 = self.rsp as i64 - depth as i64;
        self.emit(OpKind::Add(Operand::rax(), Operand::immediate(disp)));
        let slot = Operand::indexed(RegKind::SP, RegSize::R, Operand::rax());
        match mode {
            Mode::Value => self.emit(OpKind::Mov(Operand::rax(), slot)),
            Mode::Address => self.emit(OpKind::Lea(Operand::rax(), slot)),
        }
        Ok(())
    }

    /// Loads the number literal `text` into the accumulator.
    pub fn compile_number(&mut self, text: &str) -> (res: Result<(), CompileError>)
        requires
            old(self)@.wf(),
        ensures
            final(self)@.wf(),
            grows(old(self)@, final(self)@),
            match res {
                Ok(()) => lower_number(old(self)@, text@) == Ok::<GenState, CompileError>(
                    final(self)@,
                ) && final(self)@.rsp == old(self)@.rsp,
                Err(e) => lower_number(old(self)@, text@) == Err::<GenState, CompileError>(e),
            },
    {
        match parse_literal(text, LITERAL_MAX) {
            Some(v) => {
                self.emit(OpKind::Mov(Operand::rax(), Operand::immediate(v as i64)));
                Ok(())
            },
            None => Err(CompileError::new(ErrorKind::LiteralOverflow)),
        }
    }

    fn combine(&mut self, kind: BiOpKind)
        requires
            old(self)@.wf(),
            old(self)@.rsp >= WORD,
            is_arithmetic(kind),
        ensures
            final(self)@ == combine(old(self)@, kind),
            final(self)@.wf(),
            final(self)@.rsp == old(self)@.rsp - WORD,
    {
        match kind {
            BiOpKind::Add => {
                self.pop_rdx();
                self.emit(OpKind::Add(Operand::rax(), Operand::rdx()));
            },
            BiOpKind::Sub => {
                self.emit(OpKind::Mov(Operand::rdx(), Operand::rax()));
                self.pop_rax();
                self.emit(OpKind::Sub(Operand::rax(), Operand::rdx()));
            },
            BiOpKind::Mul => {
                self.pop_rdx();
                self.emit(OpKind::Mul(Operand::rdx()));
            },
            BiOpKind::Div => {
                self.emit(OpKind::Mov(Operand::rcx(), Operand::rax()));
                self.pop_rax();
                self.emit(OpKind::Cdq);
                self.emit(OpKind::Div(Operand::rcx()));
            },
            BiOpKind::BiOr => {
                self.pop_rdx();
                self.emit(OpKind::Or(Operand::rax(), Operand::rdx()));
            },
            _ => {
                self.pop_rdx();
                self.emit(OpKind::And(Operand::rax(), Operand::rdx()));
            },
        }
    }

    /// Appends the instructions that leave the value of `expr`, or in
    /// `Mode::Address` its address, in the accumulator.
    pub fn compile_expr(&mut self, expr: &Expr<'_>, mode: Mode) -> (res: Result<(), CompileError>)
        requires
            old(self)@.wf(),
        ensures
            final(self)@.wf(),
            grows(old(self)@, final(self)@),
            match res {
                Ok(()) => lower_expr(old(self)@, expr@, mode) == Ok::<GenState, CompileError>(
                    final(self)@,
                ),
                Err(e) => lower_expr(old(self)@, expr@, mode) == Err::<GenState, CompileError>(e),
            },
        decreases expr, 1nat,
    {
        match expr {
            Expr::Number(s) => {
                match mode {
                    Mode::Address => Err(CompileError::new(ErrorKind::NotAssignable)),
                    Mode::Value => self.compile_number(s),
                }
            },
            Expr::Ident(name) => self.access(name, mode),
            Expr::Index(_) => self.compile_index(expr, mode),
            Expr::UnOp(_) => self.compile_unop(expr, mode),
            Expr::BiOp(x) => {
                match x.kind {
                    BiOpKind::CmpEq | BiOpKind::CmpNe | BiOpKind::CmpLt | BiOpKind::CmpGt
                    | BiOpKind::CmpLe | BiOpKind::CmpGe | BiOpKind::BoOr | BiOpKind::BoAnd => {
                        Err(CompileError::new(ErrorKind::ConditionAsValue))
                    },
                    BiOpKind::Assign => {
                        match mode {
                            Mode::Address => Err(CompileError::new(ErrorKind::NotAssignable)),
                            Mode::Value => self.compile_assign(expr),
                        }
                    },
                    _ => {
                        match mode {
                            Mode::Address => Err(CompileError::new(ErrorKind::NotAssignable)),
                            Mode::Value => self.compile_arith(expr),
                        }
                    },
                }
            },
            Expr::SubExpr(inner) => self.compile_expr(inner, mode),
            Expr::If(_) => {
                match mode {
                    Mode::Address => Err(CompileError::new(ErrorKind::NotAssignable)),
                    Mode::Value => self.compile_if(expr),
                }
            },
            Expr::While(_) => {
                match mode {
                    Mode::Address => Err(CompileError::new(ErrorKind::NotAssignable)),
                    Mode::Value => self.compile_while(expr),
                }
            },
            Expr::Call(_) => Err(CompileError::new(ErrorKind::Unsupported)),
        }
    }

    fn compile_index(&mut self, expr: &Expr<'_>, mode: Mode) -> (res: Result<(), CompileError>)
        requires
            old(self)@.wf(),
            expr is Index,
        ensures
            final(self)@.wf(),
            grows(old(self)@, final(self)@),
            match res {
                Ok(()) => lower_index(old(self)@, expr@, mode) == Ok::<GenState, CompileError>(
                    final(self)@,
                ),
                Err(e) => lower_index(old(self)@, expr@, mode) == Err::<GenState, CompileError>(e),
            },
        decreases expr, 0nat,
    {
        proof {
            reveal_with_fuel(Expr::view, 2);
        }
        match expr {
            Expr::Index(x) => {
                self.compile_expr(&x.index, Mode::Value)?;
                self.emit(OpKind::Mov(Operand::rdx(), Operand::immediate(8)));
                self.emit(OpKind::Mul(Operand::rdx()));
                self.emit(OpKind::Neg(Operand::rax()));
                match &x.base {
                    Expr::Ident(name) => self.access_indexed(name, mode),
                    _ => Err(CompileError::new(ErrorKind::InvalidIndexBase)),
                }
            },
            _ => Ok(()),
        }
    }

    fn compile_unop(&mut self, expr: &Expr<'_>, mode: Mode) -> (res: Result<(), CompileError>)
        requires
            old(self)@.wf(),
            expr is UnOp,
        ensures
            final(self)@.wf(),
            grows(old(self)@, final(self)@),
            match res {
                Ok(()) => lower_unop(old(self)@, expr@, mode) == Ok::<GenState, CompileError>(
                    final(self)@,
                ),
                Err(e) => lower_unop(old(self)@, expr@, mode) == Err::<GenState, CompileError>(e),
            },
        decreases expr, 0nat,
    {
        match expr {
            Expr::UnOp(x) => {
                match x.kind {
                    UnOpKind::Neg => {
                        match mode {
                            Mode::Address => Err(CompileError::new(ErrorKind::NotAssignable)),
                            Mode::Value => {
                                self.compile_expr(&x.child, Mode::Value)?;
                                self.emit(OpKind::Neg(Operand::rax()));
                                Ok(())
                            },
                        }
                    },
                    UnOpKind::Not => {
                        match mode {
                            Mode::Address => Err(CompileError::new(ErrorKind::NotAssignable)),
                            Mode::Value => {
                                self.compile_expr(&x.child, Mode::Value)?;
                                self.emit(OpKind::Not(Operand::rax()));
                                Ok(())
                            },
                        }
                    },
                    UnOpKind::Ref => {
                        match mode {
                            Mode::Address => Err(CompileError::new(ErrorKind::NotAssignable)),
                            Mode::Value => self.compile_expr(&x.child, Mode::Address),
                        }
                    },
                    UnOpKind::Deref => {
                        self.compile_expr(&x.child, Mode::Value)?;
                        match mode {
                            Mode::Address => {},
                            Mode::Value => {
                                self.emit(
                                    OpKind::Mov(
                                        Operand::rax(),
                                        Operand::indexed(
                                            RegKind::A,
                                            RegSize::R,
                                            Operand::immediate(0),
                                        ),
                                    ),
                                );
                            },
                        }
                        Ok(())
                    },
                }
            },
            _ => Ok(()),
        }
    }

    fn compile_assign(&mut self, expr: &Expr<'_>) -> (res: Result<(), CompileError>)
        requires
            old(self)@.wf(),
            expr is BiOp,
        ensures
            final(self)@.wf(),
            grows(old(self)@, final(self)@),
            match res {
                Ok(()) => lower_assign(old(self)@, expr@) == Ok::<GenState, CompileError>(
                    final(self)@,
                ),
                Err(e) => lower_assign(old(self)@, expr@) == Err::<GenState, CompileError>(e),
            },
        decreases expr, 0nat,
    {
        match expr {
            Expr::BiOp(x) => {
                self.compile_expr(&x.children.1, Mode::Value)?;
                self.push_rax()?;
                self.compile_expr(&x.children.0, Mode::Address)?;
                self.pop_rdx();
                self.emit(
                    OpKind::Mov(
                        Operand::indexed(RegKind::A, RegSize::R, Operand::immediate(0)),
                        Operand::rdx(),
                    ),
                );
                self.emit(OpKind::Mov(Operand::rax(), Operand::rdx()));
                Ok(())
            },
            _ => Ok(()),
        }
    }

    fn compile_arith(&mut self, expr: &Expr<'_>) -> (res: Result<(), CompileError>)
        requires
            old(self)@.wf(),
            expr matches Expr::BiOp(x) && is_arithmetic(x.kind),
        ensures
            final(self)@.wf(),
            grows(old(self)@, final(self)@),
            match res {
                Ok(()) => lower_arith(old(self)@, expr@) == Ok::<GenState, CompileError>(
                    final(self)@,
                ),
                Err(e) => lower_arith(old(self)@, expr@) == Err::<GenState, CompileError>(e),
            },
        decreases expr, 0nat,
    {
        match expr {
            Expr::BiOp(x) => {
                self.compile_expr(&x.children.0, Mode::Value)?;
                self.push_rax()?;
                self.compile_expr(&x.children.1, Mode::Value)?;
                self.combine(x.kind);
                Ok(())
            },
            _ => Ok(()),
        }
    }

    fn compile_if(&mut self, expr: &Expr<'_>) -> (res: Result<(), CompileError>)
        requires
            old(self)@.wf(),
            expr is If,
        ensures
            final(self)@.wf(),
            grows(old(self)@, final(self)@),
            match res {
                Ok(()) => lower_if(old(self)@, expr@) == Ok::<GenState, CompileError>(
                    final(self)@,
                ),
                Err(e) => lower_if(old(self)@, expr@) == Err::<GenState, CompileError>(e),
            },
        decreases expr, 0nat,
    {
        match expr {
            Expr::If(x) => {
                match &x.on_false {
                    None => {
                        let skip = self.fresh(1)?;
                        self.compile_cond(&x.condition, skip)?;
                        self.compile_block(&x.on_true)?;
                        self.emit(OpKind::Lbl(skip));
                        Ok(())
                    },
                    Some(on_false) => {
                        let otherwise = self.fresh(2)?;
                        let end = otherwise + 1;
                        self.compile_cond(&x.condition, otherwise)?;
                        self.compile_block(&x.on_true)?;
                        self.emit(OpKind::Jmp(JmpKind::Jmp, end));
                        self.emit(OpKind::Lbl(otherwise));
                        self.compile_block(on_false)?;
                        self.emit(OpKind::Lbl(end));
                        Ok(())
                    },
                }
            },
            _ => Ok(()),
        }
    }

    fn compile_while(&mut self, expr: &Expr<'_>) -> (res: Result<(), CompileError>)
        requires
            old(self)@.wf(),
            expr is While,
        ensures
            final(self)@.wf(),
            grows(old(self)@, final(self)@),
            match res {
                Ok(()) => lower_while(old(self)@, expr@) == Ok::<GenState, CompileError>(
                    final(self)@,
                ),
                Err(e) => lower_while(old(self)@, expr@) == Err::<GenState, CompileError>(e),
            },
        decreases expr, 0nat,
    {
        match expr {
            Expr::While(x) => {
                let top = self.fresh(2)?;
                let end = top + 1;
                self.emit(OpKind::Lbl(top));
                self.compile_cond(&x.condition, end)?;
                self.compile_block(&x.body)?;
                self.emit(OpKind::Jmp(JmpKind::Jmp, top));
                self.emit(OpKind::Lbl(end));
                Ok(())
            },
            _ => Ok(()),
        }
    }

    /// Appends the instructions that jump to `target` when the condition
    /// `expr` is false and fall through when it is true.
    pub fn compile_cond(&mut self, expr: &Expr<'_>, target: LabelId) -> (res: Result<
        (),
        CompileError,
    >)
        requires
            old(self)@.wf(),
        ensures
            final(self)@.wf(),
            grows(old(self)@, final(self)@),
            match res {
                Ok(()) => lower_cond(old(self)@, expr@, target as int) == Ok::<
                    GenState,
                    CompileError,
                >(final(self)@),
                Err(e) => lower_cond(old(self)@, expr@, target as int) == Err::<
                    GenState,
                    CompileError,
                >(e),
            },
        decreases expr, 1nat,
    {
        match expr {
            Expr::BiOp(x) => {
                match x.kind {
                    BiOpKind::CmpEq | BiOpKind::CmpNe | BiOpKind::CmpLt | BiOpKind::CmpGt
                    | BiOpKind::CmpLe | BiOpKind::CmpGe => self.compile_comparison(expr, target),
                    BiOpKind::BoAnd => {
                        self.compile_cond(&x.children.0, target)?;
                        self.compile_cond(&x.children.1, target)
                    },
                    BiOpKind::BoOr => self.compile_either(expr, target),
                    _ => Err(CompileError::new(ErrorKind::InvalidCondition)),
                }
            },
            Expr::SubExpr(inner) => self.compile_cond(inner, target),
            _ => Err(CompileError::new(ErrorKind::InvalidCondition)),
        }
    }

    fn compile_comparison(&mut self, expr: &Expr<'_>, target: LabelId) -> (res: Result<
        (),
        CompileError,
    >)
        requires
            old(self)@.wf(),
            expr matches Expr::BiOp(x) && x.kind.is_comparison(),
        ensures
            final(self)@.wf(),
            grows(old(self)@, final(self)@),
            match res {
                Ok(()) => lower_comparison(old(self)@, expr@, target as int) == Ok::<
                    GenState,
                    CompileError,
                >(final(self)@),
                Err(e) => lower_comparison(old(self)@, expr@, target as int) == Err::<
                    GenState,
                    CompileError,
                >(e),
            },
        decreases expr, 0nat,
    {
        match expr {
            Expr::BiOp(x) => {
                self.compile_expr(&x.children.0, Mode::Value)?;
                self.push_rax()?;
                self.compile_expr(&x.children.1, Mode::Value)?;
                let jump = match x.kind.to_jmp() {
                    Ok(j) => j,
                    Err(_) => JmpKind::Jl,
                };
                self.emit(OpKind::Mov(Operand::rdx(), Operand::rax()));
                self.pop_rax();
                self.emit(OpKind::Cmp(Operand::rax(), Operand::rdx()));
                self.emit(OpKind::Jmp(jump, target));
                Ok(())
            },
            _ => Ok(()),
        }
    }

    fn compile_either(&mut self, expr: &Expr<'_>, target: LabelId) -> (res: Result<
        (),
        CompileError,
    >)
        requires
            old(self)@.wf(),
            expr is BiOp,
        ensures
            final(self)@.wf(),
            grows(old(self)@, final(self)@),
            match res {
                Ok(()) => lower_either(old(self)@, expr@, target as int) == Ok::<
                    GenState,
                    CompileError,
                >(final(self)@),
                Err(e) => lower_either(old(self)@, expr@, target as int) == Err::<
                    GenState,
                    CompileError,
                >(e),
            },
        decreases expr, 0nat,
    {
        match expr {
            Expr::BiOp(x) => {
                let second = self.fresh(2)?;
                let holds = second + 1;
                self.compile_cond(&x.children.0, second)?;
                self.emit(OpKind::Jmp(JmpKind::Jmp, holds));
                self.emit(OpKind::Lbl(second));
                self.compile_cond(&x.children.1, target)?;
                self.emit(OpKind::Lbl(holds));
                Ok(())
            },
            _ => Ok(()),
        }
    }

    /// Appends the lowering of each statement of `block`, in order.
    pub fn compile_block(&mut self, block: &Vec<Stmt<'_>>) -> (res: Result<(), CompileError>)
        requires
            old(self)@.wf(),
        ensures
            final(self)@.wf(),
            grows(old(self)@, final(self)@),
            match res {
                Ok(()) => lower_block(old(self)@, block_view(block@), 0) == Ok::<
                    GenState,
                    CompileError,
                >(final(self)@),
                Err(e) => lower_block(old(self)@, block_view(block@), 0) == Err::<
                    GenState,
                    CompileError,
                >(e),
            },
        decreases block, 1nat,
    {
        let ghost start = self@;
        let ghost views = block_view(block@);
        let mut i: usize = 0;
        while i < block.len()
            invariant
                i <= block.len(),
                views == block_view(block@),
                start == old(self)@,
                self@.wf(),
                grows(start, self@),
                lower_block(start, views, 0) == lower_block(self@, views, i as int),
            decreases block.len() - i,
        {
            assert(views[i as int] == block[i as int]@);
            let ghost before = self@;
            match self.compile_stmt(&block[i]) {
                Ok(()) => {},
                Err(e) => {
                    assert(lower_block(before, views, i as int) == Err::<GenState, CompileError>(e));
                    return Err(e);
                },
            }
            i += 1;
        }
        Ok(())
    }

    /// Appends the lowering of a declaration: pushes its storage and records
    /// its name at the depth reached.
    pub fn compile_local(&mut self, local: &Local<'_>) -> (res: Result<(), CompileError>)
        requires
            old(self)@.wf(),
        ensures
            final(self)@.wf(),
            grows(old(self)@, final(self)@),
            match res {
                Ok(()) => lower_local(old(self)@, local@) == Ok::<GenState, CompileError>(
                    final(self)@,
                ),
                Err(e) => lower_local(old(self)@, local@) == Err::<GenState, CompileError>(e),
            },
        decreases local, 0nat,
    {
        match &local.value {
            Some(e) => {
                self.compile_expr(e, Mode::Value)?;
                self.push_rax()?;
                self.declare(local.name);
                Ok(())
            },
            None => match local.size {
                Some(size) => {
                    let room = (STACK_LIMIT - self.rsp) / 8;
                    let n = match parse_literal(size, room) {
                        Some(n) => n,
                        None => {
                            return Err(CompileError::new(ErrorKind::InvalidArraySize));
                        },
                    };
                    self.reserve(n);
                    self.declare(local.name);
                    Ok(())
                },
                None => {
                    self.push(Operand::immediate(0))?;
                    self.declare(local.name);
                    Ok(())
                },
            },
        }
    }

    fn reserve(&mut self, n: u64)
        requires
            old(self)@.wf(),
            old(self)@.rsp + WORD * n <= STACK_LIMIT,
        ensures
            final(self)@ == old(self)@.reserve(n as int),
            final(self)@.wf(),
    {
        let ghost start = self@;
        let mut k: u64 = 0;
        while k < n
            invariant
                k <= n,
                start.rsp + WORD * n <= STACK_LIMIT,
                start.wf(),
                self@ == start.reserve(k as int),
            decreases n - k,
        {
            self.text.push(Opcode::u64(OpKind::Push(Operand::immediate(0))));
            self.rsp += 8;
            k += 1;
            proof {
                assert(self@.locals =~= start.locals);
                assert(self@.text =~= start.reserve(k as int).text);
            }
        }
        proof {
            assert(start.reserve(0).text =~= start.text);
        }
    }

    /// Appends the lowering of one statement.
    pub fn compile_stmt(&mut self, stmt: &Stmt<'_>) -> (res: Result<(), CompileError>)
        requires
            old(self)@.wf(),
        ensures
            final(self)@.wf(),
            grows(old(self)@, final(self)@),
            match res {
                Ok(()) => lower_stmt(old(self)@, stmt@) == Ok::<GenState, CompileError>(
                    final(self)@,
                ),
                Err(e) => lower_stmt(old(self)@, stmt@) == Err::<GenState, CompileError>(e),
            },
        decreases stmt, 0nat,
    {
        match stmt {
            Stmt::Expr(ex) => self.compile_expr(ex, Mode::Value),
            Stmt::Local(loc) => self.compile_local(loc),
        }
    }

    /// Generates the code of a whole unit: the statements of `block`, lowered
    /// in order from the initial state. Every instruction of the result has a
    /// line in the listing, and every jump in it has exactly one landing place.
    pub fn compile(block: Block<'_>) -> (res: Result<Program, CompileError>)
        ensures
            match res {
                Ok(p) => lower_block(GenState::initial(), block_view(block@), 0) matches Ok(st)
                    && p.text@ == st.text && p.stack_size == st.rsp && p.labels == st.lbl
                    && printable_text(p.text@) && closed(st),
                Err(e) => lower_block(GenState::initial(), block_view(block@), 0) == Err::<
                    GenState,
                    CompileError,
                >(e),
            },
    {
        let mut compiler = Compiler::new();
        compiler.compile_block(&block)?;
        proof {
            lemma_unit_labels_closed(block_view(block@));
        }
        Ok(compiler.finish())
    }
}

/// A depth found in the table of a well-formed state is within the limit.
pub proof fn lemma_lookup_bounded(st: GenState, name: Seq<char>)
    requires
        st.wf(),
    ensures
        st.lookup(name) matches Some(d) ==> 0 <= d <= STACK_LIMIT,
{
    lemma_lookup_in_member(st.locals, name);
}

/// A depth found by `lookup_in` is the depth of one of the entries.
pub proof fn lemma_lookup_in_member(locals: Seq<(Seq<char>, int)>, name: Seq<char>)
    ensures
        lookup_in(locals, name) matches Some(d) ==> exists|i: int|
            0 <= i < locals.len() && (#[trigger] locals[i]) == (name, d),
    decreases locals.len(),
{
    if locals.len() > 0 {
        if locals.last().0 == name {
            assert(locals[locals.len() - 1] == (name, locals.last().1));
        } else {
            lemma_lookup_in_member(locals.drop_last(), name);
            if lookup_in(locals, name) is Some {
                let d = lookup_in(locals, name)->Some_0;
                let i = choose|i: int|
                    0 <= i < locals.drop_last().len() && (#[trigger] locals.drop_last()[i]) == (
                        name,
                        d,
                    );
                assert(locals[i] == (name, d));
            }
        }
    }
}

} // verus!
