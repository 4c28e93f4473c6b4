use vstd::prelude::*;
use crate::register::{Operand, RegSize};

verus! {

/// A jump target. Labels are numbers here; an emitter turns them into names.
pub type LabelId = u64;

/// The condition under which a jump is taken.
#[derive(Debug, Clone, Copy, PartialEq, Eq, Structural)]
pub enum JmpKind {
    /// always
    Jmp,
    /// equal
    Je,
    /// not equal
    Jne,
    /// less
    Jl,
    /// less or equal
    Jle,
    /// greater
    Jg,
    /// greater or equal
    Jge,
}

#[derive(Debug, PartialEq, Eq)]
pub enum OpKind {
    /// Defines a label at this place.
    Lbl(LabelId),
    Jmp(JmpKind, LabelId),
    Cmp(Operand, Operand),
    Or(Operand, Operand),
    And(Operand, Operand),
    Lea(Operand, Operand),
    Mov(Operand, Operand),
    Add(Operand, Operand),
    Sub(Operand, Operand),
    Xor(Operand, Operand),
    Div(Operand),
    Mul(Operand),
    Not(Operand),
    Neg(Operand),
    Pop(Operand),
    Push(Operand),
    /// Sign-extends the accumulator into the register pair of a division.
    Cdq,
}

/// One target instruction.
#[derive(Debug, PartialEq, Eq)]
pub struct Opcode {
    pub kind: OpKind,
    pub size: RegSize,
}

impl Opcode {
    /// The instruction `kind` on full words.
    pub open spec fn word(kind: OpKind) -> Opcode {
        Opcode { kind, size: RegSize::R }
    }

    #[inline]
    pub fn u64(kind: OpKind) -> (op: Self)
        ensures
            op == Opcode::word(kind),
    {
        Self { kind, size: RegSize::R }
    }
}

impl JmpKind {
    /// The mnemonic of the jump.
    pub fn mnemonic(&self) -> (s: &'static str)
        ensures
            s@ == (match self {
                JmpKind::Jmp => "jmp"@,
                JmpKind::Je => "je"@,
                JmpKind::Jne => "jne"@,
                JmpKind::Jl => "jl"@,
                JmpKind::Jle => "jle"@,
                JmpKind::Jg => "jg"@,
                JmpKind::Jge => "jge"@,
            }),
    {
        match self {
            JmpKind::Jmp => "jmp",
            JmpKind::Je => "je",
            JmpKind::Jne => "jne",
            JmpKind::Jl => "jl",
            JmpKind::Jle => "jle",
            JmpKind::Jg => "jg",
            JmpKind::Jge => "jge",
        }
    }
}

} // verus!
