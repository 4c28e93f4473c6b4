use vstd::prelude::*;

verus! {

/// The general-purpose registers of the target.
#[derive(Debug, Clone, Copy, PartialEq, Eq, Structural)]
pub enum RegKind {
    A,
    B,
    C,
    D,
    SI,
    DI,
    BP,
    SP,
    R8,
    R9,
    R10,
    R11,
    R12,
    R13,
    R14,
    R15,
}

/// The width at which a register is addressed.
#[derive(Debug, Clone, Copy, PartialEq, Eq, Structural)]
pub enum RegSize {
    /// 64 bit
    R,
    /// 32 bit
    E,
    /// 16 bit
    X,
    /// 8 bit, high half
    H,
    /// 8 bit, low half
    L,
    /// 8 bit, low half of a numbered register
    B,
}

#[derive(Debug, Clone, Copy, PartialEq, Eq, Structural)]
pub struct Register {
    pub kind: RegKind,
    pub size: RegSize,
}

/// What an instruction reads or writes.
#[derive(Debug, PartialEq, Eq)]
pub enum Operand {
    /// The register itself.
    Reg(Register),
    /// The word that the register points to.
    Val(Register),
    Implicit,
    /// A constant.
    Immediate(i64),
    /// The word at a fixed address.
    Direct(i64),
    Based(Register, i32),
    /// The word at the register plus an offset: a constant or another register.
    Indexed(Register, Box<Operand>),
}

impl Operand {
    /// The accumulator, in which every expression leaves its result.
    pub open spec fn spec_rax() -> Operand {
        Operand::Reg(Register { kind: RegKind::A, size: RegSize::R })
    }

    /// The second register of a binary operation.
    pub open spec fn spec_rdx() -> Operand {
        Operand::Reg(Register { kind: RegKind::D, size: RegSize::R })
    }

    /// The register that holds a divisor.
    pub open spec fn spec_rcx() -> Operand {
        Operand::Reg(Register { kind: RegKind::C, size: RegSize::R })
    }

    /// The word at `kind` plus `idx`.
    pub open spec fn spec_indexed(kind: RegKind, size: RegSize, idx: Operand) -> Operand {
        Operand::Indexed(Register { kind, size }, Box::new(idx))
    }

    /// The stack slot `disp` bytes above the stack pointer.
    pub open spec fn stack_slot(disp: int) -> Operand {
        Operand::spec_indexed(RegKind::SP, RegSize::R, Operand::Immediate(disp as i64))
    }

    /// The word that the accumulator points to.
    pub open spec fn through_rax() -> Operand {
        Operand::spec_indexed(RegKind::A, RegSize::R, Operand::Immediate(0))
    }

    #[inline]
    pub fn rax() -> (r: Self)
        ensures
            r == Operand::spec_rax(),
    {
        Self::Reg(Register { kind: RegKind::A, size: RegSize::R })
    }

    #[inline]
    pub fn rdx() -> (r: Self)
        ensures
            r == Operand::spec_rdx(),
    {
        Self::Reg(Register { kind: RegKind::D, size: RegSize::R })
    }

    #[inline]
    pub fn rcx() -> (r: Self)
        ensures
            r == Operand::spec_rcx(),
    {
        Self::Reg(Register { kind: RegKind::C, size: RegSize::R })
    }

    #[inline]
    pub fn reg(kind: RegKind, size: RegSize) -> (r: Self)
        ensures
            r == Operand::Reg(Register { kind, size }),
    {
        Self::Reg(Register { kind, size })
    }

    #[inline]
    pub fn indexed(kind: RegKind, size: RegSize, idx: Operand) -> (r: Self)
        ensures
            r == Operand::spec_indexed(kind, size, idx),
    {
        Self::Indexed(Register { kind, size }, Box::new(idx))
    }

    #[inline]
    pub fn immediate(val: i64) -> (r: Self)
        ensures
            r == Operand::Immediate(val),
    {
        Self::Immediate(val)
    }
}

} // verus!
