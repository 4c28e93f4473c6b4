use vstd::prelude::*;
use vstd::string::StringExecFns;
use crate::compiler::Program;
use crate::opcode::{JmpKind, OpKind, Opcode};
use crate::register::{Operand, RegKind, RegSize, Register};

verus! {

/// The character of the digit `d`.
pub open spec fn digit_char(d: int) -> char {
    if d == 0 {
        '0'
    } else if d == 1 {
        '1'
    } else if d == 2 {
        '2'
    } else if d == 3 {
        '3'
    } else if d == 4 {
        '4'
    } else if d == 5 {
        '5'
    } else if d == 6 {
        '6'
    } else if d == 7 {
        '7'
    } else if d == 8 {
        '8'
    } else {
        '9'
    }
}

/// The decimal digits of a natural number, most significant first, without
/// leading zeros.
pub open spec fn dec_text(n: nat) -> Seq<char>
    decreases n,
{
    if n < 10 {
        seq![digit_char(n as int)]
    } else {
        dec_text(n / 10).push(digit_char((n % 10) as int))
    }
}

/// The decimal text of an integer: a minus sign in front of a negative one.
pub open spec fn int_text(v: int) -> Seq<char> {
    if v < 0 {
        seq!['-'] + dec_text((-v) as nat)
    } else {
        dec_text(v as nat)
    }
}

impl Register {
    /// Whether the register has a name at its width: the full-width
    /// registers `rax`, `rbx`, `rcx`, `rdx`, `rsp`, `rbp`, `rdi`, `rsi`, `r8`
    /// and `r9`.
    pub open spec fn named(self) -> bool {
        self.size is R && (self.kind is A || self.kind is B || self.kind is C || self.kind is D
            || self.kind is SP || self.kind is BP || self.kind is DI || self.kind is SI
            || self.kind is R8 || self.kind is R9)
    }

    /// The name of a named register.
    pub open spec fn name(self) -> Seq<char> {
        match self.kind {
            RegKind::A => "rax"@,
            RegKind::B => "rbx"@,
            RegKind::C => "rcx"@,
            RegKind::D => "rdx"@,
            RegKind::SP => "rsp"@,
            RegKind::BP => "rbp"@,
            RegKind::DI => "rdi"@,
            RegKind::SI => "rsi"@,
            RegKind::R8 => "r8"@,
            _ => "r9"@,
        }
    }

    /// Whether the register has a name at its width.
    pub fn is_named(&self) -> (r: bool)
        ensures
            r == self.named(),
    {
        let full = match self.size {
            RegSize::R => true,
            _ => false,
        };
        full && match self.kind {
            RegKind::A | RegKind::B | RegKind::C | RegKind::D | RegKind::SP | RegKind::BP
            | RegKind::DI | RegKind::SI | RegKind::R8 | RegKind::R9 => true,
            _ => false,
        }
    }

    pub fn to_str(&self) -> (s: &'static str)
        requires
            self.named(),
        ensures
            s@ == self.name(),
    {
        match self.kind {
            RegKind::A => "rax",
            RegKind::B => "rbx",
            RegKind::C => "rcx",
            RegKind::D => "rdx",
            RegKind::SP => "rsp",
            RegKind::BP => "rbp",
            RegKind::DI => "rdi",
            RegKind::SI => "rsi",
            RegKind::R8 => "r8",
            _ => "r9",
        }
    }
}

impl Operand {
    /// Whether the operand can stand as the offset of an indexed operand: a
    /// constant or a named register.
    pub open spec fn simple(self) -> bool {
        match self {
            Operand::Reg(r) => r.named(),
            Operand::Immediate(_) => true,
            _ => false,
        }
    }

    /// Whether the operand has a text: a named register, the word it points
    /// to, a constant, or a word at a named register plus a simple offset.
    pub open spec fn printable(self) -> bool {
        match self {
            Operand::Reg(r) => r.named(),
            Operand::Val(r) => r.named(),
            Operand::Immediate(_) => true,
            Operand::Indexed(r, off) => r.named() && off.simple(),
            _ => false,
        }
    }

    /// The text of a simple operand.
    pub open spec fn simple_text(self) -> Seq<char> {
        match self {
            Operand::Reg(r) => r.name(),
            Operand::Immediate(v) => int_text(v as int),
            _ => Seq::empty(),
        }
    }

    /// The text of a printable operand, in the syntax of the assembler.
    pub open spec fn text(self) -> Seq<char> {
        match self {
            Operand::Reg(r) => r.name(),
            Operand::Val(r) => "["@ + r.name() + "]"@,
            Operand::Immediate(v) => int_text(v as int),
            Operand::Indexed(r, off) => "qword ["@ + r.name() + " + "@ + off.simple_text() + "]"@,
            _ => Seq::empty(),
        }
    }

    /// Whether the operand has a text.
    pub fn is_printable(&self) -> (r: bool)
        ensures
            r == self.printable(),
    {
        match self {
            Operand::Reg(r) => r.is_named(),
            Operand::Val(r) => r.is_named(),
            Operand::Immediate(_) => true,
            Operand::Indexed(r, off) => r.is_named() && match &**off {
                Operand::Reg(o) => o.is_named(),
                Operand::Immediate(_) => true,
                _ => false,
            },
            _ => false,
        }
    }

    fn push_simple(&self, out: &mut String)
        requires
            self.simple(),
        ensures
            final(out)@ == old(out)@ + self.simple_text(),
    {
        match self {
            Operand::Reg(r) => out.append(r.to_str()),
            Operand::Immediate(v) => push_int(out, *v),
            _ => {},
        }
    }

    /// Appends the text of the operand.
    pub fn push_str(&self, out: &mut String)
        requires
            self.printable(),
        ensures
            final(out)@ == old(out)@ + self.text(),
    {
        match self {
            Operand::Reg(r) => out.append(r.to_str()),
            Operand::Val(r) => {
                out.append("[");
                out.append(r.to_str());
                out.append("]");
                assert(out@ =~= old(out)@ + self.text());
            },
            Operand::Immediate(v) => push_int(out, *v),
            Operand::Indexed(r, off) => {
                out.append("qword [");
                out.append(r.to_str());
                out.append(" + ");
                off.push_simple(out);
                out.append("]");
                assert(out@ =~= old(out)@ + self.text());
            },
            _ => {},
        }
    }

    /// The text of the operand.
    pub fn to_str(&self) -> (s: String)
        requires
            self.printable(),
        ensures
            s@ == self.text(),
    {
        let mut s = String::new();
        self.push_str(&mut s);
        assert(s@ =~= self.text());
        s
    }
}

/// The one-character text of a digit.
fn digit_str(d: u64) -> (s: &'static str)
    requires
        d < 10,
    ensures
        s@ == seq![digit_char(d as int)],
{
    proof {
        reveal_strlit("0");
        reveal_strlit("1");
        reveal_strlit("2");
        reveal_strlit("3");
        reveal_strlit("4");
        reveal_strlit("5");
        reveal_strlit("6");
        reveal_strlit("7");
        reveal_strlit("8");
        reveal_strlit("9");
    }
    let s = if d == 0 {
        "0"
    } else if d == 1 {
        "1"
    } else if d == 2 {
        "2"
    } else if d == 3 {
        "3"
    } else if d == 4 {
        "4"
    } else if d == 5 {
        "5"
    } else if d == 6 {
        "6"
    } else if d == 7 {
        "7"
    } else if d == 8 {
        "8"
    } else {
        "9"
    };
    assert(s@ =~= seq![digit_char(d as int)]);
    s
}

/// Appends the decimal text of `n`.
pub fn push_dec(out: &mut String, n: u64)
    ensures
        final(out)@ == old(out)@ + dec_text(n as nat),
    decreases n,
{
    if n >= 10 {
        push_dec(out, n / 10);
    }
    out.append(digit_str(n % 10));
    assert(out@ =~= old(out)@ + dec_text(n as nat));
}

/// Appends the decimal text of `v`.
pub fn push_int(out: &mut String, v: i64)
    ensures
        final(out)@ == old(out)@ + int_text(v as int),
{
    if v < 0 {
        proof {
            reveal_strlit("-");
        }
        out.append("-");
        // the magnitude of the least value does not fit the signed type
        let magnitude: u64 = ((-(v + 1)) as u64) + 1;
        push_dec(out, magnitude);
        assert(out@ =~= old(out)@ + int_text(v as int));
    } else {
        push_dec(out, v as u64);
    }
}

impl JmpKind {
    /// The mnemonic of the jump, as text.
    pub open spec fn text(self) -> Seq<char> {
        match self {
            JmpKind::Jmp => "jmp"@,
            JmpKind::Je => "je"@,
            JmpKind::Jne => "jne"@,
            JmpKind::Jl => "jl"@,
            JmpKind::Jle => "jle"@,
            JmpKind::Jg => "jg"@,
            JmpKind::Jge => "jge"@,
        }
    }
}

/// The name of the label `l`.
pub open spec fn label_text(l: u64) -> Seq<char> {
    "l"@ + dec_text(l as nat)
}

impl OpKind {
    /// Whether every operand of the instruction has a text.
    pub open spec fn printable(self) -> bool {
        match self {
            OpKind::Lbl(_) => true,
            OpKind::Jmp(_, _) => true,
            OpKind::Cmp(a, b) => a.printable() && b.printable(),
            OpKind::Or(a, b) => a.printable() && b.printable(),
            OpKind::And(a, b) => a.printable() && b.printable(),
            OpKind::Lea(a, b) => a.printable() && b.printable(),
            OpKind::Mov(a, b) => a.printable() && b.printable(),
            OpKind::Add(a, b) => a.printable() && b.printable(),
            OpKind::Sub(a, b) => a.printable() && b.printable(),
            OpKind::Xor(a, b) => a.printable() && b.printable(),
            OpKind::Div(a) => a.printable(),
            OpKind::Mul(a) => a.printable(),
            OpKind::Not(a) => a.printable(),
            OpKind::Neg(a) => a.printable(),
            OpKind::Pop(a) => a.printable(),
            OpKind::Push(a) => a.printable(),
            OpKind::Cdq => true,
        }
    }

    /// A line with one operand.
    pub open spec fn unary_line(mnemonic: Seq<char>, a: Operand) -> Seq<char> {
        "    "@ + mnemonic + " "@ + a.text()
    }

    /// A line with two operands.
    pub open spec fn binary_line(mnemonic: Seq<char>, a: Operand, b: Operand) -> Seq<char> {
        "    "@ + mnemonic + " "@ + a.text() + ", "@ + b.text()
    }

    /// The line of the instruction in the listing: a label on the margin with
    /// a colon, an instruction indented by four spaces.
    pub open spec fn line(self) -> Seq<char> {
        match self {
            OpKind::Lbl(l) => label_text(l) + ":"@,
            OpKind::Jmp(k, l) => "    "@ + k.text() + " "@ + label_text(l),
            OpKind::Cmp(a, b) => OpKind::binary_line("cmp"@, a, b),
            OpKind::Or(a, b) => OpKind::binary_line("or"@, a, b),
            OpKind::And(a, b) => OpKind::binary_line("and"@, a, b),
            OpKind::Lea(a, b) => OpKind::binary_line("lea"@, a, b),
            OpKind::Mov(a, b) => OpKind::binary_line("mov"@, a, b),
            OpKind::Add(a, b) => OpKind::binary_line("add"@, a, b),
            OpKind::Sub(a, b) => OpKind::binary_line("sub"@, a, b),
            OpKind::Xor(a, b) => OpKind::binary_line("xor"@, a, b),
            OpKind::Div(a) => OpKind::unary_line("idiv"@, a),
            OpKind::Mul(a) => OpKind::unary_line("imul"@, a),
            OpKind::Not(a) => OpKind::unary_line("not"@, a),
            OpKind::Neg(a) => OpKind::unary_line("neg"@, a),
            OpKind::Pop(a) => OpKind::unary_line("pop"@, a),
            OpKind::Push(a) => OpKind::unary_line("push"@, a),
            OpKind::Cdq => "    cdq"@,
        }
    }
}

fn push_unary(out: &mut String, mnemonic: &str, a: &Operand)
    requires
        a.printable(),
    ensures
        final(out)@ == old(out)@ + OpKind::unary_line(mnemonic@, *a),
{
    out.append("    ");
    out.append(mnemonic);
    out.append(" ");
    a.push_str(out);
    assert(out@ =~= old(out)@ + OpKind::unary_line(mnemonic@, *a));
}

fn push_binary(out: &mut String, mnemonic: &str, a: &Operand, b: &Operand)
    requires
        a.printable(),
        b.printable(),
    ensures
        final(out)@ == old(out)@ + OpKind::binary_line(mnemonic@, *a, *b),
{
    out.append("    ");
    out.append(mnemonic);
    out.append(" ");
    a.push_str(out);
    out.append(", ");
    b.push_str(out);
    assert(out@ =~= old(out)@ + OpKind::binary_line(mnemonic@, *a, *b));
}

fn push_label(out: &mut String, l: u64)
    ensures
        final(out)@ == old(out)@ + label_text(l),
{
    out.append("l");
    push_dec(out, l);
    assert(out@ =~= old(out)@ + label_text(l));
}

impl Opcode {
    /// Whether every operand of the instruction has a text.
    pub fn is_printable(&self) -> (r: bool)
        ensures
            r == self.kind.printable(),
    {
        match &self.kind {
            OpKind::Lbl(_) => true,
            OpKind::Jmp(_, _) => true,
            OpKind::Cmp(a, b) => a.is_printable() && b.is_printable(),
            OpKind::Or(a, b) => a.is_printable() && b.is_printable(),
            OpKind::And(a, b) => a.is_printable() && b.is_printable(),
            OpKind::Lea(a, b) => a.is_printable() && b.is_printable(),
            OpKind::Mov(a, b) => a.is_printable() && b.is_printable(),
            OpKind::Add(a, b) => a.is_printable() && b.is_printable(),
            OpKind::Sub(a, b) => a.is_printable() && b.is_printable(),
            OpKind::Xor(a, b) => a.is_printable() && b.is_printable(),
            OpKind::Div(a) => a.is_printable(),
            OpKind::Mul(a) => a.is_printable(),
            OpKind::Not(a) => a.is_printable(),
            OpKind::Neg(a) => a.is_printable(),
            OpKind::Pop(a) => a.is_printable(),
            OpKind::Push(a) => a.is_printable(),
            OpKind::Cdq => true,
        }
    }

    /// Appends the line of the instruction, without a line feed.
    pub fn push_asm(&self, out: &mut String)
        requires
            self.kind.printable(),
        ensures
            final(out)@ == old(out)@ + self.kind.line(),
    {
        match &self.kind {
            OpKind::Lbl(l) => {
                push_label(out, *l);
                out.append(":");
                assert(out@ =~= old(out)@ + self.kind.line());
            },
            OpKind::Jmp(k, l) => {
                out.append("    ");
                out.append(k.mnemonic());
                out.append(" ");
                push_label(out, *l);
                assert(out@ =~= old(out)@ + self.kind.line());
            },
            OpKind::Cmp(a, b) => push_binary(out, "cmp", a, b),
            OpKind::Or(a, b) => push_binary(out, "or", a, b),
            OpKind::And(a, b) => push_binary(out, "and", a, b),
            OpKind::Lea(a, b) => push_binary(out, "lea", a, b),
            OpKind::Mov(a, b) => push_binary(out, "mov", a, b),
            OpKind::Add(a, b) => push_binary(out, "add", a, b),
            OpKind::Sub(a, b) => push_binary(out, "sub", a, b),
            OpKind::Xor(a, b) => push_binary(out, "xor", a, b),
            OpKind::Div(a) => push_unary(out, "idiv", a),
            OpKind::Mul(a) => push_unary(out, "imul", a),
            OpKind::Not(a) => push_unary(out, "not", a),
            OpKind::Neg(a) => push_unary(out, "neg", a),
            OpKind::Pop(a) => push_unary(out, "pop", a),
            OpKind::Push(a) => push_unary(out, "push", a),
            OpKind::Cdq => out.append("    cdq"),
        }
    }

    /// The line of the instruction in the listing.
    pub fn gen_asm(&self) -> (s: String)
        requires
            self.kind.printable(),
        ensures
            s@ == self.kind.line(),
    {
        let mut s = String::new();
        self.push_asm(&mut s);
        assert(s@ =~= self.kind.line());
        s
    }
}

/// Whether every instruction of `text` has a line.
pub open spec fn printable_text(text: Seq<Opcode>) -> bool {
    forall|i: int| 0 <= i < text.len() ==> (#[trigger] text[i]).kind.printable()
}

/// The lines of the first `n` instructions of `text`, each ended by a line feed.
pub open spec fn lines(text: Seq<Opcode>, n: int) -> Seq<char>
    decreases n,
{
    if n <= 0 || n > text.len() {
        Seq::empty()
    } else {
        lines(text, n - 1) + text[n - 1].kind.line() + "\n"@
    }
}

/// What stands before the instructions in a listing: the section and the
/// entry point.
pub open spec fn prologue() -> Seq<char> {
    "section .text\n  global main\nmain:\n"@
}

/// What stands after them: the program exits with the accumulator as its
/// status.
pub open spec fn epilogue() -> Seq<char> {
    "    mov rdi, rax\n    mov rax, 60\n    syscall\n"@
}

/// The whole listing of an instruction list.
pub open spec fn listing(text: Seq<Opcode>) -> Seq<char> {
    prologue() + lines(text, text.len() as int) + epilogue()
}

impl Program {
    /// Whether every instruction of the program has a line.
    pub fn is_printable(&self) -> (r: bool)
        ensures
            r == printable_text(self.text@),
    {
        let mut i: usize = 0;
        while i < self.text.len()
            invariant
                i <= self.text@.len(),
                forall|k: int| 0 <= k < i ==> (#[trigger] self.text@[k]).kind.printable(),
            decreases self.text@.len() - i,
        {
            if !self.text[i].is_printable() {
                return false;
            }
            i += 1;
        }
        true
    }

    /// The assembly listing of the program.
    pub fn render(&self) -> (s: String)
        requires
            printable_text(self.text@),
        ensures
            s@ == listing(self.text@),
    {
        let mut s = String::from_str("section .text\n  global main\nmain:\n");
        let mut i: usize = 0;
        assert(s@ =~= prologue() + lines(self.text@, 0));
        while i < self.text.len()
            invariant
                i <= self.text@.len(),
                printable_text(self.text@),
                s@ == prologue() + lines(self.text@, i as int),
            decreases self.text@.len() - i,
        {
            let ghost before = s@;
            self.text[i].push_asm(&mut s);
            s.append("\n");
            i += 1;
            assert(s@ =~= prologue() + lines(self.text@, i as int));
        }
        s.append("    mov rdi, rax\n    mov rax, 60\n    syscall\n");
        assert(s@ =~= listing(self.text@));
        s
    }
}

} // verus!
