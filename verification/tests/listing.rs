use mor::{
    compile_source, ErrorKind, JmpKind, OpKind, Opcode, Operand, Program, RegKind, RegSize,
    Register,
};

fn line(kind: OpKind) -> String {
    Opcode::u64(kind).gen_asm()
}

fn rax() -> Operand {
    Operand::rax()
}

fn rdx() -> Operand {
    Operand::rdx()
}

#[test]
fn register_names() {
    let names = [
        (RegKind::A, "rax"),
        (RegKind::B, "rbx"),
        (RegKind::C, "rcx"),
        (RegKind::D, "rdx"),
        (RegKind::SP, "rsp"),
        (RegKind::BP, "rbp"),
        (RegKind::DI, "rdi"),
        (RegKind::SI, "rsi"),
        (RegKind::R8, "r8"),
        (RegKind::R9, "r9"),
    ];
    for (kind, name) in names {
        assert_eq!(Register { kind, size: RegSize::R }.to_str(), name);
    }
}

#[test]
fn operand_texts() {
    assert_eq!(rax().to_str(), "rax");
    assert_eq!(Operand::rcx().to_str(), "rcx");
    assert_eq!(Operand::Val(Register { kind: RegKind::B, size: RegSize::R }).to_str(), "[rbx]");
    assert_eq!(Operand::immediate(0).to_str(), "0");
    assert_eq!(Operand::immediate(7).to_str(), "7");
    assert_eq!(Operand::immediate(10).to_str(), "10");
    assert_eq!(Operand::immediate(1234567890).to_str(), "1234567890");
    assert_eq!(Operand::immediate(-1).to_str(), "-1");
    assert_eq!(Operand::immediate(-120).to_str(), "-120");
    assert_eq!(Operand::immediate(i64::MAX).to_str(), "9223372036854775807");
    assert_eq!(Operand::immediate(i64::MIN).to_str(), "-9223372036854775808");
    assert_eq!(
        Operand::indexed(RegKind::SP, RegSize::R, Operand::immediate(16)).to_str(),
        "qword [rsp + 16]"
    );
    assert_eq!(
        Operand::indexed(RegKind::SP, RegSize::R, Operand::immediate(-8)).to_str(),
        "qword [rsp + -8]"
    );
    assert_eq!(Operand::indexed(RegKind::SP, RegSize::R, rax()).to_str(), "qword [rsp + rax]");
    assert_eq!(
        Operand::indexed(RegKind::A, RegSize::R, Operand::immediate(0)).to_str(),
        "qword [rax + 0]"
    );
}

#[test]
fn instruction_lines() {
    assert_eq!(line(OpKind::Lbl(0)), "l0:");
    assert_eq!(line(OpKind::Lbl(12)), "l12:");
    assert_eq!(line(OpKind::Lbl(u64::MAX)), "l18446744073709551615:");
    assert_eq!(line(OpKind::Jmp(JmpKind::Jmp, 3)), "    jmp l3");
    assert_eq!(line(OpKind::Jmp(JmpKind::Je, 3)), "    je l3");
    assert_eq!(line(OpKind::Jmp(JmpKind::Jne, 0)), "    jne l0");
    assert_eq!(line(OpKind::Jmp(JmpKind::Jl, 10)), "    jl l10");
    assert_eq!(line(OpKind::Jmp(JmpKind::Jle, 1)), "    jle l1");
    assert_eq!(line(OpKind::Jmp(JmpKind::Jg, 1)), "    jg l1");
    assert_eq!(line(OpKind::Jmp(JmpKind::Jge, 1)), "    jge l1");
    assert_eq!(line(OpKind::Cmp(rax(), rdx())), "    cmp rax, rdx");
    assert_eq!(line(OpKind::Or(rax(), rdx())), "    or rax, rdx");
    assert_eq!(line(OpKind::And(rax(), rdx())), "    and rax, rdx");
    assert_eq!(
        line(OpKind::Lea(rax(), Operand::indexed(RegKind::SP, RegSize::R, Operand::immediate(8)))),
        "    lea rax, qword [rsp + 8]"
    );
    assert_eq!(line(OpKind::Mov(rax(), Operand::immediate(42))), "    mov rax, 42");
    assert_eq!(line(OpKind::Add(rax(), rdx())), "    add rax, rdx");
    assert_eq!(line(OpKind::Sub(rax(), rdx())), "    sub rax, rdx");
    assert_eq!(line(OpKind::Xor(rax(), rax())), "    xor rax, rax");
    assert_eq!(line(OpKind::Div(Operand::rcx())), "    idiv rcx");
    assert_eq!(line(OpKind::Mul(rdx())), "    imul rdx");
    assert_eq!(line(OpKind::Not(rax())), "    not rax");
    assert_eq!(line(OpKind::Neg(rax())), "    neg rax");
    assert_eq!(line(OpKind::Pop(rdx())), "    pop rdx");
    assert_eq!(line(OpKind::Push(rax())), "    push rax");
    assert_eq!(line(OpKind::Push(Operand::immediate(0))), "    push 0");
    assert_eq!(line(OpKind::Cdq), "    cdq");
}

#[test]
fn listing_of_an_empty_program() {
    let p = Program { text: vec![], stack_size: 0, labels: 0 };
    assert_eq!(
        p.render(),
        "section .text\n  global main\nmain:\n    mov rdi, rax\n    mov rax, 60\n    syscall\n"
    );
}

#[test]
fn listing_of_a_compiled_program() {
    let p = compile_source(b"x: i64 = 10; while x != 12 { x = x + 1; }").expect("compiles");
    assert_eq!(p.stack_size, 8);
    assert_eq!(p.labels, 2);
    let expected = "section .text\n  global main\nmain:\n\
                    \x20   mov rax, 10\n\
                    \x20   push rax\n\
                    l0:\n\
                    \x20   mov rax, qword [rsp + 0]\n\
                    \x20   push rax\n\
                    \x20   mov rax, 12\n\
                    \x20   mov rdx, rax\n\
                    \x20   pop rax\n\
                    \x20   cmp rax, rdx\n\
                    \x20   je l1\n\
                    \x20   mov rax, qword [rsp + 0]\n\
                    \x20   push rax\n\
                    \x20   mov rax, 1\n\
                    \x20   pop rdx\n\
                    \x20   add rax, rdx\n\
                    \x20   push rax\n\
                    \x20   lea rax, qword [rsp + 8]\n\
                    \x20   pop rdx\n\
                    \x20   mov qword [rax + 0], rdx\n\
                    \x20   mov rax, rdx\n\
                    \x20   jmp l0\n\
                    l1:\n\
                    \x20   mov rdi, rax\n\
                    \x20   mov rax, 60\n\
                    \x20   syscall\n";
    assert_eq!(p.render(), expected);
}

#[test]
fn compile_source_names_the_stage_that_refused() {
    assert_eq!(compile_source(b"1 + $").unwrap_err().kind, ErrorKind::Lexical);
    assert_eq!(compile_source(b"/* open").unwrap_err().kind, ErrorKind::Lexical);
    assert_eq!(compile_source(b"1 + ").unwrap_err().kind, ErrorKind::Syntax);
    assert_eq!(compile_source(b"if 1 < 2 { ").unwrap_err().kind, ErrorKind::Syntax);
    assert_eq!(compile_source(b"y;").unwrap_err().kind, ErrorKind::IdentNotFound);
    assert_eq!(
        compile_source(b"99999999999999999999;").unwrap_err().kind,
        ErrorKind::LiteralOverflow
    );
    assert_eq!(compile_source(b"1 + $").unwrap_err().message(), "unknown symbol");
    assert_eq!(compile_source(b"1 + ").unwrap_err().message(), "unexpected token");
    assert_eq!(compile_source(b"").map(|p| p.text.len()), Ok(0));
}
