use mor::{
    parse, BiOpEx, BiOpKind, CompileError, Compiler, ErrorKind, Expr, JmpKind, Local, Mode,
    OpKind, Opcode, Operand, RegKind, RegSize, Stmt, Token,
};

fn rax() -> Operand {
    Operand::rax()
}

fn rdx() -> Operand {
    Operand::rdx()
}

fn rcx() -> Operand {
    Operand::rcx()
}

fn imm(v: i64) -> Operand {
    Operand::immediate(v)
}

fn slot(disp: i64) -> Operand {
    Operand::indexed(RegKind::SP, RegSize::R, imm(disp))
}

fn through_rax() -> Operand {
    Operand::indexed(RegKind::A, RegSize::R, imm(0))
}

fn ops(kinds: Vec<OpKind>) -> Vec<Opcode> {
    kinds.into_iter().map(Opcode::u64).collect()
}

fn compile(source: &str) -> Result<Vec<Opcode>, CompileError> {
    let block = parse(source.as_bytes()).expect("parses");
    Compiler::compile(block).map(|p| p.text)
}

fn kind_of(source: &str) -> ErrorKind {
    compile(source).unwrap_err().kind
}

#[test]
fn literal_is_one_move() {
    assert_eq!(compile("42;"), Ok(ops(vec![OpKind::Mov(rax(), imm(42))])));
    assert_eq!(compile("0"), Ok(ops(vec![OpKind::Mov(rax(), imm(0))])));
    assert_eq!(compile("007"), Ok(ops(vec![OpKind::Mov(rax(), imm(7))])));
}

#[test]
fn largest_literal_is_accepted_and_the_next_is_not() {
    assert_eq!(
        compile("9223372036854775807"),
        Ok(ops(vec![OpKind::Mov(rax(), imm(i64::MAX))]))
    );
    assert_eq!(kind_of("9223372036854775808"), ErrorKind::LiteralOverflow);
    assert_eq!(kind_of("18446744073709551616"), ErrorKind::LiteralOverflow);
    assert_eq!(kind_of("99999999999999999999999999999999999999999"), ErrorKind::LiteralOverflow);
}

#[test]
fn literal_overflow_is_found_at_code_generation_not_earlier() {
    let source = "x: i64 = 99999999999999999999;";
    let block = parse(source.as_bytes());
    assert!(block.is_some());
    let err = Compiler::compile(block.unwrap()).unwrap_err();
    assert_eq!(err.kind, ErrorKind::LiteralOverflow);
    assert_eq!(err.message(), "Number too big");
}

#[test]
fn malformed_literal_text_is_refused() {
    let mut c = Compiler::new();
    for text in ["", "+5", "-3", "1a", " 1", "0x10", "١"] {
        let err = c.compile_expr(&Expr::Number(text), Mode::Value).unwrap_err();
        assert_eq!(err.kind, ErrorKind::LiteralOverflow);
    }
}

#[test]
fn undeclared_identifier_is_an_error() {
    assert_eq!(kind_of("x;"), ErrorKind::IdentNotFound);
    assert_eq!(kind_of("x = 1;"), ErrorKind::IdentNotFound);
    assert_eq!(kind_of("i64 y = 1; y + x;"), ErrorKind::IdentNotFound);
    assert_eq!(kind_of("i64 x = x;"), ErrorKind::IdentNotFound);
    assert_eq!(kind_of("a[0];"), ErrorKind::IdentNotFound);
    assert_eq!(compile("x;").unwrap_err().message(), "Ident: not found");
}

#[test]
fn declaration_after_use_does_not_help() {
    assert_eq!(kind_of("x; i64 x = 1;"), ErrorKind::IdentNotFound);
}

#[test]
fn two_declarations_are_one_word_apart() {
    let block = parse(b"x: i64 = 10; y: i64 = x + 5;").expect("parses");
    let mut c = Compiler::new();
    for stmt in &block {
        c.compile_stmt(stmt).expect("compiles");
    }
    assert_eq!(c.symbol_count(), 2);
    assert_eq!(c.offset_of("x"), Some(8));
    assert_eq!(c.offset_of("y"), Some(16));
    assert_eq!(c.offset_of("z"), None);
    assert_eq!(c.stack_depth(), 16);
    assert_eq!(
        c.text(),
        &ops(vec![
            OpKind::Mov(rax(), imm(10)),
            OpKind::Push(rax()),
            // x was declared at depth 8 and the stack is 8 deep: displacement 0
            OpKind::Mov(rax(), slot(0)),
            OpKind::Push(rax()),
            OpKind::Mov(rax(), imm(5)),
            OpKind::Pop(rdx()),
            OpKind::Add(rax(), rdx()),
            OpKind::Push(rax()),
        ])
    );
    let program = c.finish();
    assert_eq!(program.stack_size, 16);
}

#[test]
fn displacement_is_current_depth_minus_declared_depth() {
    assert_eq!(
        compile("i64 a = 1; i64 b = 2; i64 c = 3; 7 + a;"),
        Ok(ops(vec![
            OpKind::Mov(rax(), imm(1)),
            OpKind::Push(rax()),
            OpKind::Mov(rax(), imm(2)),
            OpKind::Push(rax()),
            OpKind::Mov(rax(), imm(3)),
            OpKind::Push(rax()),
            OpKind::Mov(rax(), imm(7)),
            OpKind::Push(rax()),
            // depth 32, a at 8
            OpKind::Mov(rax(), slot(24)),
            OpKind::Pop(rdx()),
            OpKind::Add(rax(), rdx()),
        ]))
    );
}

#[test]
fn later_declaration_of_a_name_wins() {
    let block = parse(b"i64 x = 1; i64 x = 2;").expect("parses");
    let mut c = Compiler::new();
    for stmt in &block {
        c.compile_stmt(stmt).expect("compiles");
    }
    assert_eq!(c.offset_of("x"), Some(16));
}

#[test]
fn arithmetic_spills_left_and_combines() {
    let head = vec![
        OpKind::Mov(rax(), imm(6)),
        OpKind::Push(rax()),
        OpKind::Mov(rax(), imm(3)),
    ];
    let with = |tail: Vec<OpKind>| {
        let mut v = vec![
            OpKind::Mov(rax(), imm(6)),
            OpKind::Push(rax()),
            OpKind::Mov(rax(), imm(3)),
        ];
        v.extend(tail);
        Ok(ops(v))
    };
    assert_eq!(head.len(), 3);
    assert_eq!(compile("6 + 3"), with(vec![OpKind::Pop(rdx()), OpKind::Add(rax(), rdx())]));
    assert_eq!(
        compile("6 - 3"),
        with(vec![OpKind::Mov(rdx(), rax()), OpKind::Pop(rax()), OpKind::Sub(rax(), rdx())])
    );
    assert_eq!(compile("6 * 3"), with(vec![OpKind::Pop(rdx()), OpKind::Mul(rdx())]));
    assert_eq!(
        compile("6 / 3"),
        with(vec![
            OpKind::Mov(rcx(), rax()),
            OpKind::Pop(rax()),
            OpKind::Cdq,
            OpKind::Div(rcx())
        ])
    );
    assert_eq!(compile("6 | 3"), with(vec![OpKind::Pop(rdx()), OpKind::Or(rax(), rdx())]));
    assert_eq!(compile("6 & 3"), with(vec![OpKind::Pop(rdx()), OpKind::And(rax(), rdx())]));
}

#[test]
fn unary_operators_work_in_place() {
    assert_eq!(
        compile("-5"),
        Ok(ops(vec![OpKind::Mov(rax(), imm(5)), OpKind::Neg(rax())]))
    );
    assert_eq!(
        compile("!5"),
        Ok(ops(vec![OpKind::Mov(rax(), imm(5)), OpKind::Not(rax())]))
    );
}

#[test]
fn assignment_stores_through_the_address_and_yields_the_value() {
    assert_eq!(
        compile("i64 x = 1; x = 2;"),
        Ok(ops(vec![
            OpKind::Mov(rax(), imm(1)),
            OpKind::Push(rax()),
            OpKind::Mov(rax(), imm(2)),
            OpKind::Push(rax()),
            OpKind::Lea(rax(), slot(8)),
            OpKind::Pop(rdx()),
            OpKind::Mov(through_rax(), rdx()),
            OpKind::Mov(rax(), rdx()),
        ]))
    );
}

#[test]
fn address_of_and_dereference() {
    assert_eq!(
        compile("i64 x = 1; &x;"),
        Ok(ops(vec![
            OpKind::Mov(rax(), imm(1)),
            OpKind::Push(rax()),
            OpKind::Lea(rax(), slot(0)),
        ]))
    );
    assert_eq!(
        compile("i64 x = 1; *x;"),
        Ok(ops(vec![
            OpKind::Mov(rax(), imm(1)),
            OpKind::Push(rax()),
            OpKind::Mov(rax(), slot(0)),
            OpKind::Mov(rax(), through_rax()),
        ]))
    );
    // store through a pointer: the pointer's value is the address
    assert_eq!(
        compile("i64 p = 1; *p = 5;"),
        Ok(ops(vec![
            OpKind::Mov(rax(), imm(1)),
            OpKind::Push(rax()),
            OpKind::Mov(rax(), imm(5)),
            OpKind::Push(rax()),
            OpKind::Mov(rax(), slot(8)),
            OpKind::Pop(rdx()),
            OpKind::Mov(through_rax(), rdx()),
            OpKind::Mov(rax(), rdx()),
        ]))
    );
}

#[test]
fn array_declaration_reserves_zeroed_words() {
    let block = parse(b"i64 [3] a; i64 x = 1;").expect("parses");
    let mut c = Compiler::new();
    for stmt in &block {
        c.compile_stmt(stmt).expect("compiles");
    }
    assert_eq!(c.offset_of("a"), Some(24));
    assert_eq!(c.offset_of("x"), Some(32));
    assert_eq!(
        c.text(),
        &ops(vec![
            OpKind::Push(imm(0)),
            OpKind::Push(imm(0)),
            OpKind::Push(imm(0)),
            OpKind::Mov(rax(), imm(1)),
            OpKind::Push(rax()),
        ])
    );
}

#[test]
fn empty_array_reserves_nothing() {
    let block = parse(b"i64 [0] a;").expect("parses");
    let mut c = Compiler::new();
    c.compile_stmt(&block[0]).expect("compiles");
    assert_eq!(c.offset_of("a"), Some(0));
    assert_eq!(c.stack_depth(), 0);
    assert!(c.text().is_empty());
}

#[test]
fn bare_scalar_reserves_one_zeroed_word() {
    assert_eq!(compile("i64 x;"), Ok(ops(vec![OpKind::Push(imm(0))])));
}

#[test]
fn array_size_must_fit_the_stack() {
    assert_eq!(kind_of("i64 [99999999999999999999] a;"), ErrorKind::InvalidArraySize);
    // 2^60 words of 8 bytes do not fit below 2^63
    assert_eq!(kind_of("i64 [1152921504606846976] a;"), ErrorKind::InvalidArraySize);
    let mut c = Compiler::new();
    let bad = Stmt::Local(Local::new("a", Some("x"), Some(Token::I64Type), None));
    assert_eq!(c.compile_stmt(&bad).unwrap_err().kind, ErrorKind::InvalidArraySize);
    assert_eq!(c.compile_stmt(&bad).unwrap_err().message(), "invalid array size");
}

#[test]
fn initialiser_takes_precedence_over_size() {
    let mut c = Compiler::new();
    let both = Stmt::Local(Local::new("a", Some("4"), None, Some(Expr::Number("1"))));
    c.compile_stmt(&both).expect("compiles");
    assert_eq!(c.stack_depth(), 8);
}

#[test]
fn index_scales_negates_and_adds_the_base() {
    assert_eq!(
        compile("i64 [2] a; a[1];"),
        Ok(ops(vec![
            OpKind::Push(imm(0)),
            OpKind::Push(imm(0)),
            OpKind::Mov(rax(), imm(1)),
            OpKind::Mov(rdx(), imm(8)),
            OpKind::Mul(rdx()),
            OpKind::Neg(rax()),
            OpKind::Add(rax(), imm(0)),
            OpKind::Mov(rax(), Operand::indexed(RegKind::SP, RegSize::R, rax())),
        ]))
    );
    assert_eq!(
        compile("i64 [2] a; a[0] = 7;"),
        Ok(ops(vec![
            OpKind::Push(imm(0)),
            OpKind::Push(imm(0)),
            OpKind::Mov(rax(), imm(7)),
            OpKind::Push(rax()),
            OpKind::Mov(rax(), imm(0)),
            OpKind::Mov(rdx(), imm(8)),
            OpKind::Mul(rdx()),
            OpKind::Neg(rax()),
            OpKind::Add(rax(), imm(8)),
            OpKind::Lea(rax(), Operand::indexed(RegKind::SP, RegSize::R, rax())),
            OpKind::Pop(rdx()),
            OpKind::Mov(through_rax(), rdx()),
            OpKind::Mov(rax(), rdx()),
        ]))
    );
}

#[test]
fn index_base_must_be_a_name() {
    assert_eq!(kind_of("i64 [2] a; (a)[1];"), ErrorKind::InvalidIndexBase);
    assert_eq!(kind_of("1[2];"), ErrorKind::InvalidIndexBase);
}

#[test]
fn if_else_lowers_to_negated_branch_and_two_labels() {
    assert_eq!(
        compile("i64 a = 1; i64 b = 2; i64 x = 0; if (a == b) { x = 1; } else { x = 2; }"),
        Ok(ops(vec![
            OpKind::Mov(rax(), imm(1)),
            OpKind::Push(rax()),
            OpKind::Mov(rax(), imm(2)),
            OpKind::Push(rax()),
            OpKind::Mov(rax(), imm(0)),
            OpKind::Push(rax()),
            // compare
            OpKind::Mov(rax(), slot(16)),
            OpKind::Push(rax()),
            OpKind::Mov(rax(), slot(16)),
            OpKind::Mov(rdx(), rax()),
            OpKind::Pop(rax()),
            OpKind::Cmp(rax(), rdx()),
            // negated condition, to the else label
            OpKind::Jmp(JmpKind::Jne, 0),
            // then block
            OpKind::Mov(rax(), imm(1)),
            OpKind::Push(rax()),
            OpKind::Lea(rax(), slot(8)),
            OpKind::Pop(rdx()),
            OpKind::Mov(through_rax(), rdx()),
            OpKind::Mov(rax(), rdx()),
            // over the else block
            OpKind::Jmp(JmpKind::Jmp, 1),
            OpKind::Lbl(0),
            // else block
            OpKind::Mov(rax(), imm(2)),
            OpKind::Push(rax()),
            OpKind::Lea(rax(), slot(8)),
            OpKind::Pop(rdx()),
            OpKind::Mov(through_rax(), rdx()),
            OpKind::Mov(rax(), rdx()),
            OpKind::Lbl(1),
        ]))
    );
}

#[test]
fn if_without_else_uses_one_label() {
    assert_eq!(
        compile("if 1 < 2 { 3; }"),
        Ok(ops(vec![
            OpKind::Mov(rax(), imm(1)),
            OpKind::Push(rax()),
            OpKind::Mov(rax(), imm(2)),
            OpKind::Mov(rdx(), rax()),
            OpKind::Pop(rax()),
            OpKind::Cmp(rax(), rdx()),
            OpKind::Jmp(JmpKind::Jge, 0),
            OpKind::Mov(rax(), imm(3)),
            OpKind::Lbl(0),
        ]))
    );
}

#[test]
fn every_comparison_jumps_on_its_negation() {
    let table = [
        ("==", JmpKind::Jne),
        ("!=", JmpKind::Je),
        ("<", JmpKind::Jge),
        ("<=", JmpKind::Jg),
        (">", JmpKind::Jle),
        (">=", JmpKind::Jl),
    ];
    for (op, jump) in table {
        let text = compile(&format!("if 1 {} 2 {{ }}", op)).expect("compiles");
        assert_eq!(text[6], Opcode::u64(OpKind::Jmp(jump, 0)));
    }
    assert_eq!(BiOpKind::CmpEq.to_jmp(), Ok(JmpKind::Jne));
    assert_eq!(BiOpKind::CmpNe.to_jmp(), Ok(JmpKind::Je));
    assert_eq!(BiOpKind::CmpLt.to_jmp(), Ok(JmpKind::Jge));
    assert_eq!(BiOpKind::CmpLe.to_jmp(), Ok(JmpKind::Jg));
    assert_eq!(BiOpKind::CmpGt.to_jmp(), Ok(JmpKind::Jle));
    assert_eq!(BiOpKind::CmpGe.to_jmp(), Ok(JmpKind::Jl));
    assert_eq!(BiOpKind::Add.to_jmp(), Err(CompileError::new(ErrorKind::InvalidCondition)));
    assert_eq!(BiOpKind::Add.to_jmp().unwrap_err().message(), "invalid cmp for jmp");
    assert_eq!(JmpKind::Jne.mnemonic(), "jne");
    assert_eq!(JmpKind::Jmp.mnemonic(), "jmp");
}

#[test]
fn while_lowers_to_top_label_branch_body_jump_end_label() {
    assert_eq!(
        compile("while 1 < 2 { 3; }"),
        Ok(ops(vec![
            OpKind::Lbl(0),
            OpKind::Mov(rax(), imm(1)),
            OpKind::Push(rax()),
            OpKind::Mov(rax(), imm(2)),
            OpKind::Mov(rdx(), rax()),
            OpKind::Pop(rax()),
            OpKind::Cmp(rax(), rdx()),
            OpKind::Jmp(JmpKind::Jge, 1),
            OpKind::Mov(rax(), imm(3)),
            OpKind::Jmp(JmpKind::Jmp, 0),
            OpKind::Lbl(1),
        ]))
    );
}

#[test]
fn nested_constructs_take_later_labels() {
    let text = compile("while 1 < 2 { if 3 < 4 { } else { } } if 5 < 6 { }").expect("compiles");
    let labels: Vec<u64> = text
        .iter()
        .filter_map(|op| match op.kind {
            OpKind::Lbl(l) => Some(l),
            _ => None,
        })
        .collect();
    assert_eq!(labels, vec![0, 2, 3, 1, 4]);
    let jumps: Vec<(JmpKind, u64)> = text
        .iter()
        .filter_map(|op| match op.kind {
            OpKind::Jmp(k, l) => Some((k, l)),
            _ => None,
        })
        .collect();
    assert_eq!(
        jumps,
        vec![
            (JmpKind::Jge, 1),
            (JmpKind::Jge, 2),
            (JmpKind::Jmp, 3),
            (JmpKind::Jmp, 0),
            (JmpKind::Jge, 4)
        ]
    );
}

#[test]
fn logical_and_shares_the_false_label() {
    let text = compile("if 1 < 2 && 3 < 4 { }").expect("compiles");
    let jumps: Vec<(JmpKind, u64)> = text
        .iter()
        .filter_map(|op| match op.kind {
            OpKind::Jmp(k, l) => Some((k, l)),
            _ => None,
        })
        .collect();
    assert_eq!(jumps, vec![(JmpKind::Jge, 0), (JmpKind::Jge, 0)]);
}

#[test]
fn logical_or_short_circuits_with_its_own_labels() {
    let text = compile("if 1 < 2 || 3 < 4 { 5; }").expect("compiles");
    let flow: Vec<OpKind> = text
        .into_iter()
        .map(|op| op.kind)
        .filter(|k| matches!(k, OpKind::Jmp(_, _) | OpKind::Lbl(_)))
        .collect();
    assert_eq!(
        flow,
        vec![
            // left false: try the right side
            OpKind::Jmp(JmpKind::Jge, 1),
            // left true: skip the right side
            OpKind::Jmp(JmpKind::Jmp, 2),
            OpKind::Lbl(1),
            // right false: the whole condition is false
            OpKind::Jmp(JmpKind::Jge, 0),
            OpKind::Lbl(2),
            OpKind::Lbl(0),
        ]
    );
}

#[test]
fn comparison_as_a_value_is_refused() {
    assert_eq!(kind_of("i64 x = 0; x = (1 == 2);"), ErrorKind::ConditionAsValue);
    assert_eq!(kind_of("1 < 2;"), ErrorKind::ConditionAsValue);
    assert_eq!(kind_of("1 && 2;"), ErrorKind::ConditionAsValue);
    assert_eq!(kind_of("1 || 2;"), ErrorKind::ConditionAsValue);
}

#[test]
fn condition_must_be_built_from_comparisons() {
    assert_eq!(kind_of("if 1 { }"), ErrorKind::InvalidCondition);
    assert_eq!(kind_of("while 1 + 2 { }"), ErrorKind::InvalidCondition);
    assert_eq!(kind_of("i64 x = 1; if x { }"), ErrorKind::InvalidCondition);
    assert_eq!(kind_of("if 1 < 2 && 3 { }"), ErrorKind::InvalidCondition);
    assert_eq!(kind_of("if 1 = 2 { }"), ErrorKind::InvalidCondition);
}

#[test]
fn only_places_can_be_assigned() {
    assert_eq!(kind_of("1 = 2;"), ErrorKind::NotAssignable);
    assert_eq!(kind_of("i64 a = 1; a + 1 = 2;"), ErrorKind::NotAssignable);
    assert_eq!(kind_of("i64 a = 1; -a = 2;"), ErrorKind::NotAssignable);
    assert_eq!(kind_of("i64 a = 1; &a = 2;"), ErrorKind::NotAssignable);
    assert_eq!(kind_of("i64 a = 1; &1;"), ErrorKind::NotAssignable);
    assert_eq!(kind_of("i64 a = 1; (a = 1) = 2;"), ErrorKind::NotAssignable);
    assert_eq!(kind_of("if 1 < 2 { } = 3;"), ErrorKind::NotAssignable);
    assert!(compile("i64 a = 1; (a) = 2;").is_ok());
}

#[test]
fn calls_have_no_lowering() {
    assert_eq!(kind_of("f(1);"), ErrorKind::Unsupported);
}

#[test]
fn error_gives_no_instructions() {
    let r = compile("1 + 2; x;");
    assert_eq!(r, Err(CompileError::new(ErrorKind::IdentNotFound)));
}

#[test]
fn expression_statement_leaves_the_stack_as_deep_as_it_found_it() {
    let block = parse(b"i64 a = 1; a = (a + 2) * (a - 3) / -a | (a & 7); if a < 2 && a > 0 || a == 5 { a = a + 1; } while a != 9 { a = a + 1; }").expect("parses");
    let mut c = Compiler::new();
    c.compile_stmt(&block[0]).expect("compiles");
    assert_eq!(c.stack_depth(), 8);
    for stmt in &block[1..] {
        c.compile_stmt(stmt).expect("compiles");
        assert_eq!(c.stack_depth(), 8);
        assert_eq!(c.symbol_count(), 1);
    }
    let pushes = c.text().iter().filter(|op| matches!(op.kind, OpKind::Push(_))).count();
    let pops = c.text().iter().filter(|op| matches!(op.kind, OpKind::Pop(_))).count();
    assert_eq!(pushes, pops + 1);
}

#[test]
fn declaration_inside_a_block_deepens_the_stack() {
    let block = parse(b"if 1 < 2 { i64 t = 1; }").expect("parses");
    let mut c = Compiler::new();
    c.compile_stmt(&block[0]).expect("compiles");
    assert_eq!(c.stack_depth(), 8);
    assert_eq!(c.offset_of("t"), Some(8));
}

#[test]
fn stack_operations_by_hand() {
    let mut c = Compiler::new();
    assert_eq!(c.next_label(), 0);
    c.push_rax().expect("fits");
    c.push(imm(3)).expect("fits");
    assert_eq!(c.stack_depth(), 16);
    c.pop_rdx();
    c.pop_rax();
    c.push(rcx()).expect("fits");
    c.pop(rcx());
    assert_eq!(c.stack_depth(), 0);
    assert_eq!(
        c.text(),
        &ops(vec![
            OpKind::Push(rax()),
            OpKind::Push(imm(3)),
            OpKind::Pop(rdx()),
            OpKind::Pop(rax()),
            OpKind::Push(rcx()),
            OpKind::Pop(rcx()),
        ])
    );
    assert_eq!(Operand::reg(RegKind::C, RegSize::R), rcx());
}

#[test]
fn compile_takes_a_tree_built_by_hand() {
    let block = vec![Stmt::Expr(Expr::BiOp(Box::new(BiOpEx {
        kind: BiOpKind::Add,
        children: (Expr::Number("1"), Expr::Number("2")),
    })))];
    let program = Compiler::compile(block).expect("compiles");
    assert_eq!(program.stack_size, 0);
    assert_eq!(program.text.len(), 5);
}

#[test]
fn generator_goes_on_after_a_refusal() {
    let block = parse(b"i64 x = 1; y; x + 1;").expect("parses");
    let mut c = Compiler::new();
    c.compile_stmt(&block[0]).expect("compiles");
    assert_eq!(c.compile_stmt(&block[1]).unwrap_err().kind, ErrorKind::IdentNotFound);
    c.compile_stmt(&block[2]).expect("compiles");
    assert_eq!(c.stack_depth(), 8);
}

#[test]
fn every_label_is_defined_once_and_every_jump_lands() {
    let source = "i64 a = 0; \
        while a < 9 && a != 7 || a == 100 { \
            if a > 3 || a < 1 { a = a + 2; } else { if a == 2 { a = a + 1; } a = a + 1; } \
        } \
        if a >= 9 { while a > 0 { a = a - 1; } }";
    let block = parse(source.as_bytes()).expect("parses");
    let program = Compiler::compile(block).expect("compiles");
    let mut defined = vec![0u32; program.labels as usize];
    for op in &program.text {
        if let OpKind::Lbl(l) = op.kind {
            defined[l as usize] += 1;
        }
    }
    assert!(program.labels > 8);
    assert!(defined.iter().all(|n| *n == 1));
    for op in &program.text {
        if let OpKind::Jmp(_, l) = op.kind {
            assert!(l < program.labels);
        }
    }
}
