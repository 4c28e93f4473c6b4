use std::collections::HashMap;

use mor::{parse, Compiler, JmpKind, OpKind, Opcode, Operand, RegKind, Register};

/// A small machine that runs the instruction list the way the target would:
/// four registers, a stack that grows downwards, and the outcome of the last
/// comparison.
struct Machine {
    rax: i64,
    rcx: i64,
    rdx: i64,
    rsp: i64,
    memory: HashMap<i64, i64>,
    compared: (i64, i64),
    /// How often each instruction ran, by index.
    visits: Vec<u64>,
}

const STACK_BASE: i64 = 1 << 20;

impl Machine {
    fn new(len: usize) -> Self {
        Machine {
            rax: 0,
            rcx: 0,
            rdx: 0,
            rsp: STACK_BASE,
            memory: HashMap::new(),
            compared: (0, 0),
            visits: vec![0; len],
        }
    }

    fn reg(&self, r: &Register) -> i64 {
        match r.kind {
            RegKind::A => self.rax,
            RegKind::C => self.rcx,
            RegKind::D => self.rdx,
            RegKind::SP => self.rsp,
            _ => panic!("register not used by generated code"),
        }
    }

    fn set_reg(&mut self, r: &Register, v: i64) {
        match r.kind {
            RegKind::A => self.rax = v,
            RegKind::C => self.rcx = v,
            RegKind::D => self.rdx = v,
            RegKind::SP => self.rsp = v,
            _ => panic!("register not used by generated code"),
        }
    }

    fn address(&self, op: &Operand) -> i64 {
        match op {
            Operand::Indexed(base, off) => self.reg(base).wrapping_add(self.read(off)),
            Operand::Val(r) => self.reg(r),
            _ => panic!("operand has no address"),
        }
    }

    fn read(&self, op: &Operand) -> i64 {
        match op {
            Operand::Reg(r) => self.reg(r),
            Operand::Immediate(v) => *v,
            Operand::Indexed(_, _) | Operand::Val(_) => {
                *self.memory.get(&self.address(op)).unwrap_or(&0)
            }
            _ => panic!("operand not used by generated code"),
        }
    }

    fn write(&mut self, op: &Operand, v: i64) {
        match op {
            Operand::Reg(r) => self.set_reg(r, v),
            Operand::Indexed(_, _) | Operand::Val(_) => {
                let a = self.address(op);
                self.memory.insert(a, v);
            }
            _ => panic!("operand cannot be written"),
        }
    }

    fn taken(&self, kind: JmpKind) -> bool {
        let (a, b) = self.compared;
        match kind {
            JmpKind::Jmp => true,
            JmpKind::Je => a == b,
            JmpKind::Jne => a != b,
            JmpKind::Jl => a < b,
            JmpKind::Jle => a <= b,
            JmpKind::Jg => a > b,
            JmpKind::Jge => a >= b,
        }
    }

    fn run(&mut self, text: &[Opcode]) {
        let mut labels = HashMap::new();
        for (i, op) in text.iter().enumerate() {
            if let OpKind::Lbl(l) = op.kind {
                assert!(labels.insert(l, i).is_none(), "label defined twice");
            }
        }
        let mut pc = 0;
        let mut steps = 0;
        while pc < text.len() {
            steps += 1;
            assert!(steps < 100_000, "does not terminate");
            self.visits[pc] += 1;
            let mut next = pc + 1;
            match &text[pc].kind {
                OpKind::Lbl(_) => {}
                OpKind::Jmp(kind, l) => {
                    if self.taken(*kind) {
                        next = *labels.get(l).expect("jump to a defined label");
                    }
                }
                OpKind::Cmp(a, b) => self.compared = (self.read(a), self.read(b)),
                OpKind::Or(a, b) => self.write(a, self.read(a) | self.read(b)),
                OpKind::And(a, b) => self.write(a, self.read(a) & self.read(b)),
                OpKind::Xor(a, b) => self.write(a, self.read(a) ^ self.read(b)),
                OpKind::Lea(a, b) => self.write(a, self.address(b)),
                OpKind::Mov(a, b) => self.write(a, self.read(b)),
                OpKind::Add(a, b) => self.write(a, self.read(a).wrapping_add(self.read(b))),
                OpKind::Sub(a, b) => self.write(a, self.read(a).wrapping_sub(self.read(b))),
                OpKind::Mul(a) => {
                    let wide = (self.rax as i128) * (self.read(a) as i128);
                    self.rax = wide as i64;
                    self.rdx = (wide >> 64) as i64;
                }
                OpKind::Div(a) => {
                    let divisor = self.read(a);
                    let dividend = ((self.rdx as i128) << 64) | (self.rax as u64 as i128);
                    self.rax = (dividend / divisor as i128) as i64;
                    self.rdx = (dividend % divisor as i128) as i64;
                }
                OpKind::Not(a) => self.write(a, !self.read(a)),
                OpKind::Neg(a) => self.write(a, self.read(a).wrapping_neg()),
                OpKind::Push(a) => {
                    let v = self.read(a);
                    self.rsp -= 8;
                    self.memory.insert(self.rsp, v);
                }
                OpKind::Pop(a) => {
                    let v = *self.memory.get(&self.rsp).unwrap_or(&0);
                    self.rsp += 8;
                    self.write(a, v);
                }
                OpKind::Cdq => self.rdx = if self.rax < 0 { -1 } else { 0 },
            }
            pc = next;
        }
    }
}

fn run(source: &str) -> (Machine, Vec<Opcode>) {
    let block = parse(source.as_bytes()).expect("parses");
    let program = Compiler::compile(block).expect("compiles");
    let mut m = Machine::new(program.text.len());
    m.run(&program.text);
    (m, program.text)
}

fn result(source: &str) -> i64 {
    run(source).0.rax
}

#[test]
fn arithmetic_computes_what_it_says() {
    assert_eq!(result("1 + 2 * 3;"), 7);
    assert_eq!(result("(1 + 2) * 3;"), 9);
    assert_eq!(result("10 - 4 - 3;"), 3);
    assert_eq!(result("100 / 7;"), 14);
    assert_eq!(result("-100 / 7;"), -14);
    assert_eq!(result("100 / -7;"), -14);
    assert_eq!(result("2 - 5;"), -3);
    assert_eq!(result("12 | 3;"), 15);
    assert_eq!(result("12 & 10;"), 8);
    assert_eq!(result("-5;"), -5);
    assert_eq!(result("!0;"), -1);
    assert_eq!(result("7 * 6 - 2 * (3 + 4) / 7;"), 40);
}

#[test]
fn locals_are_read_where_they_were_pushed() {
    assert_eq!(result("x: i64 = 10; y: i64 = x + 5; y;"), 15);
    assert_eq!(result("x: i64 = 10; y: i64 = x + 5; x;"), 10);
    assert_eq!(result("i64 a = 1; i64 b = 2; i64 c = 3; a * 100 + b * 10 + c;"), 123);
    assert_eq!(result("i64 a = 1; i64 b = a + a; i64 c = b + b; (c + b) * (c - a);"), 18);
}

#[test]
fn the_stack_pointer_follows_the_tracked_depth() {
    let block = parse(b"i64 a = 1; i64 [3] v; i64 b = a + 2 * a; b = b + a;").expect("parses");
    let mut c = Compiler::new();
    for stmt in &block {
        c.compile_stmt(stmt).expect("compiles");
    }
    let depth = c.stack_depth();
    let program = c.finish();
    let mut m = Machine::new(program.text.len());
    m.run(&program.text);
    assert_eq!(STACK_BASE - m.rsp, depth as i64);
    assert_eq!(depth, 40);
}

#[test]
fn assignment_stores_and_yields_the_stored_value() {
    assert_eq!(result("i64 x = 1; x = 5; x;"), 5);
    assert_eq!(result("i64 x = 1; x = 5;"), 5);
    assert_eq!(result("i64 a = 0; i64 b = 0; a = b = 3; a * 10 + b;"), 33);
    assert_eq!(result("i64 x = 1; x = x + x; x = x + x; x;"), 4);
}

#[test]
fn pointers_read_and_write_through() {
    assert_eq!(result("i64 x = 7; i64 p = &x; *p;"), 7);
    assert_eq!(result("i64 x = 7; i64 *p = &x; *p = 9; x;"), 9);
    assert_eq!(result("i64 x = 7; i64 p = &x; i64 q = &p; **q;"), 7);
}

#[test]
fn uninitialised_scalar_has_its_own_zeroed_slot() {
    assert_eq!(result("i64 a = 5; i64 b; b;"), 0);
    assert_eq!(result("i64 a = 5; i64 b; b = 8; a * 10 + b;"), 58);
}

#[test]
fn first_array_element_is_the_deepest_word() {
    assert_eq!(result("i64 w = 4; i64 [2] a; a[0] = 6; a[0] + w;"), 10);
}

#[test]
fn if_takes_the_right_branch() {
    assert_eq!(result("i64 x = 0; if 1 == 1 { x = 1; } else { x = 2; } x;"), 1);
    assert_eq!(result("i64 x = 0; if 1 == 2 { x = 1; } else { x = 2; } x;"), 2);
    assert_eq!(result("i64 x = 0; if 1 != 2 { x = 1; } x;"), 1);
    assert_eq!(result("i64 x = 0; if 1 != 1 { x = 1; } x;"), 0);
    assert_eq!(result("i64 a = 3; i64 b = 3; i64 x = 0; if (a == b) { x = 1; } else { x = 2; } x;"), 1);
}

#[test]
fn every_comparison_decides_correctly() {
    let cases = [
        ("==", [false, true, false]),
        ("!=", [true, false, true]),
        ("<", [true, false, false]),
        ("<=", [true, true, false]),
        (">", [false, false, true]),
        (">=", [false, true, true]),
    ];
    for (op, expect) in cases {
        for (i, left) in [1, 2, 3].iter().enumerate() {
            let source = format!("i64 x = 0; if {} {} 2 {{ x = 1; }} x;", left, op);
            assert_eq!(result(&source) == 1, expect[i], "{}", source);
        }
    }
    assert_eq!(result("i64 x = 0; if 0 - 1 < 1 { x = 1; } x;"), 1);
}

#[test]
fn logical_operators_short_circuit() {
    for a in [0, 1] {
        for b in [0, 1] {
            let and = format!("i64 x = 0; if {} == 1 && {} == 1 {{ x = 1; }} x;", a, b);
            assert_eq!(result(&and), (a == 1 && b == 1) as i64, "{}", and);
            let or = format!("i64 x = 0; if {} == 1 || {} == 1 {{ x = 1; }} else {{ x = 2; }} x;", a, b);
            assert_eq!(result(&or), if a == 1 || b == 1 { 1 } else { 2 }, "{}", or);
        }
    }
    assert_eq!(
        result("i64 x = 0; if (1 == 2 || 3 == 3) && (4 == 4 || 5 == 6) { x = 1; } x;"),
        1
    );
    assert_eq!(
        result("i64 x = 0; if 1 == 2 || 3 == 4 || 5 == 5 { x = 1; } x;"),
        1
    );
    assert_eq!(result("i64 x = 0; if 1 == 2 || 3 == 3 && 4 == 5 { x = 1; } x;"), 0);
}

#[test]
fn right_side_of_a_true_or_is_not_evaluated() {
    let (m, text) = run("i64 x = 0; if 1 == 1 || 7 == 8 { x = 1; }");
    let seven = text
        .iter()
        .position(|op| op.kind == OpKind::Mov(Operand::rax(), Operand::immediate(7)))
        .expect("right operand is in the code");
    assert_eq!(m.visits[seven], 0);
}

#[test]
fn while_loops_run_until_the_condition_fails() {
    assert_eq!(result("i64 i = 0; while i < 3 { i = i + 1; } i;"), 3);
    assert_eq!(
        result("i64 i = 0; i64 s = 0; while i != 10 { i = i + 1; s = s + i; } s;"),
        55
    );
    assert_eq!(
        result("i64 i = 0; i64 n = 0; i64 j = 0; while i < 4 { j = i; i = i + 1; if j > 1 { n = n + 1; } } n;"),
        2
    );
}

#[test]
fn while_body_is_never_reached_when_the_condition_is_false_at_entry() {
    let (m, text) = run("i64 x = 5; while (1 == 2) { x = 99; } x;");
    assert_eq!(m.rax, 5);
    let top = text.iter().position(|op| op.kind == OpKind::Lbl(0)).expect("top label");
    let end = text.iter().position(|op| op.kind == OpKind::Lbl(1)).expect("end label");
    let branch = text
        .iter()
        .position(|op| op.kind == OpKind::Jmp(JmpKind::Jne, 1))
        .expect("branch on the negated condition");
    assert!(top < branch && branch < end);
    // loop top, condition, branch taken, loop end: once each
    assert_eq!(m.visits[top], 1);
    assert_eq!(m.visits[branch], 1);
    assert_eq!(m.visits[end], 1);
    // the body, and the jump back, never
    assert!(end - branch > 2);
    for i in branch + 1..end {
        assert_eq!(m.visits[i], 0);
    }
    assert_eq!(text[end - 1].kind, OpKind::Jmp(JmpKind::Jmp, 0));
}

#[test]
fn nested_loops() {
    assert_eq!(
        result(
            "i64 i = 0; i64 n = 0; i64 j = 0; \
             while i < 3 { j = 0; while j < 4 { n = n + 1; j = j + 1; } i = i + 1; } n;"
        ),
        12
    );
}
