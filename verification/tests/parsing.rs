use mor::{
    parse, parse_all, parse_source, BiOpEx, BiOpKind, Call, Diagnostic, Expected, Expr, If,
    Index, LexError, Local, Stmt, SyntaxError, Token, Tokenizer, UnOpEx, UnOpKind, While,
};

fn bi<'a>(kind: BiOpKind, a: Expr<'a>, b: Expr<'a>) -> Expr<'a> {
    Expr::BiOp(Box::new(BiOpEx { kind, children: (a, b) }))
}

fn un<'a>(kind: UnOpKind, child: Expr<'a>) -> Expr<'a> {
    Expr::UnOp(Box::new(UnOpEx { kind, child }))
}

fn id(s: &str) -> Expr<'_> {
    Expr::Ident(s)
}

fn num(s: &str) -> Expr<'_> {
    Expr::Number(s)
}

fn one(source: &str) -> Expr<'_> {
    let mut stmts = parse(source.as_bytes()).expect("parses");
    assert_eq!(stmts.len(), 1);
    match stmts.remove(0) {
        Stmt::Expr(e) => e,
        Stmt::Local(_) => panic!("expected an expression"),
    }
}

#[test]
fn multiplication_binds_tighter_than_addition() {
    assert_eq!(
        one("1 + 2 * 3;"),
        bi(BiOpKind::Add, num("1"), bi(BiOpKind::Mul, num("2"), num("3")))
    );
    assert_eq!(
        one("1 * 2 + 3;"),
        bi(BiOpKind::Add, bi(BiOpKind::Mul, num("1"), num("2")), num("3"))
    );
}

#[test]
fn assignment_associates_to_the_right() {
    assert_eq!(
        one("a = b = 3;"),
        bi(BiOpKind::Assign, id("a"), bi(BiOpKind::Assign, id("b"), num("3")))
    );
}

#[test]
fn other_operators_associate_to_the_left() {
    assert_eq!(
        one("a - b - c"),
        bi(BiOpKind::Sub, bi(BiOpKind::Sub, id("a"), id("b")), id("c"))
    );
    assert_eq!(
        one("a / b * c"),
        bi(BiOpKind::Mul, bi(BiOpKind::Div, id("a"), id("b")), id("c"))
    );
    assert_eq!(
        one("a == b != c"),
        bi(BiOpKind::CmpNe, bi(BiOpKind::CmpEq, id("a"), id("b")), id("c"))
    );
}

#[test]
fn precedence_ladder_low_to_high() {
    // assignment < logical < bitwise < comparison < additive < multiplicative
    assert_eq!(
        one("x = a || b & c == d + e * f"),
        bi(
            BiOpKind::Assign,
            id("x"),
            bi(
                BiOpKind::BoOr,
                id("a"),
                bi(
                    BiOpKind::BiAnd,
                    id("b"),
                    bi(
                        BiOpKind::CmpEq,
                        id("c"),
                        bi(BiOpKind::Add, id("d"), bi(BiOpKind::Mul, id("e"), id("f")))
                    )
                )
            )
        )
    );
    assert_eq!(
        one("a && b || c"),
        bi(BiOpKind::BoOr, bi(BiOpKind::BoAnd, id("a"), id("b")), id("c"))
    );
    assert_eq!(
        one("a | b && c"),
        bi(BiOpKind::BoAnd, bi(BiOpKind::BiOr, id("a"), id("b")), id("c"))
    );
    assert_eq!(
        one("a < b + 1"),
        bi(BiOpKind::CmpLt, id("a"), bi(BiOpKind::Add, id("b"), num("1")))
    );
}

#[test]
fn binding_powers_are_exact() {
    let table = [
        (BiOpKind::Assign, 10, 9),
        (BiOpKind::BoOr, 20, 21),
        (BiOpKind::BoAnd, 30, 31),
        (BiOpKind::BiOr, 40, 41),
        (BiOpKind::BiAnd, 50, 51),
        (BiOpKind::CmpEq, 60, 61),
        (BiOpKind::CmpNe, 60, 61),
        (BiOpKind::CmpLt, 60, 61),
        (BiOpKind::CmpLe, 60, 61),
        (BiOpKind::CmpGt, 60, 61),
        (BiOpKind::CmpGe, 60, 61),
        (BiOpKind::Add, 100, 101),
        (BiOpKind::Sub, 100, 101),
        (BiOpKind::Mul, 200, 201),
        (BiOpKind::Div, 200, 201),
    ];
    for (kind, l, r) in table {
        assert_eq!(kind.lprec(), l);
        assert_eq!(kind.rprec(), r);
    }
}

#[test]
fn prefix_operators_bind_tighter_than_binary_ones() {
    assert_eq!(
        one("-a * b"),
        bi(BiOpKind::Mul, un(UnOpKind::Neg, id("a")), id("b"))
    );
    assert_eq!(one("!-a"), un(UnOpKind::Not, un(UnOpKind::Neg, id("a"))));
    assert_eq!(one("&a"), un(UnOpKind::Ref, id("a")));
    assert_eq!(
        one("*p = 1"),
        bi(BiOpKind::Assign, un(UnOpKind::Deref, id("p")), num("1"))
    );
    assert_eq!(
        one("a - -b"),
        bi(BiOpKind::Sub, id("a"), un(UnOpKind::Neg, id("b")))
    );
}

#[test]
fn parentheses_are_kept_as_a_node() {
    assert_eq!(
        one("(1 + 2) * 3"),
        bi(
            BiOpKind::Mul,
            Expr::SubExpr(Box::new(bi(BiOpKind::Add, num("1"), num("2")))),
            num("3")
        )
    );
}

#[test]
fn index_and_call_are_postfix() {
    assert_eq!(
        one("a[i + 1]"),
        Expr::Index(Box::new(Index {
            base: id("a"),
            index: bi(BiOpKind::Add, id("i"), num("1"))
        }))
    );
    assert_eq!(
        one("a[1][2]"),
        Expr::Index(Box::new(Index {
            base: Expr::Index(Box::new(Index { base: id("a"), index: num("1") })),
            index: num("2")
        }))
    );
    assert_eq!(
        one("f(1, x; 2)"),
        Expr::Call(Box::new(Call { fun: id("f"), args: vec![num("1"), id("x"), num("2")] }))
    );
    assert_eq!(one("f()"), Expr::Call(Box::new(Call { fun: id("f"), args: vec![] })));
    assert_eq!(
        one("1 + a[2] * 3"),
        bi(
            BiOpKind::Add,
            num("1"),
            bi(
                BiOpKind::Mul,
                Expr::Index(Box::new(Index { base: id("a"), index: num("2") })),
                num("3")
            )
        )
    );
}

#[test]
fn if_with_and_without_else() {
    assert_eq!(
        one("if (a == b) { x = 1; } else { x = 2; }"),
        Expr::If(Box::new(If {
            condition: Expr::SubExpr(Box::new(bi(BiOpKind::CmpEq, id("a"), id("b")))),
            on_true: vec![Stmt::Expr(bi(BiOpKind::Assign, id("x"), num("1")))],
            on_false: Some(vec![Stmt::Expr(bi(BiOpKind::Assign, id("x"), num("2")))]),
        }))
    );
    assert_eq!(
        one("if a < b { }"),
        Expr::If(Box::new(If {
            condition: bi(BiOpKind::CmpLt, id("a"), id("b")),
            on_true: vec![],
            on_false: None,
        }))
    );
}

#[test]
fn while_with_nested_if() {
    assert_eq!(
        one("while i != 0 { if i > 5 { i = 0 } i = i - 1; }"),
        Expr::While(Box::new(While {
            condition: bi(BiOpKind::CmpNe, id("i"), num("0")),
            body: vec![
                Stmt::Expr(Expr::If(Box::new(If {
                    condition: bi(BiOpKind::CmpGt, id("i"), num("5")),
                    on_true: vec![Stmt::Expr(bi(BiOpKind::Assign, id("i"), num("0")))],
                    on_false: None,
                }))),
                Stmt::Expr(bi(
                    BiOpKind::Assign,
                    id("i"),
                    bi(BiOpKind::Sub, id("i"), num("1"))
                )),
            ],
        }))
    );
}

#[test]
fn declarations_with_leading_type() {
    assert_eq!(
        parse(b"i64 x = 10; i8 y; i32 [4] buf; i64 *p = &x;"),
        Some(vec![
            Stmt::Local(Local::new("x", None, Some(Token::I64Type), Some(num("10")))),
            Stmt::Local(Local::new("y", None, Some(Token::I08Type), None)),
            Stmt::Local(Local::new("buf", Some("4"), Some(Token::I32Type), None)),
            Stmt::Local(Local::new(
                "p",
                None,
                Some(Token::I64Type),
                Some(un(UnOpKind::Ref, id("x")))
            )),
        ])
    );
}

#[test]
fn declarations_with_leading_name() {
    assert_eq!(
        parse(b"x: i64 = 10; y: i64 = x + 5;"),
        Some(vec![
            Stmt::Local(Local::new("x", None, Some(Token::I64Type), Some(num("10")))),
            Stmt::Local(Local::new(
                "y",
                None,
                Some(Token::I64Type),
                Some(bi(BiOpKind::Add, id("x"), num("5")))
            )),
        ])
    );
    assert_eq!(
        parse(b"a: i16 [3]"),
        Some(vec![Stmt::Local(Local::new("a", Some("3"), Some(Token::I16Type), None))])
    );
}

#[test]
fn semicolons_are_optional_and_repeatable() {
    assert_eq!(
        parse(b";;a;;;b c;"),
        Some(vec![Stmt::Expr(id("a")), Stmt::Expr(id("b")), Stmt::Expr(id("c"))])
    );
    assert_eq!(parse(b""), Some(vec![]));
    assert_eq!(parse(b";"), Some(vec![]));
}

#[test]
fn oversized_literal_is_not_a_parse_error() {
    assert_eq!(
        parse(b"99999999999999999999999"),
        Some(vec![Stmt::Expr(num("99999999999999999999999"))])
    );
}

#[test]
fn structural_mismatches_are_rejected() {
    // missing closing delimiters
    assert_eq!(parse(b"(1 + 2"), None);
    assert_eq!(parse(b"a[1"), None);
    assert_eq!(parse(b"f(1, 2"), None);
    assert_eq!(parse(b"if a == b { x = 1;"), None);
    assert_eq!(parse(b"while a < b { "), None);
    // missing block
    assert_eq!(parse(b"if a == b x = 1;"), None);
    assert_eq!(parse(b"if a == b { } else x"), None);
    // missing operand
    assert_eq!(parse(b"1 +"), None);
    assert_eq!(parse(b"* "), None);
    assert_eq!(parse(b"a = ;"), None);
    // stray closers
    assert_eq!(parse(b"}"), None);
    assert_eq!(parse(b"a )"), None);
    // expected identifier
    assert_eq!(parse(b"i64 = 3"), None);
    assert_eq!(parse(b"i64 [3] 4"), None);
    // expected type
    assert_eq!(parse(b"x: = 3"), None);
    assert_eq!(parse(b"x: y = 3"), None);
    // array size must be a literal in brackets
    assert_eq!(parse(b"i64 [n] a"), None);
    assert_eq!(parse(b"i64 [3 a"), None);
    // tokens that start nothing
    assert_eq!(parse(b"a := 1"), None);
    assert_eq!(parse(b"-> a"), None);
    assert_eq!(parse(b"else { }"), None);
}

#[test]
fn lexical_error_gives_no_tree() {
    assert_eq!(parse(b"1 + #"), None);
}

fn refusal(source: &str) -> SyntaxError {
    let tokens = Tokenizer::try_tokenize(source.as_bytes()).expect("lexes");
    parse_all(&tokens).unwrap_err()
}

#[test]
fn syntax_errors_say_what_was_expected_and_where() {
    // missing closing delimiters, found at the end of the input
    assert_eq!(refusal("(1 + 2"), SyntaxError { at: 4, expected: Expected::Paren(')') });
    assert_eq!(refusal("a[1"), SyntaxError { at: 3, expected: Expected::Paren(']') });
    assert_eq!(refusal("f(1, 2"), SyntaxError { at: 5, expected: Expected::Paren(')') });
    assert_eq!(
        refusal("if a == b { x = 1;"),
        SyntaxError { at: 9, expected: Expected::Paren('}') }
    );
    // a wrong token where a delimiter belongs
    assert_eq!(refusal("(1 + 2 ]"), SyntaxError { at: 4, expected: Expected::Paren(')') });
    assert_eq!(refusal("a[1)"), SyntaxError { at: 3, expected: Expected::Paren(']') });
    // missing blocks
    assert_eq!(refusal("if a == b x"), SyntaxError { at: 4, expected: Expected::Paren('{') });
    assert_eq!(
        refusal("if a == b { } else x"),
        SyntaxError { at: 7, expected: Expected::Paren('{') }
    );
    assert_eq!(refusal("while a < b"), SyntaxError { at: 4, expected: Expected::Paren('{') });
    // missing operands
    assert_eq!(refusal("1 +"), SyntaxError { at: 2, expected: Expected::Expression });
    assert_eq!(refusal("1 + ;"), SyntaxError { at: 2, expected: Expected::Expression });
    assert_eq!(refusal("a = b = "), SyntaxError { at: 4, expected: Expected::Expression });
    assert_eq!(refusal("- - "), SyntaxError { at: 2, expected: Expected::Expression });
    // tokens that start nothing
    assert_eq!(refusal("}"), SyntaxError { at: 0, expected: Expected::Expression });
    assert_eq!(refusal("a; ) b"), SyntaxError { at: 2, expected: Expected::Expression });
    assert_eq!(refusal("a := 1"), SyntaxError { at: 1, expected: Expected::Expression });
    // declarations
    assert_eq!(refusal("i64 = 3"), SyntaxError { at: 1, expected: Expected::Ident });
    assert_eq!(refusal("i64"), SyntaxError { at: 1, expected: Expected::Ident });
    assert_eq!(refusal("i64 [n] a"), SyntaxError { at: 2, expected: Expected::Number });
    assert_eq!(refusal("i64 [3 a"), SyntaxError { at: 3, expected: Expected::Paren(']') });
    assert_eq!(refusal("x: = 3"), SyntaxError { at: 2, expected: Expected::Type });
    assert_eq!(refusal("x:"), SyntaxError { at: 2, expected: Expected::Type });
    assert_eq!(refusal("i64 x = "), SyntaxError { at: 3, expected: Expected::Expression });
}

#[test]
fn first_error_wins() {
    assert_eq!(refusal("a = ; (b"), SyntaxError { at: 2, expected: Expected::Expression });
    assert_eq!(refusal("(a ; (b"), SyntaxError { at: 2, expected: Expected::Paren(')') });
}

#[test]
fn parse_source_locates_the_offending_token() {
    assert_eq!(
        parse_source(b"a = 1;\nb = (2 + 3;\n"),
        Err(Diagnostic::Syntax {
            error: SyntaxError { at: 10, expected: Expected::Paren(')') },
            pos: 17,
            line: 1,
        })
    );
    // the input ends too early: the place is the end of the source
    assert_eq!(
        parse_source(b"if a < b {\n  a = 1;\n"),
        Err(Diagnostic::Syntax {
            error: SyntaxError { at: 9, expected: Expected::Paren('}') },
            pos: 20,
            line: 2,
        })
    );
    assert_eq!(
        parse_source(b"/* one\n two */ x: y"),
        Err(Diagnostic::Syntax {
            error: SyntaxError { at: 2, expected: Expected::Type },
            pos: 18,
            line: 1,
        })
    );
    assert_eq!(
        parse_source(b"a = 1;\n b = 2 @ 3;"),
        Err(Diagnostic::Lexical(LexError { pos: 14, line: 1, byte: b'@' }))
    );
    assert_eq!(parse_source(b"a = 1;"), Ok(parse(b"a = 1;").unwrap()));
}

#[test]
fn scan_source_gives_the_start_of_each_token() {
    let (tokens, starts) = Tokenizer::scan_source(b"  ab + /* c */ 12\n;").expect("lexes");
    assert_eq!(tokens.len(), 4);
    assert_eq!(starts, vec![2, 5, 15, 18]);
    assert_eq!(Tokenizer::line_number(b"a\nb\n\nc", 0), 0);
    assert_eq!(Tokenizer::line_number(b"a\nb\n\nc", 2), 1);
    assert_eq!(Tokenizer::line_number(b"a\nb\n\nc", 5), 3);
    assert_eq!(Tokenizer::line_number(b"a\nb\n\nc", 6), 3);
}
