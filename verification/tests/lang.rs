use mor::lang::lexer;
use mor::lang::parser::{process, try_process};
use mor::lang::{MStruct, Stmt, Token, TokenKind};

#[test]
fn test_parser_struct_empty() {
    let source = "sv :: struct {}";
    let tokens = lexer::process(source);
    assert_eq!(
        process(source, &tokens),
        &[Stmt::Struct(MStruct {
            ident: &Token { begin: 0, end: 2, line: 0, kind: TokenKind::Literal }
        })]
    );
}

#[test]
fn test_parser_struct_variables() {
    let source = "sv :: struct {\n\
                  data: i32;
                  len: i32 = 10;
    }";
    let tokens = lexer::process(source);
    assert_eq!(process(source, &tokens), &[]);
}

#[test]
fn struct_with_members_is_told_apart_from_an_empty_program() {
    let source = "sv :: struct {\n data: i32; }";
    let tokens = lexer::process(source);
    assert_eq!(try_process(source, &tokens), None);
    let empty = lexer::process("");
    assert_eq!(try_process("", &empty), Some(vec![]));
}

#[test]
fn span_lexer_gives_spans_lines_and_kinds() {
    let tokens = lexer::process("a := 12\nself -> b_1 += ::");
    let kinds: Vec<TokenKind> = tokens.iter().map(|t| t.kind).collect();
    assert_eq!(
        kinds,
        vec![
            TokenKind::Literal,
            TokenKind::ColonEq,
            TokenKind::Numeral,
            TokenKind::KwSelf,
            TokenKind::Arrow,
            TokenKind::Literal,
            TokenKind::PlusEq,
            TokenKind::DbColon,
        ]
    );
    assert_eq!(tokens[2], Token { begin: 5, end: 7, line: 0, kind: TokenKind::Numeral });
    assert_eq!(tokens[3], Token { begin: 8, end: 12, line: 1, kind: TokenKind::KwSelf });
    assert_eq!(tokens[5], Token { begin: 16, end: 19, line: 1, kind: TokenKind::Literal });
}

#[test]
fn span_lexer_reports_unknown_symbol_with_line() {
    let err = lexer::try_process("a\n\n  #").unwrap_err();
    assert_eq!(err.pos, 5);
    assert_eq!(err.line, 2);
    assert_eq!(err.byte, b'#');
}

#[test]
fn span_lexer_word_at_end_of_source() {
    let tokens = lexer::process("return struct x");
    assert_eq!(tokens.len(), 3);
    assert_eq!(tokens[0].kind, TokenKind::KwReturn);
    assert_eq!(tokens[1].kind, TokenKind::KwStruct);
    assert_eq!(tokens[2], Token { begin: 14, end: 15, line: 0, kind: TokenKind::Literal });
}

#[test]
fn two_structs_in_a_row() {
    let source = "a :: struct {} b :: struct {}";
    let tokens = lexer::process(source);
    let stmts = process(source, &tokens);
    assert_eq!(stmts.len(), 2);
    assert_eq!(stmts[1], Stmt::Struct(MStruct { ident: &tokens[5] }));
}

#[test]
fn function_head_is_recognised() {
    let source = "f :: (a, b) {";
    let tokens = lexer::process(source);
    assert!(mor::lang::parser::is_func(0, &tokens));
    assert!(!mor::lang::parser::is_struct(0, &tokens));
    let unclosed = lexer::process("f :: (a, b {");
    assert!(!mor::lang::parser::is_func(0, &unclosed));
}
