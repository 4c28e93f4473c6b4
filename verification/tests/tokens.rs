use mor::{LexError, Token, Tokenizer};

fn lex(source: &str) -> Vec<Token<'_>> {
    Tokenizer::try_tokenize(source.as_bytes()).expect("lexes")
}

#[test]
fn tokenizes_simple_sum() {
    assert_eq!(
        lex("1 + 2 * 3;"),
        vec![
            Token::Number("1"),
            Token::Plus,
            Token::Number("2"),
            Token::Star,
            Token::Number("3"),
            Token::Semicolon
        ]
    );
}

#[test]
fn two_character_operators_win_over_one_character_ones() {
    assert_eq!(
        lex(":: := -> == != <= >= && || : - = ! < > & |"),
        vec![
            Token::DbColon,
            Token::ColonEq,
            Token::Arrow,
            Token::Eq,
            Token::Ne,
            Token::Le,
            Token::Ge,
            Token::BiAnd,
            Token::BiOr,
            Token::Colon,
            Token::Minus,
            Token::Assign,
            Token::Not,
            Token::Lt,
            Token::Gt,
            Token::And,
            Token::Or,
        ]
    );
}

#[test]
fn adjacent_operators_split_by_longest_match() {
    assert_eq!(lex("a===b"), vec![Token::Ident("a"), Token::Eq, Token::Assign, Token::Ident("b")]);
    assert_eq!(lex("a->-b"), vec![Token::Ident("a"), Token::Arrow, Token::Minus, Token::Ident("b")]);
}

#[test]
fn keywords_and_types_are_not_identifiers() {
    assert_eq!(
        lex("if else while i8 i16 i32 i64 iff elsewhere i128 If"),
        vec![
            Token::KwIf,
            Token::KwElse,
            Token::KwWhile,
            Token::I08Type,
            Token::I16Type,
            Token::I32Type,
            Token::I64Type,
            Token::Ident("iff"),
            Token::Ident("elsewhere"),
            Token::Ident("i128"),
            Token::Ident("If"),
        ]
    );
}

#[test]
fn brackets_are_parens_with_their_character() {
    assert_eq!(
        lex("(){}[],"),
        vec![
            Token::Paren('('),
            Token::Paren(')'),
            Token::Paren('{'),
            Token::Paren('}'),
            Token::Paren('['),
            Token::Paren(']'),
            Token::Comma,
        ]
    );
}

#[test]
fn numbers_keep_their_text_whatever_their_size() {
    assert_eq!(
        lex("007 99999999999999999999999999"),
        vec![Token::Number("007"), Token::Number("99999999999999999999999999")]
    );
}

#[test]
fn digits_then_letters_are_two_tokens() {
    assert_eq!(lex("12ab"), vec![Token::Number("12"), Token::Ident("ab")]);
    assert_eq!(lex("ab12"), vec![Token::Ident("ab12")]);
}

#[test]
fn line_comments_run_to_the_end_of_the_line() {
    assert_eq!(lex("1 // two 2 \n 3"), vec![Token::Number("1"), Token::Number("3")]);
    assert_eq!(lex("1 // no line feed"), vec![Token::Number("1")]);
    assert_eq!(lex("//"), vec![]);
}

#[test]
fn block_comments_are_dropped() {
    assert_eq!(lex("1 /* 2 */ 3"), vec![Token::Number("1"), Token::Number("3")]);
    assert_eq!(lex("1 /**/ 3"), vec![Token::Number("1"), Token::Number("3")]);
    assert_eq!(lex("/* a * b / c */x"), vec![Token::Ident("x")]);
}

#[test]
fn block_comments_nest_one_level() {
    assert_eq!(lex("1 /* a /* b */ c */ 2"), vec![Token::Number("1"), Token::Number("2")]);
    // inside a nested comment a further opening is not counted
    assert_eq!(lex("1 /* a /* b /* c */ d */ 2"), vec![Token::Number("1"), Token::Number("2")]);
}

#[test]
fn unclosed_block_comment_is_an_error_at_its_start() {
    let err = Tokenizer::try_tokenize(b"1\n /* never").unwrap_err();
    assert_eq!(err, LexError { pos: 3, line: 1, byte: b'/' });
    let err = Tokenizer::try_tokenize(b"/* a /* b */").unwrap_err();
    assert_eq!(err, LexError { pos: 0, line: 0, byte: b'/' });
    let err = Tokenizer::try_tokenize(b"/*/").unwrap_err();
    assert_eq!(err, LexError { pos: 0, line: 0, byte: b'/' });
}

#[test]
fn slash_alone_is_a_token() {
    assert_eq!(lex("6 / 2"), vec![Token::Number("6"), Token::Slash, Token::Number("2")]);
    assert_eq!(lex("/"), vec![Token::Slash]);
}

#[test]
fn unknown_byte_is_reported_with_its_line() {
    let err = Tokenizer::try_tokenize(b"a = 1;\nb = 2;\n  c = $;").unwrap_err();
    assert_eq!(err, LexError { pos: 20, line: 2, byte: b'$' });
}

#[test]
fn tab_is_not_white_space() {
    let err = Tokenizer::try_tokenize(b"a\tb").unwrap_err();
    assert_eq!(err, LexError { pos: 1, line: 0, byte: b'\t' });
}

#[test]
fn non_ascii_byte_is_an_error() {
    let err = Tokenizer::try_tokenize("a é".as_bytes()).unwrap_err();
    assert_eq!(err.pos, 2);
    assert_eq!(err.line, 0);
}

#[test]
fn empty_and_blank_sources_have_no_tokens() {
    assert_eq!(lex(""), vec![]);
    assert_eq!(lex("  \n \n"), vec![]);
}

#[test]
fn identifier_text_is_the_source_slice() {
    // would fail if the text were not taken from the bytes between the cursor marks
    assert_eq!(lex("  alpha9+beta"), vec![Token::Ident("alpha9"), Token::Plus, Token::Ident("beta")]);
}

#[test]
fn stepping_by_hand_gives_the_same_tokens() {
    let mut t = Tokenizer::new(b"x = 1");
    assert_eq!(t.peek_ch(0), Some(b'x'));
    assert_eq!(t.peek_ch(4), Some(b'1'));
    assert_eq!(t.peek_ch(5), None);
    assert_eq!(t.next_token(), Ok(Some(Token::Ident("x"))));
    assert_eq!(t.next_token(), Ok(Some(Token::Assign)));
    assert_eq!(t.next_token(), Ok(Some(Token::Number("1"))));
    assert_eq!(t.next_token(), Ok(None));
    assert_eq!(t.next_token(), Ok(None));
}
