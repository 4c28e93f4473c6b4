use vstd::prelude::*;
use crate::ast::{
    block_view, exprs_view, BiOpEx, Block, Call, Expr, If, Index, Local, Stmt,
    UnOpEx, While,
};
use crate::ast::{opt_text, ExprView, LocalView, StmtView};
use crate::grammar::{
    paren_at, parse_args_spec, parse_block_spec, parse_braces_spec, parse_expr_spec,
    parse_if_spec, parse_init_spec, parse_leading_spec, parse_named_var_spec,
    parse_program_spec, parse_shape_spec, parse_stmt_spec, parse_tail_spec, parse_tokens,
    parse_var_spec, parse_while_spec, tok_at, Expected, SyntaxError,
};
use crate::lexer::{lex, Tokenizer};
use crate::token::{lexemes, Lexeme, Token};

verus! {

/// A cursor over a token sequence.
pub struct Parser<'p, 't> {
    tokens: &'p [Token<'t>],
    cursor: usize,
}

impl<'p, 't> Parser<'p, 't> {
    /// The lexemes of the tokens read from.
    pub closed spec fn toks(&self) -> Seq<Lexeme> {
        lexemes(self.tokens@)
    }

    /// The index of the next token.
    pub closed spec fn pos(&self) -> int {
        self.cursor as int
    }

    /// The number of tokens not yet consumed.
    pub closed spec fn remaining(&self) -> int {
        self.tokens@.len() - self.cursor
    }

    /// The cursor is within the tokens.
    pub closed spec fn wf(&self) -> bool {
        self.cursor <= self.tokens@.len()
    }

    /// What a step keeps: the parser stays well formed, over the same tokens,
    /// and does not move back.
    pub open spec fn follows(&self, before: &Self) -> bool {
        &&& self.wf()
        &&& self.toks() == before.toks()
        &&& before.pos() <= self.pos() <= self.toks().len()
        &&& self.remaining() == self.toks().len() - self.pos()
    }

    pub fn new(tokens: &'p [Token<'t>]) -> (p: Self)
        ensures
            p.wf(),
            p.toks() == lexemes(tokens@),
            p.pos() == 0,
            p.remaining() == tokens@.len(),
    {
        Self { tokens, cursor: 0 }
    }

    /// The token `off` places after the cursor, if there is one.
    pub fn peek(&self, off: usize) -> (r: Option<Token<'t>>)
        requires
            self.wf(),
        ensures
            match r {
                Some(t) => tok_at(self.toks(), self.pos() + off) == Some(t@),
                None => tok_at(self.toks(), self.pos() + off) is None,
            },
    {
        if off < self.tokens.len() - self.cursor {
            Some(self.tokens[self.cursor + off])
        } else {
            None
        }
    }

    /// Takes the token at the cursor, if there is one.
    pub fn next(&mut self) -> (r: Option<Token<'t>>)
        requires
            old(self).wf(),
        ensures
            final(self).follows(old(self)),
            match r {
                Some(t) => tok_at(old(self).toks(), old(self).pos()) == Some(t@) && final(self).pos() == old(self).pos() + 1,
                None => tok_at(old(self).toks(), old(self).pos()) is None && final(self).pos()
                    == old(self).pos(),
            },
    {
        if self.cursor < self.tokens.len() {
            self.cursor += 1;
            Some(self.tokens[self.cursor - 1])
        } else {
            None
        }
    }

    /// Takes the bracket `c` if it is the token at the cursor; stays put and
    /// answers `false` otherwise.
    pub fn expect(&mut self, c: char) -> (found: bool)
        requires
            old(self).wf(),
        ensures
            final(self).follows(old(self)),
            found == paren_at(old(self).toks(), old(self).pos(), c),
            final(self).pos() == old(self).pos() + if found {
                1int
            } else {
                0int
            },
    {
        if self.cursor < self.tokens.len() && self.tokens[self.cursor].is_paren(c) {
            self.cursor += 1;
            true
        } else {
            false
        }
    }

    /// Takes the identifier at the cursor; stays put where there is none.
    pub fn expect_ident(&mut self) -> (r: Option<&'t str>)
        requires
            old(self).wf(),
        ensures
            final(self).follows(old(self)),
            match r {
                Some(name) => tok_at(old(self).toks(), old(self).pos()) == Some(
                    Lexeme::Ident(name@),
                ) && final(self).pos() == old(self).pos() + 1,
                None => !(tok_at(old(self).toks(), old(self).pos()) matches Some(
                    Lexeme::Ident(_),
                )) && final(self).pos() == old(self).pos(),
            },
    {
        if self.cursor < self.tokens.len() {
            match self.tokens[self.cursor] {
                Token::Ident(name) => {
                    self.cursor += 1;
                    Some(name)
                },
                _ => None,
            }
        } else {
            None
        }
    }

    /// Takes the number literal at the cursor; stays put where there is none.
    pub fn expect_num(&mut self) -> (r: Option<&'t str>)
        requires
            old(self).wf(),
        ensures
            final(self).follows(old(self)),
            match r {
                Some(text) => tok_at(old(self).toks(), old(self).pos()) == Some(
                    Lexeme::Number(text@),
                ) && final(self).pos() == old(self).pos() + 1,
                None => !(tok_at(old(self).toks(), old(self).pos()) matches Some(
                    Lexeme::Number(_),
                )) && final(self).pos() == old(self).pos(),
            },
    {
        if self.cursor < self.tokens.len() {
            match self.tokens[self.cursor] {
                Token::Number(text) => {
                    self.cursor += 1;
                    Some(text)
                },
                _ => None,
            }
        } else {
            None
        }
    }

    /// The refusal of the token at the cursor.
    fn refuse<T>(&self, expected: Expected) -> (res: Result<T, SyntaxError>)
        ensures
            res == Err::<T, SyntaxError>(SyntaxError { at: self.pos() as usize, expected }),
    {
        Err(SyntaxError { at: self.cursor, expected })
    }

    /// Parses a leading expression: a name, a number, a parenthesised
    /// expression, `if`, `while`, or a prefix operator and its operand.
    pub fn parse_leading_expr(&mut self) -> (res: Result<Expr<'t>, SyntaxError>)
        requires
            old(self).wf(),
        ensures
            final(self).follows(old(self)),
            match res {
                Ok(e) => parse_leading_spec(old(self).toks(), old(self).pos()) == Ok::<
                    (ExprView, int),
                    SyntaxError,
                >((e@, final(self).pos())) && old(self).pos() < final(self).pos(),
                Err(err) => parse_leading_spec(old(self).toks(), old(self).pos()) == Err::<
                    (ExprView, int),
                    SyntaxError,
                >(err),
            },
        decreases old(self).remaining(), 0nat,
    {
        let tok = match self.peek(0) {
            Some(t) => t,
            None => {
                return self.refuse(Expected::Expression);
            },
        };
        match tok {
            Token::Ident(id) => {
                self.next();
                Ok(Expr::Ident(id))
            },
            Token::Number(n) => {
                self.next();
                Ok(Expr::Number(n))
            },
            Token::KwIf => {
                self.next();
                self.parse_if()
            },
            Token::KwWhile => {
                self.next();
                self.parse_while()
            },
            Token::Paren(c) => {
                if c == '(' {
                    self.next();
                    let inner = self.parse_expr(0)?;
                    if !self.expect(')') {
                        return self.refuse(Expected::Paren(')'));
                    }
                    Ok(Expr::SubExpr(Box::new(inner)))
                } else {
                    self.refuse(Expected::Expression)
                }
            },
            _ => {
                match tok.try_unop() {
                    Some(kind) => {
                        self.next();
                        let child = self.parse_leading_expr()?;
                        Ok(Expr::UnOp(Box::new(UnOpEx { kind, child })))
                    },
                    None => self.refuse(Expected::Expression),
                }
            },
        }
    }

    /// Parses an expression whose binary operators bind at least as strongly
    /// as `prec`, by precedence climbing.
    pub fn parse_expr(&mut self, prec: u16) -> (res: Result<Expr<'t>, SyntaxError>)
        requires
            old(self).wf(),
        ensures
            final(self).follows(old(self)),
            match res {
                Ok(e) => parse_expr_spec(old(self).toks(), old(self).pos(), prec as int) == Ok::<
                    (ExprView, int),
                    SyntaxError,
                >((e@, final(self).pos())) && old(self).pos() < final(self).pos(),
                Err(err) => parse_expr_spec(old(self).toks(), old(self).pos(), prec as int)
                    == Err::<(ExprView, int), SyntaxError>(err),
            },
        decreases old(self).remaining(), 2nat,
    {
        let ghost toks = self.toks();
        let ghost start = self.pos();
        let mut res = self.parse_leading_expr()?;
        let ghost target = parse_tail_spec(toks, self.pos(), res@, prec as int);
        loop
            invariant
                self.follows(old(self)),
                toks == old(self).toks(),
                start == old(self).pos(),
                old(self).remaining() == toks.len() - start,
                start < self.pos(),
                parse_tail_spec(toks, self.pos(), res@, prec as int) == target,
                parse_expr_spec(toks, start, prec as int) == target,
            ensures
                self.follows(old(self)),
                start < self.pos(),
                target == Ok::<(ExprView, int), SyntaxError>((res@, self.pos())),
            decreases self.remaining(),
        {
            let cur = match self.peek(0) {
                Some(t) => t,
                None => {
                    break ;
                },
            };
            let biop = cur.try_biop();
            let applies = match biop {
                Some(kind) => kind.lprec() >= prec,
                None => false,
            };
            if applies {
                let kind = biop.unwrap();
                self.next();
                let other = self.parse_expr(kind.rprec())?;
                res = Expr::BiOp(Box::new(BiOpEx { kind, children: (res, other) }));
            } else if cur.is_paren('[') {
                self.next();
                let index = self.parse_expr(0)?;
                if !self.expect(']') {
                    return self.refuse(Expected::Paren(']'));
                }
                res = Expr::Index(Box::new(Index { base: res, index }));
            } else if cur.is_paren('(') {
                self.next();
                let args = self.parse_args()?;
                res = Expr::Call(Box::new(Call { fun: res, args }));
            } else {
                break ;
            }
        }
        Ok(res)
    }

    /// Parses the arguments of a call, after its `(`, up to its `)`.
    pub fn parse_args(&mut self) -> (res: Result<Vec<Expr<'t>>, SyntaxError>)
        requires
            old(self).wf(),
        ensures
            final(self).follows(old(self)),
            match res {
                Ok(args) => parse_args_spec(old(self).toks(), old(self).pos(), Seq::empty())
                    == Ok::<(Seq<ExprView>, int), SyntaxError>(
                    (exprs_view(args@), final(self).pos()),
                ) && old(self).pos() < final(self).pos(),
                Err(err) => parse_args_spec(old(self).toks(), old(self).pos(), Seq::empty())
                    == Err::<(Seq<ExprView>, int), SyntaxError>(err),
            },
        decreases old(self).remaining(), 3nat,
    {
        let ghost toks = self.toks();
        let ghost start = self.pos();
        let ghost target = parse_args_spec(toks, start, Seq::empty());
        let mut args: Vec<Expr<'t>> = Vec::new();
        assert(exprs_view(args@) =~= Seq::empty());
        loop
            invariant
                self.follows(old(self)),
                toks == old(self).toks(),
                start == old(self).pos(),
                old(self).remaining() == toks.len() - start,
                target == parse_args_spec(toks, start, Seq::empty()),
                parse_args_spec(toks, self.pos(), exprs_view(args@)) == target,
            decreases self.remaining(),
        {
            let cur = match self.peek(0) {
                Some(t) => t,
                None => {
                    return self.refuse(Expected::Paren(')'));
                },
            };
            match cur {
                Token::Semicolon | Token::Comma => {
                    self.next();
                },
                _ => {
                    if cur.is_paren(')') {
                        self.next();
                        return Ok(args);
                    }
                    let ghost before = exprs_view(args@);
                    let arg = self.parse_expr(0)?;
                    args.push(arg);
                    assert(exprs_view(args@) =~= before.push(arg@));
                },
            }
        }
    }

    /// Parses a block in braces: `{`, statements, `}`.
    pub fn parse_braces(&mut self) -> (res: Result<Block<'t>, SyntaxError>)
        requires
            old(self).wf(),
        ensures
            final(self).follows(old(self)),
            match res {
                Ok(b) => parse_braces_spec(old(self).toks(), old(self).pos()) == Ok::<
                    (Seq<StmtView>, int),
                    SyntaxError,
                >((block_view(b@), final(self).pos())) && old(self).pos() < final(self).pos(),
                Err(err) => parse_braces_spec(old(self).toks(), old(self).pos()) == Err::<
                    (Seq<StmtView>, int),
                    SyntaxError,
                >(err),
            },
        decreases old(self).remaining(), 7nat,
    {
        if !self.expect('{') {
            return self.refuse(Expected::Paren('{'));
        }
        self.parse_block()
    }

    /// Parses an `if` after its keyword: condition, block, optional `else`
    /// block.
    pub fn parse_if(&mut self) -> (res: Result<Expr<'t>, SyntaxError>)
        requires
            old(self).wf(),
        ensures
            final(self).follows(old(self)),
            match res {
                Ok(e) => parse_if_spec(old(self).toks(), old(self).pos()) == Ok::<
                    (ExprView, int),
                    SyntaxError,
                >((e@, final(self).pos())) && old(self).pos() < final(self).pos(),
                Err(err) => parse_if_spec(old(self).toks(), old(self).pos()) == Err::<
                    (ExprView, int),
                    SyntaxError,
                >(err),
            },
        decreases old(self).remaining(), 8nat,
    {
        let cond = self.parse_expr(0)?;
        let on_true = self.parse_braces()?;
        let mut on_false: Option<Block<'t>> = None;
        let has_else = match self.peek(0) {
            Some(Token::KwElse) => true,
            _ => false,
        };
        if has_else {
            self.next();
            let block = self.parse_braces()?;
            on_false = Some(block);
        }
        Ok(Expr::If(Box::new(If { condition: cond, on_true, on_false })))
    }

    /// Parses a `while` after its keyword: condition and block.
    pub fn parse_while(&mut self) -> (res: Result<Expr<'t>, SyntaxError>)
        requires
            old(self).wf(),
        ensures
            final(self).follows(old(self)),
            match res {
                Ok(e) => parse_while_spec(old(self).toks(), old(self).pos()) == Ok::<
                    (ExprView, int),
                    SyntaxError,
                >((e@, final(self).pos())) && old(self).pos() < final(self).pos(),
                Err(err) => parse_while_spec(old(self).toks(), old(self).pos()) == Err::<
                    (ExprView, int),
                    SyntaxError,
                >(err),
            },
        decreases old(self).remaining(), 8nat,
    {
        let cond = self.parse_expr(0)?;
        let body = self.parse_braces()?;
        Ok(Expr::While(Box::new(While { condition: cond, body })))
    }

    /// Parses the optional initialiser of a declaration.
    fn parse_init(&mut self) -> (res: Result<Option<Expr<'t>>, SyntaxError>)
        requires
            old(self).wf(),
        ensures
            final(self).follows(old(self)),
            match res {
                Ok(value) => parse_init_spec(old(self).toks(), old(self).pos()) == Ok::<
                    (Option<ExprView>, int),
                    SyntaxError,
                >(
                    (
                        match value {
                            Some(e) => Some(e@),
                            None => None,
                        },
                        final(self).pos(),
                    ),
                ),
                Err(err) => parse_init_spec(old(self).toks(), old(self).pos()) == Err::<
                    (Option<ExprView>, int),
                    SyntaxError,
                >(err),
            },
        decreases old(self).remaining(), 3nat,
    {
        let assigned = match self.peek(0) {
            Some(Token::Assign) => true,
            _ => false,
        };
        if assigned {
            self.next();
            let value = self.parse_expr(0)?;
            Ok(Some(value))
        } else {
            Ok(None)
        }
    }

    /// Parses what may follow the type of a declaration: `*`, `[size]`, or
    /// nothing.
    fn parse_shape(&mut self) -> (res: Result<Option<&'t str>, SyntaxError>)
        requires
            old(self).wf(),
        ensures
            final(self).follows(old(self)),
            match res {
                Ok(size) => parse_shape_spec(old(self).toks(), old(self).pos()) == Ok::<
                    (Option<Seq<char>>, int),
                    SyntaxError,
                >((opt_text(size), final(self).pos())),
                Err(err) => parse_shape_spec(old(self).toks(), old(self).pos()) == Err::<
                    (Option<Seq<char>>, int),
                    SyntaxError,
                >(err),
            },
    {
        let starred = match self.peek(0) {
            Some(Token::Star) => true,
            _ => false,
        };
        if starred {
            self.next();
            return Ok(None);
        }
        if self.expect('[') {
            let size = match self.expect_num() {
                Some(s) => s,
                None => {
                    return self.refuse(Expected::Number);
                },
            };
            if !self.expect(']') {
                return self.refuse(Expected::Paren(']'));
            }
            return Ok(Some(size));
        }
        Ok(None)
    }

    /// Parses a declaration that starts with its type.
    pub fn parse_var(&mut self) -> (res: Result<Local<'t>, SyntaxError>)
        requires
            old(self).wf(),
        ensures
            final(self).follows(old(self)),
            match res {
                Ok(l) => parse_var_spec(old(self).toks(), old(self).pos()) == Ok::<
                    (LocalView, int),
                    SyntaxError,
                >((l@, final(self).pos())) && old(self).pos() < final(self).pos(),
                Err(err) => parse_var_spec(old(self).toks(), old(self).pos()) == Err::<
                    (LocalView, int),
                    SyntaxError,
                >(err),
            },
        decreases old(self).remaining(), 4nat,
    {
        let typ = match self.peek(0) {
            Some(t) => t,
            None => {
                return self.refuse(Expected::Type);
            },
        };
        if typ.try_type().is_none() {
            return self.refuse(Expected::Type);
        }
        self.next();
        let size = self.parse_shape()?;
        let name = match self.expect_ident() {
            Some(n) => n,
            None => {
                return self.refuse(Expected::Ident);
            },
        };
        let value = self.parse_init()?;
        Ok(Local::new(name, size, Some(typ), value))
    }

    /// Parses a declaration that starts with its name, followed by `:` and
    /// the type.
    pub fn parse_named_var(&mut self) -> (res: Result<Local<'t>, SyntaxError>)
        requires
            old(self).wf(),
        ensures
            final(self).follows(old(self)),
            match res {
                Ok(l) => parse_named_var_spec(old(self).toks(), old(self).pos()) == Ok::<
                    (LocalView, int),
                    SyntaxError,
                >((l@, final(self).pos())) && old(self).pos() < final(self).pos(),
                Err(err) => parse_named_var_spec(old(self).toks(), old(self).pos()) == Err::<
                    (LocalView, int),
                    SyntaxError,
                >(err),
            },
        decreases old(self).remaining(), 4nat,
    {
        let name = match self.expect_ident() {
            Some(n) => n,
            None => {
                return self.refuse(Expected::Ident);
            },
        };
        let colon = match self.peek(0) {
            Some(Token::Colon) => true,
            _ => false,
        };
        if !colon {
            return self.refuse(Expected::Colon);
        }
        self.next();
        let typ = match self.peek(0) {
            Some(t) => t,
            None => {
                return self.refuse(Expected::Type);
            },
        };
        if typ.try_type().is_none() {
            return self.refuse(Expected::Type);
        }
        self.next();
        let size = self.parse_shape()?;
        let value = self.parse_init()?;
        Ok(Local::new(name, size, Some(typ), value))
    }

    /// Parses one statement: a declaration or an expression.
    pub fn parse_stmt(&mut self) -> (res: Result<Stmt<'t>, SyntaxError>)
        requires
            old(self).wf(),
        ensures
            final(self).follows(old(self)),
            match res {
                Ok(s) => parse_stmt_spec(old(self).toks(), old(self).pos()) == Ok::<
                    (StmtView, int),
                    SyntaxError,
                >((s@, final(self).pos())) && old(self).pos() < final(self).pos(),
                Err(err) => parse_stmt_spec(old(self).toks(), old(self).pos()) == Err::<
                    (StmtView, int),
                    SyntaxError,
                >(err),
            },
        decreases old(self).remaining(), 5nat,
    {
        let at = match self.peek(0) {
            Some(t) => t,
            None => {
                return self.refuse(Expected::Expression);
            },
        };
        if at.try_type().is_some() {
            let local = self.parse_var()?;
            Ok(Stmt::Local(local))
        } else {
            let named = match at {
                Token::Ident(_) => match self.peek(1) {
                    Some(Token::Colon) => true,
                    _ => false,
                },
                _ => false,
            };
            if named {
                let local = self.parse_named_var()?;
                Ok(Stmt::Local(local))
            } else {
                let e = self.parse_expr(0)?;
                Ok(Stmt::Expr(e))
            }
        }
    }

    /// Parses the statements of a block, after its `{`, up to its `}`.
    pub fn parse_block(&mut self) -> (res: Result<Block<'t>, SyntaxError>)
        requires
            old(self).wf(),
        ensures
            final(self).follows(old(self)),
            match res {
                Ok(b) => parse_block_spec(old(self).toks(), old(self).pos(), Seq::empty())
                    == Ok::<(Seq<StmtView>, int), SyntaxError>(
                    (block_view(b@), final(self).pos()),
                ) && old(self).pos() < final(self).pos(),
                Err(err) => parse_block_spec(old(self).toks(), old(self).pos(), Seq::empty())
                    == Err::<(Seq<StmtView>, int), SyntaxError>(err),
            },
        decreases old(self).remaining(), 6nat,
    {
        let ghost toks = self.toks();
        let ghost start = self.pos();
        let ghost target = parse_block_spec(toks, start, Seq::empty());
        let mut stmts: Vec<Stmt<'t>> = Vec::new();
        assert(block_view(stmts@) =~= Seq::empty());
        loop
            invariant
                self.follows(old(self)),
                toks == old(self).toks(),
                start == old(self).pos(),
                old(self).remaining() == toks.len() - start,
                target == parse_block_spec(toks, start, Seq::empty()),
                parse_block_spec(toks, self.pos(), block_view(stmts@)) == target,
            decreases self.remaining(),
        {
            let at = match self.peek(0) {
                Some(t) => t,
                None => {
                    return self.refuse(Expected::Paren('}'));
                },
            };
            match at {
                Token::Semicolon => {
                    self.next();
                },
                _ => {
                    if at.is_paren('}') {
                        self.next();
                        return Ok(stmts);
                    }
                    let ghost before = block_view(stmts@);
                    let stmt = self.parse_stmt()?;
                    stmts.push(stmt);
                    assert(block_view(stmts@) =~= before.push(stmt@));
                },
            }
        }
    }

    /// Parses a whole program: statements up to the end of the tokens.
    pub fn parse_program(&mut self) -> (res: Result<Block<'t>, SyntaxError>)
        requires
            old(self).wf(),
        ensures
            final(self).follows(old(self)),
            match res {
                Ok(b) => parse_program_spec(old(self).toks(), old(self).pos(), Seq::empty())
                    == Ok::<Seq<StmtView>, SyntaxError>(block_view(b@)) && final(self).pos()
                    == final(self).toks().len(),
                Err(err) => parse_program_spec(old(self).toks(), old(self).pos(), Seq::empty())
                    == Err::<Seq<StmtView>, SyntaxError>(err),
            },
    {
        let ghost toks = self.toks();
        let ghost start = self.pos();
        let ghost target = parse_program_spec(toks, start, Seq::empty());
        let mut stmts: Vec<Stmt<'t>> = Vec::new();
        assert(block_view(stmts@) =~= Seq::empty());
        loop
            invariant
                self.follows(old(self)),
                toks == old(self).toks(),
                start == old(self).pos(),
                target == parse_program_spec(toks, start, Seq::empty()),
                parse_program_spec(toks, self.pos(), block_view(stmts@)) == target,
            decreases self.remaining(),
        {
            let at = match self.peek(0) {
                Some(t) => t,
                None => {
                    return Ok(stmts);
                },
            };
            match at {
                Token::Semicolon => {
                    self.next();
                },
                _ => {
                    let ghost before = block_view(stmts@);
                    let stmt = self.parse_stmt()?;
                    stmts.push(stmt);
                    assert(block_view(stmts@) =~= before.push(stmt@));
                },
            }
        }
    }
}

/// The statements that a token sequence spells, or the first token at which
/// it stops spelling a program, with what was expected there.
pub fn parse_all<'t>(tokens: &[Token<'t>]) -> (res: Result<Block<'t>, SyntaxError>)
    ensures
        match res {
            Ok(b) => parse_tokens(lexemes(tokens@)) == Ok::<Seq<StmtView>, SyntaxError>(
                block_view(b@),
            ),
            Err(err) => parse_tokens(lexemes(tokens@)) == Err::<Seq<StmtView>, SyntaxError>(err),
        },
{
    let mut p = Parser::new(tokens);
    p.parse_program()
}

/// The statements that a source text spells: its tokens, parsed as a program.
/// Nothing where a byte starts no token or the tokens spell no program.
pub fn parse<'p>(source: &'p [u8]) -> (res: Option<Block<'p>>)
    ensures
        match res {
            Some(b) => lex(source@) matches Ok(toks) && parse_tokens(toks) == Ok::<
                Seq<StmtView>,
                SyntaxError,
            >(block_view(b@)),
            None => lex(source@) matches Ok(toks) ==> parse_tokens(toks) is Err,
        },
{
    let tokens = match Tokenizer::try_tokenize(source) {
        Ok(t) => t,
        Err(_) => {
            return None;
        },
    };
    match parse_all(tokens.as_slice()) {
        Ok(b) => Some(b),
        Err(_) => None,
    }
}

} // verus!
