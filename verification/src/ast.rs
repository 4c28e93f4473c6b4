use vstd::prelude::*;
use crate::token::{Lexeme, Token};

verus! {

/// A statement: a local declaration or an expression evaluated for effect.
#[derive(Debug, PartialEq, Eq)]
pub enum Stmt<'s> {
    Local(Local<'s>),
    Expr(Expr<'s>),
}

/// A local declaration. At most one of `size` and `value` is meaningful; a
/// local with neither is an uninitialised scalar.
#[derive(Debug, PartialEq, Eq)]
pub struct Local<'l> {
    pub name: &'l str,
    pub size: Option<&'l str>,
    pub typ: Option<Token<'l>>,
    pub value: Option<Expr<'l>>,
}

#[derive(Debug, PartialEq, Eq)]
pub enum Expr<'e> {
    Number(&'e str),
    Ident(&'e str),
    Index(Box<Index<'e>>),
    If(Box<If<'e>>),
    While(Box<While<'e>>),
    SubExpr(Box<Expr<'e>>),
    UnOp(Box<UnOpEx<'e>>),
    BiOp(Box<BiOpEx<'e>>),
    Call(Box<Call<'e>>),
}

#[derive(Debug, PartialEq, Eq)]
pub struct Index<'i> {
    pub base: Expr<'i>,
    pub index: Expr<'i>,
}

#[derive(Debug, PartialEq, Eq)]
pub struct If<'i> {
    pub condition: Expr<'i>,
    pub on_true: Block<'i>,
    pub on_false: Option<Block<'i>>,
}

#[derive(Debug, PartialEq, Eq)]
pub struct While<'w> {
    pub condition: Expr<'w>,
    pub body: Block<'w>,
}

#[derive(Debug, PartialEq, Eq)]
pub struct Call<'c> {
    pub fun: Expr<'c>,
    pub args: Vec<Expr<'c>>,
}

pub type Block<'b> = Vec<Stmt<'b>>;

#[derive(Debug, Clone, Copy, PartialEq, Eq, Structural)]
pub enum UnOpKind {
    Not,
    Neg,
    Ref,
    Deref,
}

#[derive(Debug, PartialEq, Eq)]
pub struct UnOpEx<'u> {
    pub kind: UnOpKind,
    pub child: Expr<'u>,
}

#[derive(Debug, Clone, Copy, PartialEq, Eq, Structural)]
pub enum BiOpKind {
    Add,
    Sub,
    Mul,
    Div,
    Assign,
    BiOr,
    BiAnd,
    BoOr,
    BoAnd,
    CmpEq,
    CmpNe,
    CmpLt,
    CmpGt,
    CmpLe,
    CmpGe,
}

#[derive(Debug, PartialEq, Eq)]
pub struct BiOpEx<'b> {
    pub kind: BiOpKind,
    pub children: (Expr<'b>, Expr<'b>),
}

/// The mathematical content of an [`Expr`].
pub enum ExprView {
    Number(Seq<char>),
    Ident(Seq<char>),
    Index(Box<ExprView>, Box<ExprView>),
    If(Box<ExprView>, Seq<StmtView>, Option<Seq<StmtView>>),
    While(Box<ExprView>, Seq<StmtView>),
    SubExpr(Box<ExprView>),
    UnOp(UnOpKind, Box<ExprView>),
    BiOp(BiOpKind, Box<ExprView>, Box<ExprView>),
    Call(Box<ExprView>, Seq<ExprView>),
}

/// The mathematical content of a [`Stmt`].
pub enum StmtView {
    Local(LocalView),
    Expr(ExprView),
}

/// The mathematical content of a [`Local`].
pub struct LocalView {
    pub name: Seq<char>,
    pub size: Option<Seq<char>>,
    pub typ: Option<Lexeme>,
    pub value: Option<ExprView>,
}

pub open spec fn opt_text(s: Option<&str>) -> Option<Seq<char>> {
    match s {
        Some(t) => Some(t@),
        None => None,
    }
}

pub open spec fn opt_lexeme(t: Option<Token>) -> Option<Lexeme> {
    match t {
        Some(t) => Some(t@),
        None => None,
    }
}

/// The views of the statements of a block, in order.
pub open spec fn block_view(b: Seq<Stmt>) -> Seq<StmtView>
    decreases b,
{
    Seq::new(
        b.len(),
        |i: int|
            if 0 <= i < b.len() {
                b[i]@
            } else {
                StmtView::Expr(ExprView::Number(Seq::empty()))
            },
    )
}

/// The views of a list of expressions, in order.
pub open spec fn exprs_view(b: Seq<Expr>) -> Seq<ExprView>
    decreases b,
{
    Seq::new(
        b.len(),
        |i: int|
            if 0 <= i < b.len() {
                b[i]@
            } else {
                ExprView::Number(Seq::empty())
            },
    )
}

impl<'s> Stmt<'s> {
    pub open spec fn view(&self) -> StmtView
        decreases self,
    {
        match self {
            Stmt::Local(l) => StmtView::Local(l@),
            Stmt::Expr(e) => StmtView::Expr(e@),
        }
    }
}

impl<'l> Local<'l> {
    pub open spec fn view(&self) -> LocalView
        decreases self,
    {
        LocalView {
            name: self.name@,
            size: opt_text(self.size),
            typ: opt_lexeme(self.typ),
            value: match self.value {
                Some(e) => Some(e@),
                None => None,
            },
        }
    }

    pub fn new(
        name: &'l str,
        size: Option<&'l str>,
        typ: Option<Token<'l>>,
        value: Option<Expr<'l>>,
    ) -> (l: Self)
        ensures
            l.name == name,
            l.size == size,
            l.typ == typ,
            l.value == value,
    {
        Self { name, size, typ, value }
    }
}

impl<'e> Expr<'e> {
    pub open spec fn view(&self) -> ExprView
        decreases self,
    {
        match self {
            Expr::Number(s) => ExprView::Number(s@),
            Expr::Ident(s) => ExprView::Ident(s@),
            Expr::Index(x) => ExprView::Index(Box::new(x.base@), Box::new(x.index@)),
            Expr::If(x) => ExprView::If(
                Box::new(x.condition@),
                block_view(x.on_true@),
                match x.on_false {
                    Some(f) => Some(block_view(f@)),
                    None => None,
                },
            ),
            Expr::While(x) => ExprView::While(Box::new(x.condition@), block_view(x.body@)),
            Expr::SubExpr(x) => ExprView::SubExpr(Box::new(x@)),
            Expr::UnOp(x) => ExprView::UnOp(x.kind, Box::new(x.child@)),
            Expr::BiOp(x) => ExprView::BiOp(
                x.kind,
                Box::new(x.children.0@),
                Box::new(x.children.1@),
            ),
            Expr::Call(x) => ExprView::Call(Box::new(x.fun@), exprs_view(x.args@)),
        }
    }
}

impl BiOpKind {
    /// Left binding power: an operator continues an expression only when this
    /// is at least the minimum in force.
    pub open spec fn spec_lprec(self) -> int {
        match self {
            BiOpKind::Assign => 10,
            BiOpKind::BoOr => 20,
            BiOpKind::BoAnd => 30,
            BiOpKind::BiOr => 40,
            BiOpKind::BiAnd => 50,
            BiOpKind::CmpEq | BiOpKind::CmpNe | BiOpKind::CmpLt | BiOpKind::CmpGt
            | BiOpKind::CmpLe | BiOpKind::CmpGe => 60,
            BiOpKind::Add | BiOpKind::Sub => 100,
            BiOpKind::Mul | BiOpKind::Div => 200,
        }
    }

    /// Right binding power: the minimum in force while the right operand is
    /// parsed. One below the left power for assignment, which so associates to
    /// the right; one above it for every other operator.
    pub open spec fn spec_rprec(self) -> int {
        match self {
            BiOpKind::Assign => 9,
            _ => self.spec_lprec() + 1,
        }
    }

    /// Whether this is one of the six comparisons.
    pub open spec fn is_comparison(self) -> bool {
        self is CmpEq || self is CmpNe || self is CmpLt || self is CmpGt || self is CmpLe
            || self is CmpGe
    }

    pub fn lprec(&self) -> (p: u16)
        ensures
            p == self.spec_lprec(),
    {
        match self {
            BiOpKind::Assign => 10,
            BiOpKind::BoOr => 20,
            BiOpKind::BoAnd => 30,
            BiOpKind::BiOr => 40,
            BiOpKind::BiAnd => 50,
            BiOpKind::CmpEq => 60,
            BiOpKind::CmpNe => 60,
            BiOpKind::CmpGt => 60,
            BiOpKind::CmpLt => 60,
            BiOpKind::CmpLe => 60,
            BiOpKind::CmpGe => 60,
            BiOpKind::Add => 100,
            BiOpKind::Sub => 100,
            BiOpKind::Mul => 200,
            BiOpKind::Div => 200,
        }
    }

    pub fn rprec(&self) -> (p: u16)
        ensures
            p == self.spec_rprec(),
    {
        match self {
            BiOpKind::Assign => 9,
            _ => self.lprec() + 1,
        }
    }
}

} // verus!
