pub mod text;
pub mod token;
pub mod ast;
pub mod lexer;
pub mod grammar;
pub mod parser;
pub mod grammar_laws;
pub mod register;
pub mod opcode;
pub mod lower;
pub mod compiler;
pub mod balance;
pub mod scope;
pub mod labels;
pub mod control;
pub mod emit;
pub mod driver;

pub use crate::ast::{
    BiOpEx, BiOpKind, Block, Call, Expr, If, Index, Local, Stmt, UnOpEx, UnOpKind, While,
};
pub use crate::compiler::{Compiler, Program, Symbol};
pub use crate::driver::{compile_source, parse_source, Diagnostic};
pub use crate::grammar::{Expected, SyntaxError};
pub use crate::lexer::{CharClass, LexError, Tokenizer};
pub use crate::lower::{CompileError, ErrorKind, Mode};
pub use crate::opcode::{JmpKind, LabelId, OpKind, Opcode};
pub use crate::parser::{parse, parse_all, Parser};
pub use crate::register::{Operand, RegKind, RegSize, Register};
pub use crate::token::Token;
pub mod lang;
