//! An arithmetic-expression front end: a lexer, a precedence-climbing parser,
//! a tree-walking interpreter and a reverse-Polish emitter, all working on
//! values that carry the byte span of the source text they came from.
use vstd::prelude::*;

pub mod ast;
pub mod calculator;
pub mod error;
pub mod interpreter;
pub mod lexer;
pub mod loc;
pub mod parser;
pub mod rpn;

pub use calculator::{RpnCalculator, RpnCalculatorError};
pub use ast::{Ast, AstKind, BinOp, BinOpKind, UniOp, UniOpKind};
pub use error::{Error, caret_line, parse_source};
pub use interpreter::{Interpreter, InterpreterError, InterpreterErrorKind};
pub use lexer::{LexError, LexErrorKind, Token, TokenKind, lex};
pub use loc::{Annotation, Loc};
pub use parser::{ParseError, parse};
pub use rpn::RpnCompiler;
