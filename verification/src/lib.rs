//! A tree-walking interpreter for a small Lisp-family language.
//!
//! The crate covers the reader (tokenizer and parser), the value model,
//! the lexically scoped environment chain, the recursive evaluator with
//! its special forms, and the arithmetic/comparison operator library.

mod ast;
mod env;
mod errors;
mod eval;
mod func;
mod laws;
mod lexer;
mod lisp_type;
mod operator;
mod parser;
mod reader;
mod semantics;
mod symbol;
mod text;
mod token;

pub use ast::AST;
pub use env::Env;
pub use errors::LispError;
pub use eval::Machine;
pub use func::LispFunc;
pub use lexer::Lexer;
pub use lisp_type::LispType;
pub use operator::{
    add_symbol, div_symbol, eq_symbol, gt_symbol, gte_symbol, init_operator_funcs, lt_symbol,
    lte_symbol, mul_symbol, sub_symbol, NativeOp,
};
pub use parser::{ListValue, Parser};
pub use reader::Reader;
pub use symbol::Symbol;
pub use token::{Keyword, Token};
