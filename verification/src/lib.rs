//! An arithmetic expression calculator: scanner, predictive parser and session state.
//!
//! A line of text is scanned into tokens ([`scanner`]), the tokens are read by
//! the rules of the grammar ([`grammar`], [`parser`]) into an expression
//! ([`expr`]), and the calculator ([`calc`]) keeps the variables that lines
//! assign to. Values are doubles; the library carries them as their 64 bits
//! and leaves the arithmetic to whoever evaluates the expressions.

pub mod calc;
pub mod expr;
pub mod fault;
pub mod function;
pub mod grammar;
pub mod laws;
pub mod names;
pub mod parser;
pub mod scanner;
pub mod sentence;
pub mod text;
pub mod token;

pub use crate::calc::{Calculator, Outcome};
pub use crate::expr::{BinaryOp, Expr, PResult};
pub use crate::function::{Arity, Function};
pub use crate::parser::Parser;
pub use crate::scanner::Scanner;
pub use crate::token::{Token, TokenSet, TokenType};
