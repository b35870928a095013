//! A tree-walking interpreter for a small dynamically typed scripting
//! language: numbers, strings, booleans and nil, arithmetic, comparison and
//! equality, variables, block scopes, expression statements and `print`.
//!
//! A source text goes through three stages. [`Scanner`] turns it into
//! tokens and collects its lexical errors, [`Parser`] turns the tokens into
//! statements or stops at the first syntax error, and [`Interpreter`] runs
//! the statements against a chain of scopes until the first runtime error.
//! Each stage is proved to compute what a spec function defines:
//! [`scanner::scan`], [`grammar::program`] and
//! [`semantics::execution_from`].
//!
//! The library performs no input or output, and no floating-point
//! arithmetic. An interpreter collects the values that a program prints;
//! the caller takes them and writes them. A number is held as its binary64
//! bit pattern: the library orders, negates and compares patterns itself and
//! asks the caller for sums, differences, products, quotients and decimal
//! notation.

pub mod environment;
pub mod expr;
pub mod grammar;
pub mod interpreter;
pub mod number;
pub mod parser;
pub mod scanner;
pub mod semantics;
pub mod spelling;
pub mod stmt;
pub mod text;
pub mod token;

pub use environment::Environment;
pub use expr::Expr;
pub use interpreter::{ExprValue, Interpreter, InterpreterStatus, RuntimeError};
pub use number::{Arithmetic, Number};
pub use parser::{ParseError, Parser};
pub use scanner::Scanner;
pub use stmt::Stmt;
pub use token::{Token, TokenLiteral, TokenType};
