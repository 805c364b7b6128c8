//! Front end of a small expression language: tokens, a recursive-descent
//! parser producing a closed expression tree, a structural printer, a
//! tree-walking evaluator and the diagnostics they report.

pub mod ast;
pub mod evaluate;
pub mod interpreter;
pub mod lox_error;
pub mod parser;
pub mod printer;
pub mod scanner;
pub mod token;

pub use ast::Expr;
pub use evaluate::{Evaluator, LoxType, NumberDomain};
pub use interpreter::{run, run_tokens};
pub use lox_error::{LoxError, LoxErrorList};
pub use parser::Parser;
pub use printer::AstPrinter;
pub use scanner::Scanner;
pub use token::{Token, TokenType};
