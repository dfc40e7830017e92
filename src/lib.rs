//! Front end of a small experimental language: a scanner that turns source
//! text into tokens, a recursive-descent parser that turns tokens into
//! statements, and the positioned diagnostics both of them report.
pub mod ast;
pub mod errors;
pub mod grammar;
pub mod lexer;
pub mod literal;
pub mod parser;
pub mod text;
pub mod token;
