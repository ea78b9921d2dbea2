//! The parser: folds the lexer's tokens into a logical program.

pub mod program;
