//! A front end for the WebAssembly module format: a scanner for the text
//! encoding and a structural decoder for the binary encoding.

pub mod ast;
pub mod section;
pub mod format;
pub mod loader;
pub mod token;
pub mod number;
pub mod lexer;
pub mod tokenizer;
