//! Lexical analysis for the Crawfish language: a tokenizer that turns source
//! text into classified tokens carrying byte-offset spans.
pub mod text;
pub mod token;
pub mod unicode;
pub mod grammar;
pub mod tokenizer;
pub mod laws;
pub mod ast;
pub mod cli;
