//! Front end for a small C-like, statically-tagged scripting language:
//! a tokenizer that turns source text into classified, position-annotated
//! tokens, and a recursive-descent parser that builds a syntax tree of
//! top-level declarations and their initializer expressions.

pub mod ast;
pub mod lexer;
pub mod ring;
pub mod token;
