//! A pull-based lexical scanner for a small C-like scripting language.
//!
//! A [`Lexer`] is made from a source text and hands out one [`TokenType`] for
//! each request, from left to right, and `Eof` from the end of the text on.
//! What it hands out is stated in `grammar`, as a function of the bytes of the
//! source and an offset into them, and `laws` holds what follows for every
//! source.

pub mod classes;
pub mod grammar;
pub mod laws;
pub mod lexer;
pub mod text;
pub mod token;

pub use crate::lexer::Lexer;
pub use crate::token::TokenType;
