//! From a raw input line to a token stream.

pub mod token;
pub mod words;

pub use token::{tokenize_input, Token};
pub use words::split_words;
