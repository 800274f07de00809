//! A small interactive shell, as a verified library.
//!
//! The crate holds the logic of the shell: how a line is split into words,
//! how words become tokens, how a command name is resolved, and which steps
//! the execution engine takes for a token stream. Everything that touches the
//! terminal, the file system or a child process is left to the program that
//! drives this library.

pub mod commands;
pub mod completion;
pub mod number;
pub mod parser;
pub mod shell;
pub mod text;
pub mod trie;
pub mod util;

pub use crate::commands::BUILTIN_COMMANDS;
pub use crate::completion::TrieCompleter;
