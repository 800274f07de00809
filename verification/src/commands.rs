//! The commands that the shell can run: its builtins, and how a name is
//! resolved to a builtin or to a program on the search path.

pub mod builtin;
pub mod resolve;

pub use builtin::{Builtin, FromStrError, BUILTIN_COMMANDS};
pub use resolve::{find_exec_file, resolve, CommandKind, Probe};
