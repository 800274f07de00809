//! The pipeline execution engine.
//!
//! The engine decides; it performs nothing. It reads a token stream stage by
//! stage and tells its driver which step comes next: run a builtin, start a
//! program, feed or read a pipe, write a file, wait for a child. The driver
//! performs the step and reports how it went.

pub mod engine;
pub mod error;
pub mod laws;
pub mod model;
pub mod protocol;
pub mod redirect;
pub mod repl;
pub mod stage;

pub use engine::{handle_command, Engine};
pub use error::ShellError;
pub use model::Phase;
pub use protocol::{Action, Event, Fault, Input, Output};
pub use redirect::{Redirection, Stream, WriteMode};
pub use repl::{interpret, trim_end, Line};
