//! The builtin commands and their names.

pub mod fs;
pub mod history;
pub mod string;

use vstd::prelude::*;
use crate::text::same_text;

verus! {

/// The names of the builtin commands.
pub const BUILTIN_COMMANDS: [&'static str; 6] = ["echo", "exit", "type", "pwd", "cd", "history"];

/// The commands built into the shell.
#[derive(Debug, Clone, Copy, PartialEq, Eq, Structural)]
pub enum Builtin {
    /// Prints its arguments.
    Echo,
    /// Leaves the shell.
    Exit,
    /// Says whether a name is a builtin or where it lies on the search path.
    Tipe,
    /// Prints the working directory.
    Pwd,
    /// Changes the working directory.
    Cd,
    /// Lists the history, or reads, writes or appends it.
    History,
}

/// Why a name is no builtin.
#[derive(Debug, Clone, PartialEq, Eq, PartialOrd, Ord)]
pub enum FromStrError {
    /// The name is not in the builtin set.
    UnknownBuiltin(String),
}

impl FromStrError {
    /// The name that was refused.
    pub open spec fn name(self) -> Seq<char> {
        match self {
            FromStrError::UnknownBuiltin(n) => n@,
        }
    }
}

/// The builtin that a name stands for, if any.
pub open spec fn builtin_named(name: Seq<char>) -> Option<Builtin> {
    if name == "echo"@ {
        Some(Builtin::Echo)
    } else if name == "exit"@ {
        Some(Builtin::Exit)
    } else if name == "type"@ {
        Some(Builtin::Tipe)
    } else if name == "pwd"@ {
        Some(Builtin::Pwd)
    } else if name == "cd"@ {
        Some(Builtin::Cd)
    } else if name == "history"@ {
        Some(Builtin::History)
    } else {
        None
    }
}

impl Builtin {
    /// The builtin with the given name; an error that carries the name where
    /// there is none.
    pub fn from_str(s: &str) -> (found: Result<Builtin, FromStrError>)
        ensures
            match found {
                Ok(b) => builtin_named(s@) == Some(b),
                Err(e) => builtin_named(s@) is None && e.name() == s@,
            },
    {
        if same_text(s, "echo") {
            Ok(Builtin::Echo)
        } else if same_text(s, "exit") {
            Ok(Builtin::Exit)
        } else if same_text(s, "type") {
            Ok(Builtin::Tipe)
        } else if same_text(s, "pwd") {
            Ok(Builtin::Pwd)
        } else if same_text(s, "cd") {
            Ok(Builtin::Cd)
        } else if same_text(s, "history") {
            Ok(Builtin::History)
        } else {
            Err(FromStrError::UnknownBuiltin(s.to_owned()))
        }
    }

    /// The name under which the builtin is called.
    pub fn name(self) -> (name: &'static str)
        ensures
            builtin_named(name@) == Some(self),
    {
        proof {
            lemma_builtin_names_differ();
        }
        match self {
            Builtin::Echo => "echo",
            Builtin::Exit => "exit",
            Builtin::Tipe => "type",
            Builtin::Pwd => "pwd",
            Builtin::Cd => "cd",
            Builtin::History => "history",
        }
    }
}

/// The six builtin names are six different words.
pub proof fn lemma_builtin_names_differ()
    ensures
        builtin_named("echo"@) == Some(Builtin::Echo),
        builtin_named("exit"@) == Some(Builtin::Exit),
        builtin_named("type"@) == Some(Builtin::Tipe),
        builtin_named("pwd"@) == Some(Builtin::Pwd),
        builtin_named("cd"@) == Some(Builtin::Cd),
        builtin_named("history"@) == Some(Builtin::History),
{
    reveal_strlit("echo");
    reveal_strlit("exit");
    reveal_strlit("type");
    reveal_strlit("pwd");
    reveal_strlit("cd");
    reveal_strlit("history");
    assert("echo"@[1] == 'c' && "exit"@[1] == 'x' && "type"@[1] == 'y');
    assert("pwd"@.len() == 3 && "cd"@.len() == 2 && "history"@.len() == 7);
    assert("echo"@.len() == 4 && "exit"@.len() == 4 && "type"@.len() == 4);
}

} // verus!
