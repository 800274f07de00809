//! The decisions of the builtins that look at the file system: `pwd` and
//! `cd`. Looking and changing directory are left to the caller.

use vstd::prelude::*;
use vstd::string::StringExecFns;
use crate::text::{same_text, view_of_text};

verus! {

/// Why a builtin failed.
#[derive(Debug, Clone, PartialEq, Eq)]
pub enum CommandsError {
    /// The working directory could not be told; the text says why.
    InvalidCurrentDirectory(String),
    /// `cd ~` was asked for and no home directory is known.
    HomeNotSet,
}

/// What `pwd` prints for a working directory: the directory and a line feed.
pub fn invoke_pwd(current_dir: &str) -> (out: String)
    ensures
        out@ == current_dir@.push('\n'),
{
    let mut out = current_dir.to_owned();
    out.push('\n');
    out
}

/// Where `cd` is to go: nowhere without an argument, to the home directory
/// for `~`, else to its first argument.
pub open spec fn cd_target_spec(args: Seq<Seq<char>>, home: Option<Seq<char>>) -> Result<
    Option<Seq<char>>,
    (),
> {
    if args.len() == 0 {
        Ok(None)
    } else if args[0] == "~"@ {
        match home {
            Some(h) => Ok(Some(h)),
            None => Err(()),
        }
    } else {
        Ok(Some(args[0]))
    }
}

/// Chooses the directory that `cd` is to change to, if any. `home` is the
/// home directory, where one is known.
pub fn cd_target(cmd_list: &Vec<String>, home: Option<String>) -> (target: Result<
    Option<String>,
    CommandsError,
>)
    ensures
        match target {
            Ok(Some(path)) => cd_target_spec(
                cmd_list.deep_view(),
                view_of_text(home),
            ) == Ok::<_, ()>(Some(path@)),
            Ok(None) => cd_target_spec(
                cmd_list.deep_view(),
                view_of_text(home),
            ) == Ok::<Option<Seq<char>>, ()>(None),
            Err(e) => e == CommandsError::HomeNotSet && cd_target_spec(
                cmd_list.deep_view(),
                view_of_text(home),
            ) is Err,
        },
{
    if cmd_list.len() == 0 {
        return Ok(None);
    }
    assert(cmd_list.deep_view()[0] == cmd_list@[0]@);
    if same_text(cmd_list[0].as_str(), "~") {
        match home {
            Some(h) => Ok(Some(h)),
            None => Err(CommandsError::HomeNotSet),
        }
    } else {
        Ok(Some(cmd_list[0].clone()))
    }
}

/// What `cd` answers once it is known whether the directory exists: nothing
/// where it does, and the directory is then changed to; else a complaint.
pub open spec fn cd_spec(path: Seq<char>, exists: bool) -> Option<Seq<char>> {
    if exists {
        None
    } else {
        Some("cd: "@ + path + ": No such file or directory\n"@)
    }
}

/// The output of `cd` for a directory that exists or does not.
pub fn invoke_cd(path: &str, exists: bool) -> (out: Option<String>)
    ensures
        view_of_text(out) == cd_spec(path@, exists),
{
    if exists {
        None
    } else {
        let mut out = "cd: ".to_owned();
        out.append(path);
        out.append(": No such file or directory\n");
        Some(out)
    }
}

} // verus!
