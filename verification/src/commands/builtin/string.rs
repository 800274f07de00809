//! The builtins that only make text: `echo` and `type`.

use vstd::prelude::*;
use vstd::string::StringExecFns;
use crate::commands::builtin::{builtin_named, Builtin};
use crate::parser::words::joined;
use crate::text::{join, join_spec};

verus! {

/// What `echo` prints: its arguments with single spaces between them, and a
/// line feed.
pub open spec fn echo_spec(args: Seq<Seq<char>>) -> Seq<char> {
    joined(args).push('\n')
}

/// The output of `echo`.
pub fn invoke_echo(cmd_list: &Vec<String>) -> (out: String)
    ensures
        out@ == echo_spec(cmd_list.deep_view()),
{
    proof {
        reveal_strlit(" ");
        assert(" "@ =~= seq![' ']);
    }
    let mut s = join(cmd_list, " ");
    s.push('\n');
    s
}

/// The views of the paths that the names were found at.
pub open spec fn path_views(paths: Seq<Option<String>>) -> Seq<Option<Seq<char>>> {
    Seq::new(
        paths.len(),
        |i: int|
            match paths[i] {
                Some(p) => Some(p@),
                None => None,
            },
    )
}

/// What `type` says of one name: a builtin is a builtin wherever else the
/// name may be found; any other name is at the path where it was found, or
/// not found.
pub open spec fn type_line(name: Seq<char>, path: Option<Seq<char>>) -> Seq<char> {
    if builtin_named(name) is Some {
        name + " is a shell builtin"@
    } else {
        match path {
            Some(p) => name + " is "@ + p,
            None => name + ": not found"@,
        }
    }
}

/// What `type` prints: one line for each name, in their order.
pub open spec fn type_spec(names: Seq<Seq<char>>, paths: Seq<Option<Seq<char>>>) -> Seq<char> {
    join_spec(Seq::new(names.len(), |i: int| type_line(names[i], paths[i])), seq!['\n']).push('\n')
}

/// The output of `type` for the names in `cmd_list`, where `found` holds for
/// each name the path of its executable on the search path, if there is one.
pub fn invoke_type(cmd_list: &Vec<String>, found: &Vec<Option<String>>) -> (out: String)
    requires
        cmd_list.len() == found.len(),
    ensures
        out@ == type_spec(cmd_list.deep_view(), path_views(found@)),
{
    let ghost names = cmd_list.deep_view();
    let ghost paths = path_views(found@);
    let mut lines: Vec<String> = Vec::new();
    let mut i: usize = 0;
    while i < cmd_list.len()
        invariant
            i <= cmd_list.len(),
            cmd_list.len() == found.len(),
            names == cmd_list.deep_view(),
            paths == path_views(found@),
            lines.deep_view() == Seq::new(i as nat, |k: int| type_line(names[k], paths[k])),
        decreases cmd_list.len() - i,
    {
        let cmd = cmd_list[i].as_str();
        assert(cmd@ == names[i as int]);
        let mut line = cmd.to_owned();
        match Builtin::from_str(cmd) {
            Ok(_) => {
                line.append(" is a shell builtin");
            },
            Err(_) => match &found[i] {
                Some(path) => {
                    line.append(" is ");
                    line.append(path.as_str());
                },
                None => {
                    line.append(": not found");
                },
            },
        }
        assert(line@ == type_line(names[i as int], paths[i as int]));
        let ghost before = lines.deep_view();
        lines.push(line);
        assert(lines.deep_view() =~= before.push(type_line(names[i as int], paths[i as int])));
        assert(lines.deep_view() =~= Seq::new(
            (i + 1) as nat,
            |k: int| type_line(names[k], paths[k]),
        ));
        i = i + 1;
    }
    proof {
        reveal_strlit("\n");
        assert("\n"@ =~= seq!['\n']);
        assert(lines.deep_view() =~= Seq::new(
            names.len(),
            |k: int| type_line(names[k], paths[k]),
        ));
    }
    let mut buf = join(&lines, "\n");
    buf.push('\n');
    buf
}

} // verus!
