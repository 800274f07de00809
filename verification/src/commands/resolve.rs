//! Resolving a command name: a builtin by its name, a program by the first
//! executable of that name on the search path.

use vstd::prelude::*;
use crate::commands::builtin::{builtin_named, Builtin};

verus! {

/// One directory of the search path, probed for a command: the path that the
/// command would have there, and whether an executable file lies at it.
#[derive(Debug, Clone, PartialEq, Eq)]
pub struct Probe {
    pub path: String,
    pub executable: bool,
}

/// What a command name stands for.
#[derive(Debug, Clone, PartialEq, Eq)]
pub enum CommandKind {
    /// A command of the shell itself.
    Builtin(Builtin),
    /// The program at this path.
    External(String),
    /// Nothing that can be run.
    NotFound,
}

/// The place of the first probe that found an executable, or the number of
/// probes where none did.
pub open spec fn first_hit(probes: Seq<Probe>) -> int
    decreases probes.len(),
{
    if probes.len() == 0 || probes[0].executable {
        0
    } else {
        1 + first_hit(probes.drop_first())
    }
}

/// The first hit is the first: no probe before it found an executable, and
/// the probe at it did, if it is a probe at all.
pub proof fn lemma_first_hit(probes: Seq<Probe>)
    ensures
        0 <= first_hit(probes) <= probes.len(),
        forall|k: int| 0 <= k < first_hit(probes) ==> !(#[trigger] probes[k]).executable,
        first_hit(probes) < probes.len() ==> probes[first_hit(probes)].executable,
    decreases probes.len(),
{
    if !(probes.len() == 0 || probes[0].executable) {
        let rest = probes.drop_first();
        lemma_first_hit(rest);
        assert forall|k: int| 0 <= k < first_hit(probes) implies !(#[trigger] probes[k]).executable by {
            if k > 0 {
                assert(probes[k] == rest[k - 1]);
            }
        }
    }
}

/// The path of the executable that a command name resolves to: that of the
/// first directory of the search path in which one was found.
pub fn find_exec_file(probes: &Vec<Probe>) -> (path: Option<String>)
    ensures
        match path {
            Some(p) => first_hit(probes@) < probes.len() && p@ == probes[first_hit(probes@)].path@,
            None => first_hit(probes@) == probes.len(),
        },
{
    let mut i: usize = 0;
    assert(probes@.skip(0) =~= probes@);
    while i < probes.len()
        invariant
            i <= probes.len(),
            first_hit(probes@) == i + first_hit(probes@.skip(i as int)),
        decreases probes.len() - i,
    {
        let ghost here = probes@.skip(i as int);
        assert(here[0] == probes@[i as int]);
        if probes[i].executable {
            return Some(probes[i].path.clone());
        }
        assert(here.drop_first() =~= probes@.skip(i + 1));
        i = i + 1;
    }
    None
}

/// What a command name stands for, given the probes of the search path for
/// it: a builtin wherever its name may lie on the search path, else the first
/// executable found, else nothing.
pub fn resolve(name: &str, probes: &Vec<Probe>) -> (kind: CommandKind)
    ensures
        match kind {
            CommandKind::Builtin(b) => builtin_named(name@) == Some(b),
            CommandKind::External(p) => builtin_named(name@) is None && first_hit(probes@)
                < probes.len() && p@ == probes[first_hit(probes@)].path@,
            CommandKind::NotFound => builtin_named(name@) is None && first_hit(probes@)
                == probes.len(),
        },
{
    match Builtin::from_str(name) {
        Ok(b) => CommandKind::Builtin(b),
        Err(_) => match find_exec_file(probes) {
            Some(p) => CommandKind::External(p),
            None => CommandKind::NotFound,
        },
    }
}

} // verus!
