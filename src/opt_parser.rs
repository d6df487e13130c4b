//! The command line: `<program> <action> <directory>`.

use vstd::prelude::*;
use crate::text::{lower_of, lowercase, str_eq};

verus! {

/// What a run does.
#[derive(Clone, Copy, Debug, PartialEq, Eq, Structural)]
pub enum Action {
    /// Copy or transcode every file into the library.
    Sync,
    /// List what a sync would do, touching nothing.
    Preview,
}

/// Why a command line was refused.
#[derive(Clone, Debug, PartialEq, Eq)]
pub enum UsageError {
    /// Fewer than two arguments followed the program name.
    MissingArguments,
    /// The action word is neither `sync` nor `preview`.
    UnknownAction(String),
}

/// The parsed command line.
#[derive(Clone, Debug)]
pub struct CmdlineOptions {
    /// The directory to scan.
    pub path: String,
    /// What to do with it.
    pub action: Action,
}

/// The action that the lowercase word `lowered` names.
pub open spec fn action_of_lowered(lowered: Seq<char>) -> Option<Action> {
    if lowered == "sync"@ {
        Some(Action::Sync)
    } else if lowered == "preview"@ {
        Some(Action::Preview)
    } else {
        None
    }
}

/// The action that `word` names, in any letter case.
pub open spec fn action_named(word: Seq<char>) -> Option<Action> {
    action_of_lowered(lower_of(word))
}

/// The action that the lowercase word `lowered` names, if any.
pub fn action_from_lowered(lowered: &str) -> (r: Option<Action>)
    ensures
        r == action_of_lowered(lowered@),
{
    if str_eq(lowered, "sync") {
        Some(Action::Sync)
    } else if str_eq(lowered, "preview") {
        Some(Action::Preview)
    } else {
        None
    }
}

impl CmdlineOptions {
    /// Parses the process arguments, the program name first.
    pub fn new(args: &Vec<String>) -> (r: Result<CmdlineOptions, UsageError>)
        ensures
            args@.len() < 3 <==> r == Err::<CmdlineOptions, UsageError>(UsageError::MissingArguments),
            r is Ok <==> args@.len() >= 3 && action_named(args@[1]@) is Some,
            r matches Ok(o) ==> Some(o.action) == action_named(args@[1]@) && o.path@ == args@[2]@,
            r matches Err(UsageError::UnknownAction(w)) ==> args@.len() >= 3 && w@ == args@[1]@,
    {
        if args.len() < 3 {
            return Err(UsageError::MissingArguments);
        }
        let lowered = lowercase(args[1].as_str());
        match action_from_lowered(lowered.as_str()) {
            Some(action) => Ok(CmdlineOptions { path: args[2].clone(), action }),
            None => Err(UsageError::UnknownAction(args[1].clone())),
        }
    }
}

} // verus!
