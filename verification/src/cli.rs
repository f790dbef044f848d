//! The command line: when the launcher opens its window, and the
//! `fetch-games owner/repo` command.
use vstd::prelude::*;

use crate::text::{split_once, split_once_spec, str_eq};

verus! {

/// What the command line asks for, besides the window.
pub enum CliCommand {
    /// `fetch-games owner/repo`: list the games of that repository.
    FetchGames { owner: String, repo: String },
    /// `fetch-games` with an argument that is not `owner/repo`.
    InvalidRepoSpec,
    /// Nothing to do.
    Nothing,
}

/// The window opens when there are no arguments besides the program name,
/// or when one of the arguments is `gui`.
pub open spec fn wants_gui_spec(args: Seq<Seq<char>>) -> bool {
    args.len() == 1 || exists|i: int| 0 <= i < args.len() && #[trigger] args[i] == "gui"@
}

pub fn wants_gui(args: &Vec<String>) -> (res: bool)
    ensures
        res == wants_gui_spec(args@.map_values(|a: String| a@)),
{
    let ghost v = args@.map_values(|a: String| a@);
    if args.len() == 1 {
        return true;
    }
    let mut i: usize = 0;
    while i < args.len()
        invariant
            i <= args.len(),
            v == args@.map_values(|a: String| a@),
            forall|j: int| 0 <= j < i ==> v[j] != "gui"@,
        decreases args.len() - i,
    {
        if str_eq(args[i].as_str(), "gui") {
            assert(v[i as int] == "gui"@);
            return true;
        }
        i += 1;
    }
    false
}

/// The command of `args` (the program name first).
pub fn parse_command(args: &Vec<String>) -> (res: CliCommand)
    ensures
        (args@.len() >= 3 && args@[1]@ == "fetch-games"@) ==> match split_once_spec(
            args@[2]@,
            '/',
        ) {
            Some((o, r)) => res matches CliCommand::FetchGames { owner, repo } && owner@ == o
                && repo@ == r,
            None => res is InvalidRepoSpec,
        },
        !(args@.len() >= 3 && args@[1]@ == "fetch-games"@) ==> res is Nothing,
{
    if args.len() >= 3 && str_eq(args[1].as_str(), "fetch-games") {
        match split_once(args[2].as_str(), '/') {
            Some((owner, repo)) => CliCommand::FetchGames { owner, repo },
            None => CliCommand::InvalidRepoSpec,
        }
    } else {
        CliCommand::Nothing
    }
}

} // verus!
