//! Running games: the information kept about a started game, and the
//! handling of the paths it is started from.
use vstd::prelude::*;

use crate::text::{append_str, chars_of, has_prefix, owned, string_of_range};

verus! {

/// `std::time::SystemTime`, carried through unchanged.
#[verifier::external_type_specification]
#[verifier::external_body]
pub struct ExSystemTime(std::time::SystemTime);

/// A started game: its id, process id and start time.
pub struct RunningInfo {
    pub id: String,
    pub pid: u32,
    pub start_time: std::time::SystemTime,
}

/// The Windows verbatim prefix `\\?\`.
pub open spec fn verbatim_prefix() -> Seq<char> {
    seq!['\\', '\\', '?', '\\']
}

/// `path` without a leading `\\?\` (some games cannot handle it), or
/// unchanged.
pub open spec fn strip_verbatim_spec(path: Seq<char>) -> Seq<char> {
    if has_prefix(path, verbatim_prefix()) {
        path.subrange(4, path.len() as int)
    } else {
        path
    }
}

pub fn strip_verbatim_prefix(path: &str) -> (res: String)
    ensures
        res@ == strip_verbatim_spec(path@),
{
    let cs = chars_of(path);
    if cs.len() >= 4 && cs[0] == '\\' && cs[1] == '\\' && cs[2] == '?' && cs[3] == '\\' {
        assert(cs@.subrange(0, 4) =~= verbatim_prefix());
        string_of_range(&cs, 4, cs.len())
    } else {
        proof {
            if has_prefix(path@, verbatim_prefix()) {
                assert(cs@.subrange(0, 4)[0] == cs@[0]);
                assert(cs@.subrange(0, 4)[1] == cs@[1]);
                assert(cs@.subrange(0, 4)[2] == cs@[2]);
                assert(cs@.subrange(0, 4)[3] == cs@[3]);
            }
        }
        assert(cs@.subrange(0, cs@.len() as int) =~= cs@);
        string_of_range(&cs, 0, cs.len())
    }
}

/// How long a stopped game is given to exit after the terminate signal
/// before it is killed.
pub const STOP_GRACE_SECS: u64 = 2;

/// What a start request finds for its id in the table of known games.
#[derive(Clone, Copy, Debug, PartialEq, Eq, Structural)]
pub enum StartCheck {
    /// A known game with this id is still running: the start is refused.
    Refuse,
    /// The known game has exited: its entry is dropped and the table is
    /// looked at again.
    ClearStale,
    /// No game is known under this id: the start goes on.
    Proceed,
}

/// The decision a start request takes on the table entry for its id.
pub open spec fn check_start_spec(known: bool, still_running: bool) -> StartCheck {
    if !known {
        StartCheck::Proceed
    } else if still_running {
        StartCheck::Refuse
    } else {
        StartCheck::ClearStale
    }
}

pub fn check_start(known: bool, still_running: bool) -> (res: StartCheck)
    ensures
        res == check_start_spec(known, still_running),
{
    if !known {
        StartCheck::Proceed
    } else if still_running {
        StartCheck::Refuse
    } else {
        StartCheck::ClearStale
    }
}

/// At most one live game per id: a start goes on only where no game is
/// known under its id, and a live known game is never replaced.
pub proof fn law_one_live_game_per_id(known: bool, still_running: bool)
    ensures
        check_start_spec(known, still_running) == StartCheck::Proceed ==> !known,
        known && still_running ==> check_start_spec(known, still_running)
            == StartCheck::Refuse,
{
}

/// The message of a refused start.
pub fn already_running_message(id: &str) -> (res: String)
    ensures
        res@ == "already running: "@ + id@,
{
    let mut m = owned("already running: ");
    append_str(&mut m, id);
    m
}

/// The message of a stop for an id that no game is known under.
pub fn not_running_message(id: &str) -> (res: String)
    ensures
        res@ == "not running: "@ + id@,
{
    let mut m = owned("not running: ");
    append_str(&mut m, id);
    m
}

/// The message when neither the given executable nor a search of the
/// install directory finds a file to start.
pub fn no_executable_message(dir: &str) -> (res: String)
    ensures
        res@ == "no executable found in "@ + dir@,
{
    let mut m = owned("no executable found in ");
    append_str(&mut m, dir);
    m
}

} // verus!
