//! The launcher's runtime log: the line format and the bounded in-memory
//! buffer that keeps the most recent lines.
use vstd::prelude::*;

use crate::text::{append_str, decimal, owned, push_decimal};

verus! {

/// How many lines the in-memory log keeps.
pub const LOG_CAPACITY: usize = 1000;

/// The last `n` elements of `s` (all of `s` where it is shorter).
pub open spec fn keep_last<A>(s: Seq<A>, n: nat) -> Seq<A> {
    if s.len() > n {
        s.subrange(s.len() - n, s.len() as int)
    } else {
        s
    }
}

/// `[{seconds}] {level}: {msg}`.
pub open spec fn log_line_spec(seconds: nat, level: Seq<char>, msg: Seq<char>) -> Seq<char> {
    "["@ + decimal(seconds) + "] "@ + level + ": "@ + msg
}

/// The log line for `msg` at `level`, stamped with `seconds` since the epoch.
pub fn format_log_line(seconds: u64, level: &str, msg: &str) -> (res: String)
    ensures
        res@ == log_line_spec(seconds as nat, level@, msg@),
{
    let mut s = owned("[");
    push_decimal(&mut s, seconds);
    append_str(&mut s, "] ");
    append_str(&mut s, level);
    append_str(&mut s, ": ");
    append_str(&mut s, msg);
    s
}

/// Append `line` to the buffer, dropping the oldest lines beyond the capacity.
pub fn push_log(logs: &mut Vec<String>, line: String)
    ensures
        final(logs)@ == keep_last(old(logs)@.push(line), LOG_CAPACITY as nat),
{
    logs.push(line);
    if logs.len() > LOG_CAPACITY {
        let excess = logs.len() - LOG_CAPACITY;
        let tail = logs.split_off(excess);
        *logs = tail;
    }
}

/// The buffer never holds more than the capacity, the newest line is last,
/// and the lines kept are the most recent ones, in order.
pub proof fn law_log_is_bounded_and_recent(logs: Seq<String>, line: String)
    ensures
        keep_last(logs.push(line), LOG_CAPACITY as nat).len() <= LOG_CAPACITY,
        keep_last(logs.push(line), LOG_CAPACITY as nat).last() == line,
        logs.len() < LOG_CAPACITY ==> keep_last(logs.push(line), LOG_CAPACITY as nat) == logs.push(
            line,
        ),
        forall|i: int|
            0 <= i < keep_last(logs.push(line), LOG_CAPACITY as nat).len() ==> #[trigger] keep_last(
                logs.push(line),
                LOG_CAPACITY as nat,
            )[i] == logs.push(line)[logs.push(line).len() - keep_last(
                logs.push(line),
                LOG_CAPACITY as nat,
            ).len() + i],
{
}

} // verus!
