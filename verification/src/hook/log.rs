//! The Stop hook's diagnostic log: where it lives and how a line reads.

use vstd::prelude::*;
use crate::text::{decimal, joined, join_path, owned, u64_to_decimal};

verus! {

/// The log file: `$FAMP_HOOK_LOG` when set, else `famp/await-hook.log`
/// under `$XDG_STATE_HOME`, else under `$HOME/.local/state`, else under
/// `/tmp`.
pub open spec fn hook_log_path_of(famp_hook_log: Option<Seq<char>>, xdg_state_home: Option<Seq<char>>, home: Option<Seq<char>>) -> Seq<char> {
    match famp_hook_log {
        Some(p) => p,
        None => {
            let state = match xdg_state_home {
                Some(x) => x,
                None => match home {
                    Some(h) => joined(joined(h, ".local"@), "state"@),
                    None => "/tmp"@,
                },
            };
            joined(joined(state, "famp"@), "await-hook.log"@)
        },
    }
}

/// Resolves the log file from the environment's values.
pub fn hook_log_path(famp_hook_log: Option<&str>, xdg_state_home: Option<&str>, home: Option<&str>) -> (r: String)
    ensures
        r@ == hook_log_path_of(crate::text::opt_text(famp_hook_log), crate::text::opt_text(xdg_state_home), crate::text::opt_text(home)),
{
    match famp_hook_log {
        Some(p) => owned(p),
        None => {
            let state = match xdg_state_home {
                Some(x) => owned(x),
                None => match home {
                    Some(h) => {
                        let l = join_path(h, ".local");
                        join_path(l.as_str(), "state")
                    },
                    None => owned("/tmp"),
                },
            };
            let f = join_path(state.as_str(), "famp");
            join_path(f.as_str(), "await-hook.log")
        },
    }
}

/// `[<seconds since the epoch> pid=<pid>] <message>`.
pub open spec fn log_line_of(secs: u64, pid: u32, msg: Seq<char>) -> Seq<char> {
    "["@ + decimal(secs as nat) + " pid="@ + decimal(pid as nat) + "] "@ + msg
}

/// Formats one log line.
pub fn log_line(secs: u64, pid: u32, msg: &str) -> (r: String)
    ensures
        r@ == log_line_of(secs, pid, msg@),
{
    let mut s = owned("[");
    let t = u64_to_decimal(secs);
    s.append(t.as_str());
    s.append(" pid=");
    let p = u64_to_decimal(pid as u64);
    s.append(p.as_str());
    s.append("] ");
    s.append(msg);
    s
}

} // verus!
