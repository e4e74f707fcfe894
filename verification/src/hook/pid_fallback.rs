//! Recovering a listen identity by process ancestry when the transcript
//! has none: the hook's ancestors' `famp mcp` children, the one session
//! name they hold, and that identity's listen mode.

use vstd::prelude::*;
use crate::hook::lock::{parse_pid_text, parsed_u32};
use crate::text::{contains, lines, owned, seq_contains, seq_starts_with, split_lines, split_whitespace, starts_with, str_eq, string_of_range, chars_of, trim_ws, words};

verus! {

/// How many ancestors of the hook process are examined.
pub const MAX_ANCESTOR_DEPTH: usize = 6;

/// The text after the first line of a `/proc/<pid>/status` that starts with
/// `PPid:`.
pub open spec fn ppid_field(status: Seq<char>) -> Option<Seq<char>> {
    if exists|i: int| 0 <= i < lines(status).len() && seq_starts_with(#[trigger] lines(status)[i], "PPid:"@) {
        let i = choose|i: int| 0 <= i < lines(status).len() && seq_starts_with(#[trigger] lines(status)[i], "PPid:"@)
            && forall|k: int| 0 <= k < i ==> !seq_starts_with(#[trigger] lines(status)[k], "PPid:"@);
        Some(lines(status)[i].skip(5))
    } else {
        None
    }
}

/// The parent pid a `/proc/<pid>/status` text records: the first `PPid:`
/// line's value, trimmed and parsed.
pub fn ppid_from_status(status: &str) -> (r: Option<u32>)
    ensures
        match ppid_field(status@) {
            None => r is None,
            Some(f) => match parsed_u32(trim_ws(f)) {
                Some(p) => r == Some(p as u32),
                None => r is None,
            },
        },
{
    let ls = split_lines(status);
    let mut i: usize = 0;
    while i < ls.len()
        invariant
            i <= ls@.len(),
            ls@.len() == lines(status@).len(),
            forall|k: int| 0 <= k < ls@.len() ==> #[trigger] ls@[k]@ == lines(status@)[k],
            forall|k: int| 0 <= k < i ==> !seq_starts_with(#[trigger] lines(status@)[k], "PPid:"@),
        decreases ls@.len() - i,
    {
        proof {
            assert(ls@[i as int]@ == lines(status@)[i as int]);
        }
        if starts_with(ls[i].as_str(), "PPid:") {
            let v = chars_of(ls[i].as_str());
            proof {
                reveal_strlit("PPid:");
            }
            let rest = string_of_range(&v, 5, v.len());
            proof {
                assert(rest@ =~= lines(status@)[i as int].skip(5));
                let j = choose|j: int| 0 <= j < lines(status@).len() && seq_starts_with(#[trigger] lines(status@)[j], "PPid:"@)
                    && forall|k: int| 0 <= k < j ==> !seq_starts_with(#[trigger] lines(status@)[k], "PPid:"@);
                assert(j == i as int) by {
                    if j < i {
                    } else if j > i {
                        assert(!seq_starts_with(lines(status@)[i as int], "PPid:"@));
                    }
                }
            }
            return match parse_pid_text(rest.as_str()) {
                Some(p) => Some(p),
                None => None,
            };
        }
        i += 1;
    }
    None
}

/// `pid` is a child of one of the hook's ancestors running `famp mcp`.
pub open spec fn sibling_mcp(ppid: u32, ancestors: Seq<u32>, cmdline: Seq<char>) -> bool {
    ancestors.contains(ppid) && seq_contains(cmdline, "famp mcp"@)
}

/// Whether a process with parent `ppid` and command line `cmdline` is a
/// `famp mcp` sibling of the hook.
pub fn is_sibling_mcp(ppid: u32, ancestors: &[u32], cmdline: &str) -> (r: bool)
    ensures
        r == sibling_mcp(ppid, ancestors@, cmdline@),
{
    let mut found = false;
    let mut i: usize = 0;
    while i < ancestors.len()
        invariant
            i <= ancestors@.len(),
            found == (exists|k: int| 0 <= k < i && ancestors@[k] == ppid),
        decreases ancestors@.len() - i,
    {
        if ancestors[i] == ppid {
            found = true;
        }
        i += 1;
    }
    proof {
        if found {
            let k = choose|k: int| 0 <= k < ancestors@.len() && ancestors@[k] == ppid;
            assert(ancestors@.contains(ppid));
        } else {
            assert(!ancestors@.contains(ppid));
        }
    }
    found && contains(cmdline, "famp mcp")
}

/// The session names held by the given pids.
pub open spec fn names_for(rows: Seq<(String, u32)>, pids: Seq<u32>) -> Set<Seq<char>> {
    Set::new(|n: Seq<char>| exists|i: int| 0 <= i < rows.len() && rows[i].0@ == n && #[trigger] pids.contains(rows[i].1))
}

/// The one session name that the sibling `famp mcp` pids hold; `None`
/// when they hold none or more than one (ambiguous).
pub fn unique_session_name_for_pids(rows: &[(String, u32)], pids: &[u32]) -> (r: Option<String>)
    ensures
        match r {
            Some(n) => names_for(rows@, pids@) == set![n@],
            None => !(exists|n: Seq<char>| names_for(rows@, pids@) == set![n]),
        },
{
    let mut first: Option<String> = None;
    let mut i: usize = 0;
    while i < rows.len()
        invariant
            i <= rows@.len(),
            match first {
                None => forall|k: int| 0 <= k < i ==> !pids@.contains(#[trigger] rows@[k].1),
                Some(n) => (exists|k: int| 0 <= k < i && rows@[k].0@ == n@ && #[trigger] pids@.contains(rows@[k].1))
                    && forall|k: int| 0 <= k < i && #[trigger] pids@.contains(rows@[k].1) ==> rows@[k].0@ == n@,
            },
        decreases rows@.len() - i,
    {
        let pid = rows[i].1;
        let mut hit = false;
        let mut j: usize = 0;
        while j < pids.len()
            invariant
                j <= pids@.len(),
                hit == (exists|k: int| 0 <= k < j && pids@[k] == pid),
            decreases pids@.len() - j,
        {
            if pids[j] == pid {
                hit = true;
            }
            j += 1;
        }
        proof {
            if hit {
                let k = choose|k: int| 0 <= k < pids@.len() && pids@[k] == pid;
                assert(pids@.contains(pid));
            } else {
                assert(!pids@.contains(pid));
            }
        }
        if hit {
            match &first {
                None => {
                    first = Some(rows[i].0.clone());
                },
                Some(n) => {
                    if !str_eq(n.as_str(), rows[i].0.as_str()) {
                        proof {
                            let k = choose|k: int| 0 <= k < i && rows@[k].0@ == n@ && #[trigger] pids@.contains(rows@[k].1);
                            assert(names_for(rows@, pids@).contains(n@));
                            assert(names_for(rows@, pids@).contains(rows@[i as int].0@));
                            assert forall|m: Seq<char>| names_for(rows@, pids@) != set![m] by {
                                if names_for(rows@, pids@) == set![m] {
                                    assert(set![m].contains(n@));
                                    assert(set![m].contains(rows@[i as int].0@));
                                }
                            }
                        }
                        return None;
                    }
                },
            }
        }
        i += 1;
    }
    match first {
        None => {
            proof {
                assert forall|m: Seq<char>| names_for(rows@, pids@) != set![m] by {
                    assert(!names_for(rows@, pids@).contains(m));
                    assert(set![m].contains(m));
                }
            }
            None
        },
        Some(n) => {
            proof {
                assert(names_for(rows@, pids@) =~= set![n@]);
            }
            Some(n)
        },
    }
}

/// The identity is registered with listen mode on, per the broker's
/// identity rows (name, listen mode).
pub fn identity_is_listen(rows: &[(String, bool)], name: &str) -> (r: bool)
    ensures
        r == exists|i: int| 0 <= i < rows@.len() && rows@[i].0@ == name@ && #[trigger] rows@[i].1,
{
    let mut i: usize = 0;
    while i < rows.len()
        invariant
            i <= rows@.len(),
            forall|k: int| 0 <= k < i ==> !(rows@[k].0@ == name@ && #[trigger] rows@[k].1),
        decreases rows@.len() - i,
    {
        if rows[i].1 && str_eq(rows[i].0.as_str(), name) {
            return true;
        }
        i += 1;
    }
    false
}

/// Whether the ancestor walk continues past `ppid`: it stops at the
/// kernel's and init's pids.
pub fn continues_ancestry(ppid: u32) -> (r: bool)
    ensures
        r == (ppid != 0 && ppid != 1),
{
    ppid != 0 && ppid != 1
}

} // verus!
