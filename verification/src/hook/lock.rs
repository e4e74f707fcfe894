//! The per-identity Stop-await singleton lock: a lock file, created
//! exclusively, that holds the pid of the process parked on the identity.

use vstd::prelude::*;
use crate::text::{chars_of, joined, join_path, owned, trim, trim_ws};

verus! {

/// `{root}/{identity}.lock`.
pub open spec fn lock_path_of(root: Seq<char>, identity: Seq<char>) -> Seq<char> {
    joined(root, identity + ".lock"@)
}

/// Where the lock file for `identity` lives under `root`.
pub fn lock_file_path(root: &str, identity: &str) -> (r: String)
    ensures
        r@ == lock_path_of(root@, identity@),
{
    let mut name = owned(identity);
    name.append(".lock");
    join_path(root, name.as_str())
}

pub open spec fn is_digit(c: char) -> bool {
    '0' <= c <= '9'
}

/// The value of a string of decimal digits.
pub open spec fn digits_value(s: Seq<char>) -> nat
    decreases s.len(),
{
    if s.len() == 0 {
        0
    } else {
        digits_value(s.drop_last()) * 10 + ((s.last() as nat) - ('0' as nat)) as nat
    }
}

pub open spec fn all_digits(d: Seq<char>) -> bool {
    forall|i: int| 0 <= i < d.len() ==> #[trigger] is_digit(d[i])
}

/// `s` without one leading `+`.
pub open spec fn unsigned_part(s: Seq<char>) -> Seq<char> {
    if s.len() > 0 && s[0] == '+' { s.skip(1) } else { s }
}

/// What `str::parse::<u32>` gives: an optional `+` then one or more
/// decimal digits whose value fits in 32 bits.
pub open spec fn parsed_u32(s: Seq<char>) -> Option<nat> {
    let d = unsigned_part(s);
    if d.len() > 0 && all_digits(d) && digits_value(d) <= u32::MAX {
        Some(digits_value(d))
    } else {
        None
    }
}

proof fn lemma_digits_value_grows(s: Seq<char>, n: int)
    requires
        0 <= n <= s.len(),
        forall|i: int| 0 <= i < s.len() ==> #[trigger] is_digit(s[i]),
    ensures
        digits_value(s.take(n)) <= digits_value(s),
    decreases s.len() - n,
{
    if n < s.len() {
        assert(s.take(n + 1).drop_last() =~= s.take(n));
        lemma_digits_value_grows(s, n + 1);
    } else {
        assert(s.take(n) =~= s);
    }
}

/// A pid written as text (a lock file, a `PPid:` field): trimmed, parsed
/// as `u32`.
pub fn parse_pid_text(text: &str) -> (r: Option<u32>)
    ensures
        match r {
            Some(p) => parsed_u32(trim_ws(text@)) == Some(p as nat),
            None => parsed_u32(trim_ws(text@)) is None,
        },
{
    let t = trim(text);
    let v = chars_of(t.as_str());
    let start: usize = if v.len() > 0 && v[0] == '+' { 1 } else { 0 };
    let ghost d = unsigned_part(v@);
    proof {
        assert(d =~= v@.skip(start as int));
    }
    if start >= v.len() {
        return None;
    }
    let mut value: u64 = 0;
    let mut i: usize = start;
    while i < v.len()
        invariant
            start <= i <= v@.len(),
            v@ == trim_ws(text@),
            d == v@.skip(start as int),
            d == unsigned_part(v@),
            forall|k: int| 0 <= k < i - start ==> #[trigger] is_digit(d[k]),
            value == digits_value(d.take(i - start)),
            value <= u32::MAX,
        decreases v@.len() - i,
    {
        let c = v[i];
        proof {
            assert(d[i - start] == v@[i as int]);
        }
        if !('0' <= c && c <= '9') {
            proof {
                assert(!is_digit(d[i - start]));
                assert(!all_digits(d));
            }
            return None;
        }
        proof {
            assert(d.take(i - start + 1).drop_last() =~= d.take(i - start));
            assert(d.take(i - start + 1).last() == c);
        }
        let ghost prev = value;
        value = value * 10 + ((c as u32) - ('0' as u32)) as u64;
        proof {
            assert(digits_value(d.take(i - start + 1)) == digits_value(d.take(i - start)) * 10 + ((c as nat) - ('0' as nat)) as nat);
            assert(value == digits_value(d.take(i - start + 1)));
        }
        if value > 4_294_967_295u64 {
            proof {
                if all_digits(d) {
                    lemma_digits_value_grows(d, i - start + 1);
                    assert(digits_value(d) > u32::MAX);
                }
            }
            return None;
        }
        i += 1;
    }
    proof {
        assert(d.take(v@.len() - start) =~= d);
    }
    Some(value as u32)
}

/// The directory holding the lock files: `famp` under `$XDG_STATE_HOME`,
/// else under `$HOME/.local/state`, else `/tmp/famp`.
pub open spec fn state_dir_of(xdg_state_home: Option<Seq<char>>, home: Option<Seq<char>>) -> Seq<char> {
    match xdg_state_home {
        Some(x) => joined(x, "famp"@),
        None => match home {
            Some(h) => joined(joined(joined(h, ".local"@), "state"@), "famp"@),
            None => "/tmp/famp"@,
        },
    }
}

/// Resolves the lock directory from the environment's values.
pub fn lock_state_dir(xdg_state_home: Option<&str>, home: Option<&str>) -> (r: String)
    ensures
        r@ == state_dir_of(crate::text::opt_text(xdg_state_home), crate::text::opt_text(home)),
{
    match xdg_state_home {
        Some(x) => join_path(x, "famp"),
        None => match home {
            Some(h) => {
                let a = join_path(h, ".local");
                let b = join_path(a.as_str(), "state");
                join_path(b.as_str(), "famp")
            },
            None => owned("/tmp/famp"),
        },
    }
}

/// What to do when the lock file already exists.
#[derive(Clone, Copy, Debug, PartialEq, Eq, Structural)]
pub enum LockStep {
    /// A live process holds the lock: this hook exits without parking.
    Busy,
    /// The lock is stale (no readable pid, or its process is gone): remove
    /// it and try to create it once more.
    Reclaim,
}

/// Decides what to do with an existing lock file, from the pid it records
/// and whether that process is alive.
pub fn existing_lock_step(holder: Option<u32>, holder_alive: bool) -> (r: LockStep)
    ensures
        (r == LockStep::Busy) == (holder is Some && holder_alive),
{
    match holder {
        Some(_) => if holder_alive { LockStep::Busy } else { LockStep::Reclaim },
        None => LockStep::Reclaim,
    }
}

} // verus!
