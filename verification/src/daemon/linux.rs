//! Linux helpers for the `famp daemon` subcommand.

use vstd::prelude::*;
use crate::text::{lines, split_lines, str_eq, trim, trim_ws};

verus! {

/// The output of `loginctl show-user <user> --property=Linger` reports
/// linger on: one of its lines, trimmed, is `Linger=yes`.
pub open spec fn linger_on(output: Seq<char>) -> bool {
    exists|i: int| 0 <= i < lines(output).len() && trim_ws(#[trigger] lines(output)[i]) == "Linger=yes"@
}

/// Parses `loginctl show-user <user> --property=Linger`.
pub fn parse_linger(loginctl_output: &str) -> (r: bool)
    ensures
        r == linger_on(loginctl_output@),
{
    let ls = split_lines(loginctl_output);
    let mut i: usize = 0;
    while i < ls.len()
        invariant
            i <= ls@.len(),
            ls@.len() == lines(loginctl_output@).len(),
            forall|k: int| 0 <= k < ls@.len() ==> #[trigger] ls@[k]@ == lines(loginctl_output@)[k],
            forall|k: int| 0 <= k < i ==> trim_ws(#[trigger] lines(loginctl_output@)[k]) != "Linger=yes"@,
        decreases ls@.len() - i,
    {
        let t = trim(ls[i].as_str());
        if str_eq(t.as_str(), "Linger=yes") {
            assert(ls@[i as int]@ == lines(loginctl_output@)[i as int]);
            return true;
        }
        assert(ls@[i as int]@ == lines(loginctl_output@)[i as int]);
        i += 1;
    }
    false
}

} // verus!
