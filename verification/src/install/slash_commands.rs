//! The slash commands that the ClaudeCode installer drops into the host's
//! `commands/` directory, by file name, in their stable order.

use vstd::prelude::*;
use crate::text::owned;

verus! {

/// The file names of the slash-command templates, in order.
pub open spec fn slash_command_names() -> Seq<Seq<char>> {
    seq!["famp-register.md"@, "famp-send.md"@, "famp-channel.md"@, "famp-join.md"@,
        "famp-leave.md"@, "famp-who.md"@, "famp-inbox.md"@]
}

/// The slash-command file names that install writes and uninstall removes.
pub fn slash_command_files() -> (r: Vec<String>)
    ensures
        r@.len() == slash_command_names().len(),
        forall|i: int| 0 <= i < r@.len() ==> #[trigger] r@[i]@ == slash_command_names()[i],
{
    let mut v: Vec<String> = Vec::new();
    v.push(owned("famp-register.md"));
    v.push(owned("famp-send.md"));
    v.push(owned("famp-channel.md"));
    v.push(owned("famp-join.md"));
    v.push(owned("famp-leave.md"));
    v.push(owned("famp-who.md"));
    v.push(owned("famp-inbox.md"));
    v
}

} // verus!
