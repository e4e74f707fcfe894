//! ClaudeCode host integration: the `mcpServers.famp` entry and the two
//! Stop-hook entries (the hook runner, then the listen-mode await shim).

use vstd::prelude::*;
use crate::install::json_merge::JsonMergeError;
use crate::install::stop_entry::{command_hook, is_command_hook, is_stop_group, prior_stop_entries, prune_stop_entries, pruned_stop_array, read_stop_entries, stop_group};
use crate::json::{array_of, member, str_of, JsonValue};
use crate::members::lemma_find_key_at;
use crate::text::{opt_text, owned};

verus! {

/// How long the hook runner may run, in seconds.
pub const HOOK_RUNNER_TIMEOUT_SEC: u64 = 30;
/// How long the listen-mode await shim may run, in seconds.
pub const AWAIT_TIMEOUT_SEC: u64 = 86_400;

/// `v` is the stdio MCP server entry that runs `famp_bin mcp`: exactly the
/// members `args`, `command` and `type`.
pub open spec fn is_mcp_entry(v: JsonValue, famp_bin: Seq<char>) -> bool {
    &&& v matches JsonValue::Object(m) && m@.len() == 3
    &&& str_of(member(v, "type"@)) == Some("stdio"@)
    &&& str_of(member(v, "command"@)) == Some(famp_bin)
    &&& array_of(member(v, "args"@)) matches Some(a) && a.len() == 1 && str_of(Some(a[0])) == Some("mcp"@)
}

/// `{"args": ["mcp"], "command": famp_bin, "type": "stdio"}`.
pub fn mcp_server_entry(famp_bin: &str) -> (r: JsonValue)
    ensures
        is_mcp_entry(r, famp_bin@),
{
    let mut args: Vec<JsonValue> = Vec::new();
    args.push(JsonValue::Str(owned("mcp")));
    let mut m: Vec<(String, JsonValue)> = Vec::new();
    m.push((owned("args"), JsonValue::Array(args)));
    m.push((owned("command"), JsonValue::Str(owned(famp_bin))));
    m.push((owned("type"), JsonValue::Str(owned("stdio"))));
    proof {
        reveal_strlit("args");
        reveal_strlit("command");
        reveal_strlit("type");
        assert("args"@[0] != "command"@[0]);
        assert("args"@[0] != "type"@[0]);
        assert("command"@[0] != "type"@[0]);
        lemma_find_key_at(m@, 0, "args"@);
        lemma_find_key_at(m@, 1, "command"@);
        lemma_find_key_at(m@, 2, "type"@);
    }
    JsonValue::Object(m)
}

/// `v` is the prior Stop array with every FAMP-owned command pruned, then
/// the hook-runner entry and the await-shim entry, in that order (the host
/// runs Stop hooks in array order; the fast runner must go first).
pub open spec fn claude_stop_array(prior: Seq<JsonValue>, shim_path: Seq<char>, await_shim_path: Seq<char>, v: Seq<JsonValue>) -> bool {
    &&& v.len() >= 2
    &&& is_stop_group(v[v.len() - 2], shim_path, HOOK_RUNNER_TIMEOUT_SEC, true)
    &&& is_stop_group(v[v.len() - 1], await_shim_path, AWAIT_TIMEOUT_SEC, true)
    &&& exists|shims: Seq<String>| shims.len() == 2 && shims[0]@ == shim_path && shims[1]@ == await_shim_path
        && pruned_stop_array(prior, shims, v.take(v.len() - 2))
}

/// The ClaudeCode Stop-hook array after a (re)install.
pub fn build_stop_array(existing: Option<&str>, shim_path: &str, await_shim_path: &str) -> (r: Result<Vec<JsonValue>, JsonMergeError>)
    ensures
        match prior_stop_entries(opt_text(existing)) {
            None => r matches Err(JsonMergeError::Parse),
            Some(prior) => r matches Ok(v) && claude_stop_array(prior, shim_path@, await_shim_path@, v@),
        },
{
    let prior = match read_stop_entries(existing) {
        Ok(p) => p,
        Err(e) => return Err(e),
    };
    let ghost prior_v = prior@;
    let mut shims: Vec<String> = Vec::new();
    shims.push(owned(shim_path));
    shims.push(owned(await_shim_path));
    let mut out = prune_stop_entries(prior, shims.as_slice());
    let ghost pruned = out@;
    out.push(stop_group(command_hook(shim_path, HOOK_RUNNER_TIMEOUT_SEC), true));
    out.push(stop_group(command_hook(await_shim_path, AWAIT_TIMEOUT_SEC), true));
    proof {
        assert(out@.take(out@.len() - 2) =~= pruned);
        assert(is_command_hook(array_of(member(out@[out@.len() - 2], "hooks"@)).unwrap()[0], shim_path@, HOOK_RUNNER_TIMEOUT_SEC));
        assert(is_command_hook(array_of(member(out@[out@.len() - 1], "hooks"@)).unwrap()[0], await_shim_path@, AWAIT_TIMEOUT_SEC));
        assert(pruned_stop_array(prior_v, shims@, out@.take(out@.len() - 2)));
        assert(prior_stop_entries(opt_text(existing)) == Some(prior_v));
        assert(shims@.len() == 2 && shims@[0]@ == shim_path@ && shims@[1]@ == await_shim_path@);
        assert(is_stop_group(out@[out@.len() - 2], shim_path@, HOOK_RUNNER_TIMEOUT_SEC, true));
        assert(is_stop_group(out@[out@.len() - 1], await_shim_path@, AWAIT_TIMEOUT_SEC, true));
        assert(claude_stop_array(prior_v, shim_path@, await_shim_path@, out@));
    }
    Ok(out)
}

} // verus!
