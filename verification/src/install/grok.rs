//! Grok integration: the Stop-hook file `~/.grok/hooks/famp-listen-stop.json`
//! and the await entry refreshed in the compat-loaded settings file of the
//! ClaudeCode host. The `[mcp_servers.famp]` table is the Codex one.

use vstd::prelude::*;
use crate::install::json_merge::{lookup2, JsonMergeError};
use crate::install::stop_entry::{command_hook, is_command_hook, is_stop_group, prior_stop_entries, prune_stop_entries, pruned_stop_array, read_stop_entries, stop_group};
use crate::json::{array_of, json_pretty, member, render_json_pretty, JsonValue};
use crate::members::lemma_find_key_at;
use crate::text::{opt_text, owned};

verus! {

/// How long the await hook may run, in seconds.
pub const GROK_AWAIT_TIMEOUT_SEC: u64 = 86_400;

/// `d` is `{"hooks": {"Stop": [{"hooks": [<await shim command>]}]}}`, each
/// object holding only the members shown.
pub open spec fn is_grok_stop_document(d: JsonValue, shim: Seq<char>) -> bool {
    &&& d matches JsonValue::Object(m) && m@.len() == 1
    &&& member(d, "hooks"@) matches Some(h) && h matches JsonValue::Object(hm) && hm@.len() == 1
    &&& array_of(lookup2(d, "hooks"@, "Stop"@)) matches Some(a) && a.len() == 1
        && is_stop_group(a[0], shim, GROK_AWAIT_TIMEOUT_SEC, false)
}

/// `{key: value}`.
fn single_member(key: &str, value: JsonValue) -> (r: JsonValue)
    ensures
        r matches JsonValue::Object(m) && m@.len() == 1,
        member(r, key@) == Some(value),
{
    let mut m: Vec<(String, JsonValue)> = Vec::new();
    m.push((owned(key), value));
    proof {
        lemma_find_key_at(m@, 0, key@);
    }
    JsonValue::Object(m)
}

/// The Grok Stop-hook document that runs the await shim.
pub fn grok_stop_document(await_shim: &str) -> (r: JsonValue)
    ensures
        is_grok_stop_document(r, await_shim@),
{
    let hook = command_hook(await_shim, GROK_AWAIT_TIMEOUT_SEC);
    let group = stop_group(hook, false);
    let ghost gg = group;
    let mut groups: Vec<JsonValue> = Vec::new();
    groups.push(group);
    proof {
        assert(groups@ =~= seq![gg]);
    }
    let stop = single_member("Stop", JsonValue::Array(groups));
    single_member("hooks", stop)
}

/// The text of the Grok Stop-hook file: the pretty JSON document and a
/// newline.
pub fn grok_stop_hook_text(await_shim: &str) -> (r: String)
    ensures
        exists|d: JsonValue| is_grok_stop_document(d, await_shim@) && r@ == #[trigger] json_pretty(d) + "\n"@,
{
    let d = grok_stop_document(await_shim);
    let mut t = render_json_pretty(&d);
    t.append("\n");
    t
}

/// `v` is the prior Stop array with every command of the await shim
/// pruned, then one await entry (with an empty matcher).
pub open spec fn grok_compat_stop(prior: Seq<JsonValue>, await_shim: Seq<char>, v: Seq<JsonValue>) -> bool {
    &&& v.len() >= 1
    &&& is_stop_group(v.last(), await_shim, GROK_AWAIT_TIMEOUT_SEC, true)
    &&& exists|shims: Seq<String>| shims.len() == 1 && shims[0]@ == await_shim
        && pruned_stop_array(prior, shims, v.drop_last())
}

/// The Stop array of the compat-loaded settings file after refreshing the
/// await entry; other Stop entries are kept.
pub fn grok_compat_stop_array(existing: Option<&str>, await_shim: &str) -> (r: Result<Vec<JsonValue>, JsonMergeError>)
    ensures
        match prior_stop_entries(opt_text(existing)) {
            None => r matches Err(JsonMergeError::Parse),
            Some(prior) => r matches Ok(v) && grok_compat_stop(prior, await_shim@, v@),
        },
{
    let prior = match read_stop_entries(existing) {
        Ok(p) => p,
        Err(e) => return Err(e),
    };
    let ghost prior_v = prior@;
    let mut shims: Vec<String> = Vec::new();
    shims.push(owned(await_shim));
    let mut out = prune_stop_entries(prior, shims.as_slice());
    let ghost pruned = out@;
    out.push(stop_group(command_hook(await_shim, GROK_AWAIT_TIMEOUT_SEC), true));
    proof {
        assert(out@.drop_last() =~= pruned);
        assert(is_command_hook(array_of(member(out@.last(), "hooks"@)).unwrap()[0], await_shim@, GROK_AWAIT_TIMEOUT_SEC));
        assert(shims@.len() == 1 && shims@[0]@ == await_shim@);
        assert(pruned_stop_array(prior_v, shims@, out@.drop_last()));
        assert(grok_compat_stop(prior_v, await_shim@, out@));
    }
    Ok(out)
}

} // verus!
