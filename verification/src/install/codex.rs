//! Codex integration: the native `famp hook codex-stop` Stop-hook entry in
//! a project's `.codex/hooks.json`, its trust key, and the FAMP-owned
//! command patterns that a reinstall replaces.

use vstd::prelude::*;
use sha2::Digest;
use crate::executable::{posix_shell_literal, shell_literal};
use crate::install::json_merge::JsonMergeError;
use crate::install::stop_entry::{command_hook, is_command_hook, is_stop_group, prior_stop_entries, prune_stop_entries, pruned_stop_array, read_stop_entries, stop_group};
use crate::json::{array_of, i64_of, json_compact, member, render_json_compact, str_of, JsonValue};
use crate::text::{chars_of, decimal, opt_text, owned, u64_to_decimal};

verus! {

/// How long the Codex Stop hook may run, in seconds.
pub const CODEX_AWAIT_TIMEOUT_SEC: i64 = 86_400;

/// Characters that need no quoting in a shell word.
pub open spec fn plain_path_char(c: char) -> bool {
    ('a' <= c <= 'z') || ('A' <= c <= 'Z') || ('0' <= c <= '9') || c == '/' || c == '.' || c == '_' || c == '-'
}

pub open spec fn quoted_path(path: Seq<char>) -> Seq<char> {
    if forall|i: int| 0 <= i < path.len() ==> #[trigger] plain_path_char(path[i]) { path } else { shell_literal(path) }
}

/// `path` as a shell word: as is when every character is plain, else
/// single-quoted.
pub fn shell_quote_path(path: &str) -> (r: String)
    ensures
        r@ == quoted_path(path@),
{
    let v = chars_of(path);
    let mut i: usize = 0;
    while i < v.len()
        invariant
            i <= v@.len(),
            v@ == path@,
            forall|k: int| 0 <= k < i ==> #[trigger] plain_path_char(v@[k]),
        decreases v@.len() - i,
    {
        let c = v[i];
        if !(('a' <= c && c <= 'z') || ('A' <= c && c <= 'Z') || ('0' <= c && c <= '9') || c == '/' || c == '.' || c == '_' || c == '-') {
            assert(!plain_path_char(path@[i as int]));
            return posix_shell_literal(path);
        }
        i += 1;
    }
    owned(path)
}

pub open spec fn stop_command(famp_bin: Seq<char>) -> Seq<char> {
    quoted_path(famp_bin) + " hook codex-stop"@
}

/// The command installed into Codex `hooks.json`.
pub fn codex_stop_command(famp_bin: &str) -> (r: String)
    ensures
        r@ == stop_command(famp_bin@),
{
    let mut s = shell_quote_path(famp_bin);
    s.append(" hook codex-stop");
    s
}

/// The commands that identify FAMP-owned Codex Stop entries: the native
/// helper (quoted and unquoted binary path) and the legacy shell shim
/// (quoted and unquoted).
pub open spec fn command_patterns(famp_bin: Seq<char>, shim: Seq<char>) -> Set<Seq<char>> {
    set![stop_command(famp_bin), famp_bin + " hook codex-stop"@, shim, quoted_path(shim)]
}

/// `t` is the text of some element of `v`.
pub open spec fn holds_text(v: Seq<String>, t: Seq<char>) -> bool {
    exists|i: int| 0 <= i < v.len() && #[trigger] v[i]@ == t
}

fn push_distinct(v: &mut Vec<String>, s: String)
    ensures
        forall|t: Seq<char>| #[trigger] holds_text(final(v)@, t) <==> (holds_text(old(v)@, t) || t == s@),
        (forall|i: int, j: int| 0 <= i < j < old(v)@.len() ==> old(v)@[i]@ != old(v)@[j]@)
            ==> forall|i: int, j: int| 0 <= i < j < final(v)@.len() ==> final(v)@[i]@ != final(v)@[j]@,
{
    let mut k: usize = 0;
    while k < v.len()
        invariant
            k <= v@.len(),
            v@ == old(v)@,
            forall|j: int| 0 <= j < k ==> v@[j]@ != s@,
        decreases v@.len() - k,
    {
        if v[k] == s {
            return;
        }
        k += 1;
    }
    let ghost before = v@;
    v.push(s);
    proof {
        assert forall|t: Seq<char>| #[trigger] holds_text(v@, t) <==> (holds_text(before, t) || t == s@) by {
            if holds_text(before, t) {
                let i = choose|i: int| 0 <= i < before.len() && #[trigger] before[i]@ == t;
                assert(v@[i] == before[i]);
            }
            if t == s@ {
                assert(v@[before.len() as int]@ == t);
            }
            if holds_text(v@, t) {
                let i = choose|i: int| 0 <= i < v@.len() && #[trigger] v@[i]@ == t;
                if i < before.len() {
                    assert(before[i] == v@[i]);
                }
            }
        }
    }
}

/// Patterns that identify FAMP-owned Codex Stop entries (native helper and
/// legacy shim), each once.
pub fn famp_hook_command_patterns(famp_bin: &str, await_shim_path: &str) -> (r: Vec<String>)
    ensures
        forall|t: Seq<char>| #[trigger] holds_text(r@, t) <==> command_patterns(famp_bin@, await_shim_path@).contains(t),
        forall|i: int, j: int| 0 <= i < j < r@.len() ==> r@[i]@ != r@[j]@,
{
    let mut v: Vec<String> = Vec::new();
    let mut unquoted = owned(famp_bin);
    unquoted.append(" hook codex-stop");
    push_distinct(&mut v, codex_stop_command(famp_bin));
    push_distinct(&mut v, unquoted);
    push_distinct(&mut v, owned(await_shim_path));
    push_distinct(&mut v, shell_quote_path(await_shim_path));
    v
}

pub open spec fn hook_key(hooks_path: Seq<char>, event_label: Seq<char>, group: nat, handler: nat) -> Seq<char> {
    hooks_path + ":"@ + event_label + ":"@ + decimal(group) + ":"@ + decimal(handler)
}

/// The key under which Codex records trust for one hook handler:
/// `<hooks.json path>:<event>:<group index>:<handler index>`.
pub fn codex_hook_key(hooks_path: &str, event_label: &str, group_index: usize, handler_index: usize) -> (r: String)
    ensures
        r@ == hook_key(hooks_path@, event_label@, group_index as nat, handler_index as nat),
{
    let mut s = owned(hooks_path);
    s.append(":");
    s.append(event_label);
    s.append(":");
    let g = u64_to_decimal(group_index as u64);
    s.append(g.as_str());
    s.append(":");
    let h = u64_to_decimal(handler_index as u64);
    s.append(h.as_str());
    s
}


/// `v` is the prior Stop array with every FAMP-owned command pruned, then
/// one element running `command`.
pub open spec fn codex_stop_array(prior: Seq<JsonValue>, famp_bin: Seq<char>, await_shim_path: Seq<char>, command: Seq<char>, v: Seq<JsonValue>) -> bool {
    &&& v.len() >= 1
    &&& is_stop_group(v.last(), command, CODEX_AWAIT_TIMEOUT_SEC as u64, false)
    &&& exists|shims: Seq<String>| (forall|t: Seq<char>| #[trigger] holds_text(shims, t) <==> command_patterns(famp_bin, await_shim_path).contains(t))
        && pruned_stop_array(prior, shims, v.drop_last())
}

/// The Codex Stop-hook array after a (re)install: the prior elements with
/// every FAMP-owned command pruned, then one element running `command`.
pub fn build_stop_array(existing: Option<&str>, famp_bin: &str, await_shim_path: &str, command: &str) -> (r: Result<Vec<JsonValue>, JsonMergeError>)
    ensures
        match prior_stop_entries(opt_text(existing)) {
            None => r matches Err(JsonMergeError::Parse),
            Some(prior) => r matches Ok(v) && codex_stop_array(prior, famp_bin@, await_shim_path@, command@, v@),
        },
{
    let prior = match read_stop_entries(existing) {
        Ok(p) => p,
        Err(e) => return Err(e),
    };
    let ghost prior_v = prior@;
    let patterns = famp_hook_command_patterns(famp_bin, await_shim_path);
    let mut out = prune_stop_entries(prior, patterns.as_slice());
    let ghost pruned = out@;
    let entry = stop_group(command_hook(command, CODEX_AWAIT_TIMEOUT_SEC as u64), false);
    out.push(entry);
    proof {
        assert(out@.drop_last() =~= pruned);
        assert(is_command_hook(array_of(member(out@.last(), "hooks"@)).unwrap()[0], command@, CODEX_AWAIT_TIMEOUT_SEC as u64));
        assert(pruned_stop_array(prior_v, patterns@, out@.drop_last()));
        assert((forall|t: Seq<char>| #[trigger] holds_text(patterns@, t) <==> command_patterns(famp_bin@, await_shim_path@).contains(t))
            && pruned_stop_array(prior_v, patterns@, out@.drop_last()));
        assert(prior_stop_entries(opt_text(existing)) == Some(prior_v));
        assert(codex_stop_array(prior_v, famp_bin@, await_shim_path@, command@, out@));
    }
    Ok(out)
}


/// The lowercase hexadecimal SHA-256 digest of `bytes`, as `sha2` computes it.
pub uninterp spec fn sha256_hex_of(bytes: Seq<u8>) -> Seq<char>;

/// SHA-256 of `bytes` (`sha2::Sha256`), as 64 lowercase hex digits.
#[verifier::external_body]
fn sha256_hex(bytes: &[u8]) -> (r: String)
    ensures
        r@ == sha256_hex_of(bytes@),
        r@.len() == 64,
{
    format!("{:x}", sha2::Sha256::digest(bytes))
}

/// The hook identity that Codex hashes for trust: the event name and the
/// single command handler (`async: false`), each object holding exactly
/// these members with its keys in sorted order.
pub open spec fn is_hook_identity(v: JsonValue, event_label: Seq<char>, command: Seq<char>, timeout: i64) -> bool {
    match v {
        JsonValue::Object(m) => {
            &&& m@.len() == 2
            &&& m@[0].0@ == "event_name"@
            &&& str_of(Some(m@[0].1)) == Some(event_label)
            &&& m@[1].0@ == "hooks"@
            &&& match m@[1].1 {
                JsonValue::Array(hs) => hs@.len() == 1 && is_command_handler(hs@[0], command, timeout),
                _ => false,
            }
        },
        _ => false,
    }
}

/// The single handler of the hook identity: `async`, `command`, `timeout`
/// and `type`, in that order.
pub open spec fn is_command_handler(v: JsonValue, command: Seq<char>, timeout: i64) -> bool {
    match v {
        JsonValue::Object(h) => {
            &&& h@.len() == 4
            &&& h@[0].0@ == "async"@
            &&& h@[0].1 == JsonValue::Bool(false)
            &&& h@[1].0@ == "command"@
            &&& str_of(Some(h@[1].1)) == Some(command)
            &&& h@[2].0@ == "timeout"@
            &&& i64_of(Some(h@[2].1)) == Some(timeout as int)
            &&& h@[3].0@ == "type"@
            &&& str_of(Some(h@[3].1)) == Some("command"@)
        },
        _ => false,
    }
}

fn number(n: i64) -> (r: JsonValue)
    ensures
        i64_of(Some(r)) == Some(n as int),
{
    if n >= 0 { JsonValue::UInt(n as u64) } else { JsonValue::NegInt(n) }
}

/// Builds the hook identity.
pub fn codex_hook_identity(event_label: &str, command: &str, timeout: i64) -> (r: JsonValue)
    ensures
        is_hook_identity(r, event_label@, command@, timeout),
{
    let mut h: Vec<(String, JsonValue)> = Vec::new();
    h.push((owned("async"), JsonValue::Bool(false)));
    h.push((owned("command"), JsonValue::Str(owned(command))));
    h.push((owned("timeout"), number(timeout)));
    h.push((owned("type"), JsonValue::Str(owned("command"))));
    let handler = JsonValue::Object(h);
    let mut hs: Vec<JsonValue> = Vec::new();
    hs.push(handler);
    let mut m: Vec<(String, JsonValue)> = Vec::new();
    m.push((owned("event_name"), JsonValue::Str(owned(event_label))));
    m.push((owned("hooks"), JsonValue::Array(hs)));
    JsonValue::Object(m)
}

/// The trust hash Codex records for a command hook: `sha256:` and the hex
/// digest of the hook identity's compact JSON.
pub open spec fn hook_hash(event_label: Seq<char>, command: Seq<char>, timeout: i64) -> Set<Seq<char>> {
    Set::new(|h: Seq<char>| exists|v: JsonValue| is_hook_identity(v, event_label, command, timeout)
        && h == "sha256:"@ + sha256_hex_of(vstd::utf8::encode_utf8(#[trigger] json_compact(v))))
}

/// Computes the trust hash of a command hook.
pub fn codex_command_hook_hash(event_label: &str, command: &str, timeout_sec: i64) -> (r: String)
    ensures
        hook_hash(event_label@, command@, timeout_sec).contains(r@),
{
    let identity = codex_hook_identity(event_label, command, timeout_sec);
    let text = render_json_compact(&identity);
    let digest = sha256_hex(text.as_str().as_bytes());
    let mut out = owned("sha256:");
    out.append(digest.as_str());
    proof {
        assert(hook_hash(event_label@, command@, timeout_sec).contains(out@));
    }
    out
}

} // verus!
