//! Codex configuration written by `famp install-codex` into
//! `~/.codex/config.toml`: the `[mcp_servers.famp]` table, the hook trust
//! seeded under `[hooks.state."<key>"]`, and the pruning of stale FAMP-owned
//! trust entries left by an earlier install.

use vstd::prelude::*;
use crate::install::codex::{codex_command_hook_hash, command_patterns, famp_hook_command_patterns, holds_text, hook_hash, CODEX_AWAIT_TIMEOUT_SEC};
use crate::install::toml_merge::{blank, nested_upsert_result, table_upsert_result, upsert_codex_table, upsert_nested_codex_table, TomlMergeError, TomlMergeOutcome};
use crate::members::{lemma_find_key_bounds, lemma_find_key_update, position_of};
use crate::text::{opt_text, owned, seq_starts_with, starts_with, str_eq, trim};
use crate::toml_tree::{entry, parse_toml, render_toml, toml_parse, toml_render, TomlValue};

verus! {

/// `t` is the `[mcp_servers.famp]` table: `args = ["mcp"]`,
/// `command = <famp binary>`, `startup_timeout_sec = 10`, in key order.
pub open spec fn is_mcp_table(t: TomlValue, famp_bin: Seq<char>) -> bool {
    &&& t matches TomlValue::Table(m) && m@.len() == 3
        && m@[0].0@ == "args"@
        && (m@[0].1 matches TomlValue::Array(a) && a@.len() == 1
            && (a@[0] matches TomlValue::Str(s) && s@ == "mcp"@))
        && m@[1].0@ == "command"@
        && (m@[1].1 matches TomlValue::Str(c) && c@ == famp_bin)
        && m@[2].0@ == "startup_timeout_sec"@
        && m@[2].1 == TomlValue::Int(10)
}

/// The `[mcp_servers.famp]` table that points Codex at `famp mcp`.
pub fn codex_mcp_table(famp_bin: &str) -> (r: TomlValue)
    ensures
        is_mcp_table(r, famp_bin@),
{
    let mut args: Vec<TomlValue> = Vec::new();
    args.push(TomlValue::Str(owned("mcp")));
    let mut m: Vec<(String, TomlValue)> = Vec::new();
    m.push((owned("args"), TomlValue::Array(args)));
    m.push((owned("command"), TomlValue::Str(owned(famp_bin))));
    m.push((owned("startup_timeout_sec"), TomlValue::Int(10)));
    TomlValue::Table(m)
}

/// `r` is what writing the `[mcp_servers.famp]` table for `famp_bin` gives
/// on the text of `config.toml`.
pub open spec fn mcp_installed(existing: Option<Seq<char>>, famp_bin: Seq<char>, r: Result<(TomlMergeOutcome, Option<String>), TomlMergeError>) -> bool {
    exists|v: TomlValue| #[trigger] is_mcp_table(v, famp_bin)
        && table_upsert_result(existing, "mcp_servers"@, "famp"@, v, r)
}

/// Writes `[mcp_servers.famp]` into the text of `config.toml`.
pub fn install_codex_mcp(existing: Option<&str>, famp_bin: &str) -> (r: Result<(TomlMergeOutcome, Option<String>), TomlMergeError>)
    ensures
        mcp_installed(opt_text(existing), famp_bin@, r),
{
    let table = codex_mcp_table(famp_bin);
    let ghost gt = table;
    let r = upsert_codex_table(existing, "mcp_servers", "famp", table);
    proof {
        assert(is_mcp_table(gt, famp_bin@));
    }
    r
}

/// `t` is a trust entry: `enabled = true`, `trusted_hash = <hash>`.
pub open spec fn is_trust_table(t: TomlValue, hash: Seq<char>) -> bool {
    &&& t matches TomlValue::Table(m) && m@.len() == 2
        && m@[0].0@ == "enabled"@
        && m@[0].1 == TomlValue::Bool(true)
        && m@[1].0@ == "trusted_hash"@
        && (m@[1].1 matches TomlValue::Str(h) && h@ == hash)
}

/// The trust entry Codex reads for an approved hook.
pub fn trust_table(hash: &str) -> (r: TomlValue)
    ensures
        is_trust_table(r, hash@),
{
    let mut m: Vec<(String, TomlValue)> = Vec::new();
    m.push((owned("enabled"), TomlValue::Bool(true)));
    m.push((owned("trusted_hash"), TomlValue::Str(owned(hash))));
    TomlValue::Table(m)
}

/// `r` is what seeding trust for `hash` at `[hooks.state."<key>"]` gives on
/// the text of `config.toml`.
pub open spec fn trust_seeded(existing: Option<Seq<char>>, key: Seq<char>, hash: Seq<char>, r: Result<(TomlMergeOutcome, Option<String>), TomlMergeError>) -> bool {
    exists|v: TomlValue| #[trigger] is_trust_table(v, hash)
        && nested_upsert_result(existing, "hooks"@, "state"@, key, v, r)
}

/// Pre-seeds Codex's trust for the installed hook, so a fresh session runs
/// it without a separate approval step.
pub fn seed_codex_hook_trust(existing: Option<&str>, trust_key: &str, trusted_hash: &str) -> (r: Result<(TomlMergeOutcome, Option<String>), TomlMergeError>)
    ensures
        trust_seeded(opt_text(existing), trust_key@, trusted_hash@, r),
{
    let table = trust_table(trusted_hash);
    let ghost gt = table;
    let r = upsert_nested_codex_table(existing, "hooks", "state", trust_key, table);
    proof {
        assert(is_trust_table(gt, trusted_hash@));
    }
    r
}

/// The trust hashes of every FAMP-owned command pattern.
pub open spec fn famp_hash_set(event_label: Seq<char>, famp_bin: Seq<char>, shim: Seq<char>) -> Set<Seq<char>> {
    Set::new(|h: Seq<char>| exists|c: Seq<char>| command_patterns(famp_bin, shim).contains(c)
        && #[trigger] hook_hash(event_label, c, CODEX_AWAIT_TIMEOUT_SEC).contains(h))
}

/// `t` is the text of an element of `v`.
fn contains_text(v: &[String], t: &str) -> (r: bool)
    ensures
        r == holds_text(v@, t@),
{
    let mut i: usize = 0;
    while i < v.len()
        invariant
            i <= v@.len(),
            forall|j: int| 0 <= j < i ==> v@[j]@ != t@,
        decreases v@.len() - i,
    {
        if str_eq(v[i].as_str(), t) {
            return true;
        }
        i += 1;
    }
    false
}

/// The trust hashes of the FAMP-owned command patterns, each once.
pub fn famp_trusted_hashes(event_label: &str, famp_bin: &str, await_shim_path: &str) -> (r: Vec<String>)
    ensures
        forall|h: Seq<char>| #[trigger] holds_text(r@, h) ==> famp_hash_set(event_label@, famp_bin@, await_shim_path@).contains(h),
        forall|c: Seq<char>| command_patterns(famp_bin@, await_shim_path@).contains(c)
            ==> exists|h: Seq<char>| #[trigger] holds_text(r@, h) && hook_hash(event_label@, c, CODEX_AWAIT_TIMEOUT_SEC).contains(h),
        forall|i: int, j: int| 0 <= i < j < r@.len() ==> r@[i]@ != r@[j]@,
{
    let patterns = famp_hook_command_patterns(famp_bin, await_shim_path);
    let mut out: Vec<String> = Vec::new();
    let mut i: usize = 0;
    while i < patterns.len()
        invariant
            i <= patterns@.len(),
            forall|t: Seq<char>| #[trigger] holds_text(patterns@, t) <==> command_patterns(famp_bin@, await_shim_path@).contains(t),
            forall|h: Seq<char>| #[trigger] holds_text(out@, h) ==> famp_hash_set(event_label@, famp_bin@, await_shim_path@).contains(h),
            forall|j: int| #![trigger patterns@[j]] 0 <= j < i ==> exists|h: Seq<char>| #[trigger] holds_text(out@, h) && hook_hash(event_label@, patterns@[j]@, CODEX_AWAIT_TIMEOUT_SEC).contains(h),
            forall|a: int, b: int| 0 <= a < b < out@.len() ==> out@[a]@ != out@[b]@,
        decreases patterns@.len() - i,
    {
        let h = codex_command_hook_hash(event_label, patterns[i].as_str(), CODEX_AWAIT_TIMEOUT_SEC);
        let ghost before = out@;
        let ghost c = patterns@[i as int]@;
        proof {
            assert(holds_text(patterns@, c));
            assert(famp_hash_set(event_label@, famp_bin@, await_shim_path@).contains(h@));
        }
        if !contains_text(out.as_slice(), h.as_str()) {
            out.push(h);
            proof {
                assert forall|x: Seq<char>| #[trigger] holds_text(out@, x) implies famp_hash_set(event_label@, famp_bin@, await_shim_path@).contains(x) by {
                    let k = choose|k: int| 0 <= k < out@.len() && #[trigger] out@[k]@ == x;
                    if k < before.len() {
                        assert(before[k]@ == x);
                        assert(holds_text(before, x));
                    }
                }
                assert forall|j: int| #![trigger patterns@[j]] 0 <= j <= i implies exists|x: Seq<char>| #[trigger] holds_text(out@, x) && hook_hash(event_label@, patterns@[j]@, CODEX_AWAIT_TIMEOUT_SEC).contains(x) by {
                    if j < i {
                        let x = choose|x: Seq<char>| #[trigger] holds_text(before, x) && hook_hash(event_label@, patterns@[j]@, CODEX_AWAIT_TIMEOUT_SEC).contains(x);
                        let k = choose|k: int| 0 <= k < before.len() && #[trigger] before[k]@ == x;
                        assert(out@[k]@ == x);
                        assert(holds_text(out@, x));
                    } else {
                        assert(out@[before.len() as int]@ == h@);
                        assert(holds_text(out@, h@));
                    }
                }
            }
        } else {
            proof {
                assert(holds_text(out@, h@));
            }
        }
        i += 1;
    }
    proof {
        assert forall|c: Seq<char>| command_patterns(famp_bin@, await_shim_path@).contains(c)
            implies exists|h: Seq<char>| #[trigger] holds_text(out@, h) && hook_hash(event_label@, c, CODEX_AWAIT_TIMEOUT_SEC).contains(h) by {
            assert(holds_text(patterns@, c));
            let j = choose|j: int| 0 <= j < patterns@.len() && #[trigger] patterns@[j]@ == c;
        }
    }
    out
}

/// The key prefix of the Stop-hook trust entries of one `hooks.json`.
pub open spec fn stale_prefix(hooks_path: Seq<char>) -> Seq<char> {
    hooks_path + ":stop:"@
}

/// An entry of `[hooks.state]` that an earlier FAMP install left: its key
/// belongs to this `hooks.json`'s Stop hooks, it is not the key being kept,
/// and its `trusted_hash` is one of FAMP's own. A user's own trust entries
/// never match.
pub open spec fn stale_trust(key: Seq<char>, t: TomlValue, prefix: Seq<char>, keep: Option<Seq<char>>, hashes: Seq<String>) -> bool {
    &&& keep != Some(key)
    &&& seq_starts_with(key, prefix)
    &&& entry(t, "trusted_hash"@) matches Some(TomlValue::Str(h)) && holds_text(hashes, h@)
}

fn is_stale_trust(key: &str, t: &TomlValue, prefix: &str, keep: Option<&str>, hashes: &[String]) -> (r: bool)
    ensures
        r == stale_trust(key@, *t, prefix@, opt_text(keep), hashes@),
{
    match keep {
        Some(k) => {
            if str_eq(k, key) {
                return false;
            }
        },
        None => {},
    }
    if !starts_with(key, prefix) {
        return false;
    }
    match t.get("trusted_hash") {
        Some(TomlValue::Str(h)) => contains_text(hashes, h.as_str()),
        _ => false,
    }
}

/// The `[hooks.state]` entries of a document, when `hooks.state` is a table.
pub open spec fn state_entries(root: TomlValue) -> Option<Seq<(String, TomlValue)>> {
    match entry(root, "hooks"@) {
        Some(h) => match entry(h, "state"@) {
            Some(TomlValue::Table(m)) => Some(m@),
            _ => None,
        },
        None => None,
    }
}

/// The entries that stay.
pub open spec fn kept_trust(m: Seq<(String, TomlValue)>, prefix: Seq<char>, keep: Option<Seq<char>>, hashes: Seq<String>) -> Seq<(String, TomlValue)> {
    m.filter(|e: (String, TomlValue)| !stale_trust(e.0@, e.1, prefix, keep, hashes))
}

/// The keys of the entries that go, in order.
pub open spec fn stale_keys(m: Seq<(String, TomlValue)>, prefix: Seq<char>, keep: Option<Seq<char>>, hashes: Seq<String>) -> Seq<Seq<char>> {
    m.filter(|e: (String, TomlValue)| stale_trust(e.0@, e.1, prefix, keep, hashes)).map_values(|e: (String, TomlValue)| e.0@)
}

fn split_stale(entries: Vec<(String, TomlValue)>, prefix: &str, keep: Option<&str>, hashes: &[String]) -> (r: (Vec<(String, TomlValue)>, Vec<String>))
    ensures
        r.0@ == kept_trust(entries@, prefix@, opt_text(keep), hashes@),
        r.1@.map_values(|k: String| k@) == stale_keys(entries@, prefix@, opt_text(keep), hashes@),
{
    let ghost all = entries@;
    let ghost sp = |e: (String, TomlValue)| stale_trust(e.0@, e.1, prefix@, opt_text(keep), hashes@);
    let ghost kp = |e: (String, TomlValue)| !stale_trust(e.0@, e.1, prefix@, opt_text(keep), hashes@);
    let ghost key_of = |e: (String, TomlValue)| e.0@;
    let ghost view_of = |k: String| k@;
    let total = entries.len();
    let mut rest = entries;
    let mut kept: Vec<(String, TomlValue)> = Vec::new();
    let mut gone: Vec<String> = Vec::new();
    let mut i: usize = 0;
    while rest.len() > 0
        invariant
            total == all.len(),
            i + rest@.len() == all.len(),
            rest@ == all.skip(i as int),
            sp == (|e: (String, TomlValue)| stale_trust(e.0@, e.1, prefix@, opt_text(keep), hashes@)),
            kp == (|e: (String, TomlValue)| !stale_trust(e.0@, e.1, prefix@, opt_text(keep), hashes@)),
            key_of == (|e: (String, TomlValue)| e.0@),
            view_of == (|k: String| k@),
            kept@ == all.take(i as int).filter(kp),
            gone@.map_values(view_of) == all.take(i as int).filter(sp).map_values(key_of),
        decreases rest@.len(),
    {
        let e = rest.remove(0);
        proof {
            reveal(Seq::filter);
            assert(all.take(i as int + 1).drop_last() =~= all.take(i as int));
            assert(all[i as int] == e);
            assert(rest@ =~= all.skip(i as int + 1));
        }
        let stale = is_stale_trust(e.0.as_str(), &e.1, prefix, keep, hashes);
        if stale {
            let ghost g0 = gone@;
            let ghost f0 = all.take(i as int).filter(sp);
            let (k, _) = e;
            gone.push(k);
            proof {
                assert(all.take(i as int + 1).filter(sp) == f0.push(all[i as int]));
                assert(gone@.map_values(view_of) =~= g0.map_values(view_of).push(k@));
                assert(f0.push(all[i as int]).map_values(key_of) =~= f0.map_values(key_of).push(k@));
            }
        } else {
            kept.push(e);
        }
        i += 1;
    }
    proof {
        assert(all.take(all.len() as int) =~= all);
    }
    (kept, gone)
}

/// `new` is `old` with the stale FAMP trust entries gone from its
/// `[hooks.state]` table; every other entry, at every level, is as before.
pub open spec fn stale_pruned(old: TomlValue, new: TomlValue, prefix: Seq<char>, keep: Option<Seq<char>>, hashes: Seq<String>) -> bool {
    &&& state_entries(old) matches Some(m) && state_entries(new) == Some(kept_trust(m, prefix, keep, hashes))
    &&& new is Table
    &&& forall|k: Seq<char>| k != "hooks"@ ==> #[trigger] entry(new, k) == entry(old, k)
    &&& forall|k: Seq<char>| k != "state"@ ==> #[trigger] entry(entry(new, "hooks"@).unwrap(), k) == entry(entry(old, "hooks"@).unwrap(), k)
}

/// Removes the stale FAMP trust entries from `[hooks.state]`; returns their
/// keys, in order, and the document. A document without a `[hooks.state]`
/// table is returned as it is.
pub fn prune_stale_trust(root: TomlValue, prefix: &str, keep: Option<&str>, hashes: &[String]) -> (r: (Vec<String>, TomlValue))
    ensures
        state_entries(root) is None ==> r.0@.len() == 0 && r.1 == root,
        state_entries(root) matches Some(m) ==> r.0@.map_values(|k: String| k@) == stale_keys(m, prefix@, opt_text(keep), hashes@)
            && stale_pruned(root, r.1, prefix@, opt_text(keep), hashes@),
{
    let has_state = match root.get("hooks") {
        Some(h) => match h.get("state") {
            Some(TomlValue::Table(_)) => true,
            _ => false,
        },
        None => false,
    };
    if !has_state {
        return (Vec::new(), root);
    }
    let ghost r0 = root;
    let ghost h0 = entry(root, "hooks"@).unwrap();
    match root {
        TomlValue::Table(mut m) => {
            let ghost m0 = m@;
            proof {
                lemma_find_key_bounds(m0, "hooks"@);
            }
            let i = match position_of(&m, "hooks") {
                Some(i) => i,
                None => {
                    proof { assert(false); }
                    return (Vec::new(), TomlValue::Table(m));
                },
            };
            let (hk, hv) = m.remove(i);
            match hv {
                TomlValue::Table(mut hm) => {
                    let ghost hm0 = hm@;
                    proof {
                        lemma_find_key_bounds(hm0, "state"@);
                    }
                    let j = match position_of(&hm, "state") {
                        Some(j) => j,
                        None => {
                            proof { assert(false); }
                            return (Vec::new(), TomlValue::Table(hm));
                        },
                    };
                    let (sk, sv) = hm.remove(j);
                    match sv {
                        TomlValue::Table(sm) => {
                            let (kept, gone) = split_stale(sm, prefix, keep, hashes);
                            let ghost gk = kept;
                            let ghost skk = sk;
                            hm.insert(j, (sk, TomlValue::Table(kept)));
                            let ghost nh = TomlValue::Table(hm);
                            let ghost hkk = hk;
                            m.insert(i, (hk, TomlValue::Table(hm)));
                            proof {
                                assert(hm@ =~= hm0.update(j as int, (skk, TomlValue::Table(gk))));
                                assert(m@ =~= m0.update(i as int, (hkk, nh)));
                                lemma_find_key_update(m0, i as int, (hkk, nh), "hooks"@);
                                lemma_find_key_update(hm0, j as int, (skk, TomlValue::Table(gk)), "state"@);
                                assert forall|k: Seq<char>| k != "hooks"@ implies #[trigger] entry(TomlValue::Table(m), k) == entry(r0, k) by {
                                    lemma_find_key_update(m0, i as int, (hkk, nh), k);
                                    lemma_find_key_bounds(m0, k);
                                }
                                assert forall|k: Seq<char>| k != "state"@ implies #[trigger] entry(nh, k) == entry(h0, k) by {
                                    lemma_find_key_update(hm0, j as int, (skk, TomlValue::Table(gk)), k);
                                    lemma_find_key_bounds(hm0, k);
                                }
                            }
                            (gone, TomlValue::Table(m))
                        },
                        _ => {
                            proof { assert(false); }
                            (Vec::new(), TomlValue::Table(hm))
                        },
                    }
                },
                _ => {
                    proof { assert(false); }
                    (Vec::new(), TomlValue::Table(m))
                },
            }
        },
        _ => {
            proof { assert(false); }
            (Vec::new(), TomlValue::Bool(false))
        },
    }
}

/// Pruning keeps every `[hooks.state]` entry that is not a stale FAMP trust
/// entry (the key being kept, a user's own entries, the entries of other
/// hooks files, entries with another hash), and keeps none that is; so a
/// second pruning removes nothing.
pub proof fn law_prune_spares_user_trust(m: Seq<(String, TomlValue)>, prefix: Seq<char>, keep: Option<Seq<char>>, hashes: Seq<String>)
    ensures
        forall|i: int| 0 <= i < m.len() && !stale_trust(m[i].0@, m[i].1, prefix, keep, hashes)
            ==> #[trigger] kept_trust(m, prefix, keep, hashes).contains(m[i]),
        forall|i: int| 0 <= i < kept_trust(m, prefix, keep, hashes).len()
            ==> !stale_trust(#[trigger] kept_trust(m, prefix, keep, hashes)[i].0@, kept_trust(m, prefix, keep, hashes)[i].1, prefix, keep, hashes),
        stale_keys(kept_trust(m, prefix, keep, hashes), prefix, keep, hashes).len() == 0,
{
    broadcast use vstd::seq_lib::group_filter_ensures;
    let kp = |e: (String, TomlValue)| !stale_trust(e.0@, e.1, prefix, keep, hashes);
    let sp = |e: (String, TomlValue)| stale_trust(e.0@, e.1, prefix, keep, hashes);
    let k = m.filter(kp);
    assert forall|i: int| 0 <= i < m.len() && !stale_trust(m[i].0@, m[i].1, prefix, keep, hashes)
        implies #[trigger] kept_trust(m, prefix, keep, hashes).contains(m[i]) by {
        assert(kp(m[i]));
        m.lemma_filter_contains(kp, i);
    }
    assert forall|i: int| 0 <= i < k.len() implies !stale_trust(#[trigger] k[i].0@, k[i].1, prefix, keep, hashes) by {
        m.lemma_filter_pred(kp, i);
    }
    assert(k.all(|x: (String, TomlValue)| !sp(x)));
    k.lemma_all_neg_filter_empty(sp);
}

/// What pruning stale FAMP trust gives on the text of `config.toml`
/// (`None`: no file): the removed keys, and the text to write or `None`
/// when nothing was removed.
pub open spec fn stale_trust_result(existing: Option<Seq<char>>, prefix: Seq<char>, keep: Option<Seq<char>>, hashes: Seq<String>, r: Result<(Vec<String>, Option<String>), TomlMergeError>) -> bool {
    &&& (existing is None || (existing matches Some(s) && blank(s))) ==> (r matches Ok((ks, None)) && ks@.len() == 0)
    &&& existing matches Some(s) ==> (!blank(s) ==> match toml_parse(s) {
        None => r matches Err(TomlMergeError::Parse),
        Some(root) => match state_entries(root) {
            None => r matches Ok((ks, None)) && ks@.len() == 0,
            Some(m) => {
                let gone = stale_keys(m, prefix, keep, hashes);
                &&& gone.len() == 0 ==> (r matches Ok((ks, None)) && ks@.len() == 0)
                &&& gone.len() > 0 ==> match r {
                    Ok((ks, t)) => ks@.map_values(|k: String| k@) == gone
                        && (t matches Some(txt) && exists|doc: TomlValue| stale_pruned(root, doc, prefix, keep, hashes)
                            && #[trigger] toml_render(doc) == Some(txt@)),
                    Err(e) => e is Serialize && exists|doc: TomlValue| stale_pruned(root, doc, prefix, keep, hashes)
                        && #[trigger] toml_render(doc) is None,
                }
            },
        },
    })
}

/// Prunes the trust entries that an earlier FAMP install left for the Stop
/// hooks of `hooks_path`, keeping `keep_key` and every entry whose hash is
/// not one of `trusted_hashes`.
pub fn remove_stale_codex_hook_trust(existing: Option<&str>, hooks_path: &str, keep_key: Option<&str>, trusted_hashes: &[String]) -> (r: Result<(Vec<String>, Option<String>), TomlMergeError>)
    ensures
        stale_trust_result(opt_text(existing), stale_prefix(hooks_path@), opt_text(keep_key), trusted_hashes@, r),
{
    let s = match existing {
        None => return Ok((Vec::new(), None)),
        Some(s) => s,
    };
    if trim(s).as_str().is_empty() {
        return Ok((Vec::new(), None));
    }
    let root = match parse_toml(s) {
        Some(root) => root,
        None => return Err(TomlMergeError::Parse),
    };
    let ghost groot = root;
    let mut prefix = owned(hooks_path);
    prefix.append(":stop:");
    let (gone, doc) = prune_stale_trust(root, prefix.as_str(), keep_key, trusted_hashes);
    if gone.len() == 0 {
        proof {
            if state_entries(groot) is Some {
                assert(gone@.map_values(|k: String| k@).len() == 0);
            }
        }
        return Ok((gone, None));
    }
    proof {
        assert(gone@.map_values(|k: String| k@).len() > 0);
    }
    match render_toml(&doc) {
        Some(t) => Ok((gone, Some(t))),
        None => Err(TomlMergeError::Serialize),
    }
}

} // verus!
