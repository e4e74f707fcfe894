//! Recognizing and removing FAMP-owned Stop-hook entries.

use vstd::prelude::*;
use crate::install::json_merge::{lookup2, JsonMergeError};
use crate::json::{array_of, json_parse, member, parse_json, str_of, JsonValue};
use crate::members::{with_member, lemma_find_key_absent, lemma_find_key_at, lemma_find_key_bounds, lemma_find_key_update, lemma_with_member, position_of, set_member, take_member};
use crate::text::{opt_text, owned, trim, trim_ws, push_char, seq_starts_with, split_whitespace, starts_with, str_eq, trim_by, trim_quotes, words, TrimClass};

verus! {

/// `s` with leading and trailing `'` / `"` characters removed.
pub open spec fn unquote(s: Seq<char>) -> Seq<char> {
    trim_by(s, TrimClass::Quotes)
}

/// `t` is one of the FAMP-owned paths.
pub open spec fn is_shim(t: Seq<char>, shims: Seq<String>) -> bool {
    exists|i: int| 0 <= i < shims.len() && #[trigger] shims[i]@ == t
}

/// `command` is `shim`, or `shim` in quotes, or `shim` followed by arguments.
pub open spec fn direct_match(command: Seq<char>, shim: Seq<char>) -> bool {
    command == shim || unquote(command) == shim || seq_starts_with(command, shim.push(' '))
}

/// Tokens `j` and `j + 1` of `ws` are `hook codex-stop` (quotes stripped).
pub open spec fn hook_pair(ws: Seq<Seq<char>>, j: int) -> bool {
    0 <= j && j + 1 < ws.len() && unquote(ws[j]) == "hook"@ && unquote(ws[j + 1]) == "codex-stop"@
}

/// `command` invokes a FAMP-owned hook: it matches a shim directly, one of
/// its whitespace-separated tokens is a shim path, or it runs the native
/// `hook codex-stop` helper from any location.
pub open spec fn famp_command(command: Seq<char>, shims: Seq<String>) -> bool {
    ||| exists|i: int| 0 <= i < shims.len() && #[trigger] direct_match(command, shims[i]@)
    ||| exists|j: int| 0 <= j < words(command).len() && is_shim(unquote(#[trigger] words(command)[j]), shims)
    ||| exists|j: int| #[trigger] hook_pair(words(command), j)
}

fn matches_any_shim(token: &str, shims: &[String]) -> (r: bool)
    ensures
        r == is_shim(token@, shims@),
{
    let mut i: usize = 0;
    while i < shims.len()
        invariant
            i <= shims@.len(),
            forall|k: int| 0 <= k < i ==> shims@[k]@ != token@,
        decreases shims@.len() - i,
    {
        if str_eq(token, shims[i].as_str()) {
            return true;
        }
        i += 1;
    }
    false
}

/// Returns `true` when `command` is a FAMP-owned hook invocation.
pub fn is_famp_command(command: &str, shims: &[String]) -> (r: bool)
    ensures
        r == famp_command(command@, shims@),
{
    let trimmed = trim_quotes(command);
    let mut i: usize = 0;
    while i < shims.len()
        invariant
            i <= shims@.len(),
            trimmed@ == unquote(command@),
            forall|k: int| 0 <= k < i ==> !direct_match(command@, #[trigger] shims@[k]@),
        decreases shims@.len() - i,
    {
        let shim = &shims[i];
        let mut prefix = shim.clone();
        push_char(&mut prefix, ' ');
        if str_eq(command, shim.as_str()) || str_eq(trimmed.as_str(), shim.as_str())
            || starts_with(command, prefix.as_str()) {
            assert(direct_match(command@, shims@[i as int]@));
            return true;
        }
        i += 1;
    }
    let ws = split_whitespace(command);
    let mut tokens: Vec<String> = Vec::new();
    let mut j: usize = 0;
    while j < ws.len()
        invariant
            j <= ws@.len(),
            ws@.len() == words(command@).len(),
            forall|k: int| 0 <= k < ws@.len() ==> #[trigger] ws@[k]@ == words(command@)[k],
            tokens@.len() == j,
            forall|k: int| 0 <= k < j ==> #[trigger] tokens@[k]@ == unquote(words(command@)[k]),
            forall|k: int| 0 <= k < j ==> !is_shim(unquote(#[trigger] words(command@)[k]), shims@),
        decreases ws@.len() - j,
    {
        let t = trim_quotes(ws[j].as_str());
        if matches_any_shim(t.as_str(), shims) {
            assert(ws@[j as int]@ == words(command@)[j as int]);
            return true;
        }
        tokens.push(t);
        j += 1;
    }
    let mut j: usize = 0;
    while j < tokens.len() && j + 1 < tokens.len()
        invariant
            tokens@.len() == words(command@).len(),
            forall|k: int| 0 <= k < tokens@.len() ==> #[trigger] tokens@[k]@ == unquote(words(command@)[k]),
            forall|k: int| 0 <= k < j ==> !hook_pair(words(command@), k),
        decreases tokens@.len() - j,
    {
        if str_eq(tokens[j].as_str(), "hook") && str_eq(tokens[j + 1].as_str(), "codex-stop") {
            assert(hook_pair(words(command@), j as int));
            return true;
        }
        j += 1;
    }
    proof {
        assert forall|k: int| !(#[trigger] hook_pair(words(command@), k)) by {
            if 0 <= k < j {
            } else if hook_pair(words(command@), k) {
                assert(tokens@[k]@ == unquote(words(command@)[k]));
                assert(tokens@[k + 1]@ == unquote(words(command@)[k + 1]));
            }
        }
    }
    false
}

/// The hook's `command` is a FAMP-owned invocation.
pub open spec fn owned_hook(h: JsonValue, shims: Seq<String>) -> bool {
    match str_of(member(h, "command"@)) {
        Some(c) => famp_command(c, shims),
        None => false,
    }
}

fn is_owned_hook(h: &JsonValue, shims: &[String]) -> (r: bool)
    ensures
        r == owned_hook(*h, shims@),
{
    match h.get("command") {
        Some(c) => match c.as_str() {
            Some(s) => is_famp_command(s.as_str(), shims),
            None => false,
        },
        None => false,
    }
}

/// The hooks of a Stop entry that are not FAMP-owned, in order.
pub open spec fn kept_hooks(hs: Seq<JsonValue>, shims: Seq<String>) -> Seq<JsonValue> {
    hs.filter(|h: JsonValue| !owned_hook(h, shims))
}

fn count_kept(hs: &Vec<JsonValue>, shims: &[String]) -> (n: usize)
    ensures
        n == kept_hooks(hs@, shims@).len(),
{
    let ghost pred = |h: JsonValue| !owned_hook(h, shims@);
    let mut n: usize = 0;
    let mut i: usize = 0;
    while i < hs.len()
        invariant
            i <= hs@.len(),
            pred == (|h: JsonValue| !owned_hook(h, shims@)),
            n == hs@.take(i as int).filter(pred).len(),
            n <= i,
        decreases hs@.len() - i,
    {
        proof {
            reveal(Seq::filter);
            assert(hs@.take(i as int + 1).drop_last() =~= hs@.take(i as int));
        }
        if !is_owned_hook(&hs[i], shims) {
            n += 1;
        }
        i += 1;
    }
    proof {
        assert(hs@.take(hs@.len() as int) =~= hs@);
    }
    n
}

fn keep_unowned(hs: Vec<JsonValue>, shims: &[String]) -> (r: Vec<JsonValue>)
    ensures
        r@ == kept_hooks(hs@, shims@),
{
    let ghost all = hs@;
    let ghost pred = |h: JsonValue| !owned_hook(h, shims@);
    let mut rest = hs;
    let mut out: Vec<JsonValue> = Vec::new();
    let total = rest.len();
    let mut i: usize = 0;
    while rest.len() > 0
        invariant
            total == all.len(),
            i + rest@.len() == all.len(),
            rest@ == all.skip(i as int),
            pred == (|h: JsonValue| !owned_hook(h, shims@)),
            out@ == all.take(i as int).filter(pred),
        decreases rest@.len(),
    {
        let h = rest.remove(0);
        proof {
            reveal(Seq::filter);
            assert(all.take(i as int + 1).drop_last() =~= all.take(i as int));
            assert(all[i as int] == h);
            assert(rest@ =~= all.skip(i as int + 1));
        }
        if !is_owned_hook(&h, shims) {
            out.push(h);
        }
        i += 1;
    }
    proof {
        assert(all.take(all.len() as int) =~= all);
    }
    out
}

/// `r` is what removing FAMP-owned commands from the Stop-array element
/// `entry` leaves of it (`None`: the element is dropped).
pub open spec fn stop_entry_result(entry: JsonValue, shims: Seq<String>, r: Option<JsonValue>) -> bool {
    &&& owned_hook(entry, shims) ==> r is None
    &&& !owned_hook(entry, shims) ==> match array_of(member(entry, "hooks"@)) {
        None => r == Some(entry),
        Some(hs) => {
            let kept = kept_hooks(hs, shims);
            &&& (kept.len() == hs.len() ==> r == Some(entry))
            &&& (kept.len() == 0 < hs.len() ==> r is None)
            &&& (0 < kept.len() < hs.len() ==> (r matches Some(e) && (match member(e, "hooks"@) {
                    Some(JsonValue::Array(ys)) => ys@ == kept,
                    _ => false,
                }) && forall|k: Seq<char>| k != "hooks"@ ==> #[trigger] member(e, k) == member(entry, k)))
        },
    }
}

/// The values present in `s`, in order.
pub open spec fn somes(s: Seq<Option<JsonValue>>) -> Seq<JsonValue>
    decreases s.len(),
{
    if s.len() == 0 {
        Seq::empty()
    } else {
        match s.last() {
            Some(x) => somes(s.drop_last()).push(x),
            None => somes(s.drop_last()),
        }
    }
}

/// `pruned` is `prior` with FAMP-owned commands removed element by element.
pub open spec fn pruned_stop_array(prior: Seq<JsonValue>, shims: Seq<String>, pruned: Seq<JsonValue>) -> bool {
    exists|outs: Seq<Option<JsonValue>>| outs.len() == prior.len()
        && (forall|i: int| 0 <= i < prior.len() ==> #[trigger] stop_entry_result(prior[i], shims, outs[i]))
        && pruned == somes(outs)
}

/// Removes FAMP-owned commands from one element of a Stop-hook array.
///
/// `None` (drop the element) when the element is itself a FAMP command, or
/// when filtering empties its non-empty inner `hooks` array. The element is
/// kept unchanged when nothing in it is FAMP-owned; otherwise its `hooks`
/// array is replaced by the hooks that remain.
pub fn remove_famp_hook_from_stop_entry(entry: JsonValue, shims: &[String]) -> (r: Option<JsonValue>)
    ensures
        stop_entry_result(entry, shims@, r),
{
    if is_owned_hook(&entry, shims) {
        return None;
    }
    let (total, n) = match entry.get("hooks") {
        Some(h) => match h.as_array() {
            Some(a) => (a.len(), count_kept(a, shims)),
            None => return Some(entry),
        },
        None => return Some(entry),
    };
    if n == total {
        return Some(entry);
    }
    if n == 0 {
        return None;
    }
    let ghost e0 = entry;
    match entry {
        JsonValue::Object(mut m) => {
            let ghost m0 = m@;
            match position_of(&m, "hooks") {
                Some(i) => {
                    proof {
                        lemma_find_key_bounds(m0, "hooks"@);
                    }
                    let (key, v) = m.remove(i);
                    match v {
                        JsonValue::Array(hs) => {
                            let kept = keep_unowned(hs, shims);
                            let ghost nv = JsonValue::Array(kept);
                            m.insert(i, (key, JsonValue::Array(kept)));
                            proof {
                                assert(m@ =~= m0.update(i as int, (key, nv)));
                                assert forall|k: Seq<char>| k != "hooks"@ implies #[trigger] member(JsonValue::Object(m), k) == member(e0, k) by {
                                    lemma_find_key_update(m0, i as int, (key, nv), k);
                                    lemma_find_key_bounds(m0, k);
                                }
                                lemma_find_key_update(m0, i as int, (key, nv), "hooks"@);
                            }
                            Some(JsonValue::Object(m))
                        },
                        _ => None,
                    }
                },
                None => None,
            }
        },
        _ => None,
    }
}


/// A filter keeps a sequence whose every element passes.
proof fn lemma_filter_keeps_passing<A>(s: Seq<A>, p: spec_fn(A) -> bool)
    requires
        forall|i: int| 0 <= i < s.len() ==> p(#[trigger] s[i]),
    ensures
        s.filter(p) == s,
    decreases s.len(),
{
    reveal(Seq::filter);
    if s.len() > 0 {
        lemma_filter_keeps_passing(s.drop_last(), p);
        assert(s.drop_last().push(s.last()) =~= s);
    }
}

/// Filtering out FAMP-owned hooks a second time removes nothing more.
proof fn lemma_kept_hooks_idempotent(hs: Seq<JsonValue>, shims: Seq<String>)
    ensures
        kept_hooks(kept_hooks(hs, shims), shims) == kept_hooks(hs, shims),
{
    let p = |h: JsonValue| !owned_hook(h, shims);
    let k = hs.filter(p);
    assert forall|i: int| 0 <= i < k.len() implies p(#[trigger] k[i]) by {
        hs.lemma_filter_pred(p, i);
    }
    lemma_filter_keeps_passing(k, p);
}

/// An element that pruning kept comes through a second pruning unchanged.
proof fn lemma_pruned_element_is_stable(entry: JsonValue, shims: Seq<String>, e2: JsonValue, r: Option<JsonValue>)
    requires
        stop_entry_result(entry, shims, Some(e2)),
        stop_entry_result(e2, shims, r),
    ensures
        r == Some(e2),
{
    reveal_strlit("command");
    reveal_strlit("hooks");
    assert("command"@[0] != "hooks"@[0]);
    match array_of(member(entry, "hooks"@)) {
        None => {},
        Some(hs) => {
            let kept = kept_hooks(hs, shims);
            if 0 < kept.len() < hs.len() {
                assert(member(e2, "command"@) == member(entry, "command"@));
                assert(array_of(member(e2, "hooks"@)) == Some(kept));
                lemma_kept_hooks_idempotent(hs, shims);
            }
        },
    }
}

/// Every value in `somes(outs)` is present in `outs`.
proof fn lemma_somes_origin(outs: Seq<Option<JsonValue>>, j: int)
    requires
        0 <= j < somes(outs).len(),
    ensures
        exists|k: int| 0 <= k < outs.len() && outs[k] == Some(#[trigger] somes(outs)[j]),
    decreases outs.len(),
{
    let rest = outs.drop_last();
    match outs.last() {
        Some(x) => {
            if j == somes(rest).len() {
                assert(outs[outs.len() - 1] == Some(somes(outs)[j]));
            } else {
                lemma_somes_origin(rest, j);
                let k = choose|k: int| 0 <= k < rest.len() && rest[k] == Some(#[trigger] somes(rest)[j]);
                assert(outs[k] == rest[k]);
            }
        },
        None => {
            lemma_somes_origin(rest, j);
            let k = choose|k: int| 0 <= k < rest.len() && rest[k] == Some(#[trigger] somes(rest)[j]);
            assert(outs[k] == rest[k]);
        },
    }
}

/// A sequence of values all present gives back the values.
proof fn lemma_somes_of_all(p: Seq<JsonValue>)
    ensures
        somes(Seq::new(p.len(), |i: int| Some(p[i]))) == p,
    decreases p.len(),
{
    let outs = Seq::new(p.len(), |i: int| Some(p[i]));
    if p.len() > 0 {
        lemma_somes_of_all(p.drop_last());
        assert(outs.drop_last() =~= Seq::new(p.drop_last().len(), |i: int| Some(p.drop_last()[i])));
        assert(p.drop_last().push(p.last()) =~= p);
    }
}

/// Pruning is idempotent: every element of a pruned Stop array comes
/// through a second pruning unchanged, so a reinstall that prunes again
/// leaves the user's entries exactly as they were.
pub proof fn law_pruning_is_idempotent(prior: Seq<JsonValue>, shims: Seq<String>, p: Seq<JsonValue>)
    requires
        pruned_stop_array(prior, shims, p),
    ensures
        forall|i: int, r: Option<JsonValue>| 0 <= i < p.len() && #[trigger] stop_entry_result(p[i], shims, r) ==> r == Some(p[i]),
        pruned_stop_array(p, shims, p),
{
    let outs = choose|outs: Seq<Option<JsonValue>>| outs.len() == prior.len()
        && (forall|i: int| 0 <= i < prior.len() ==> #[trigger] stop_entry_result(prior[i], shims, outs[i]))
        && p == somes(outs);
    assert forall|i: int, r: Option<JsonValue>| 0 <= i < p.len() && #[trigger] stop_entry_result(p[i], shims, r) implies r == Some(p[i]) by {
        lemma_somes_origin(outs, i);
        let k = choose|k: int| 0 <= k < outs.len() && outs[k] == Some(#[trigger] somes(outs)[i]);
        assert(stop_entry_result(prior[k], shims, outs[k]));
        lemma_pruned_element_is_stable(prior[k], shims, p[i], r);
    }
    let outs2 = Seq::new(p.len(), |i: int| Some(p[i]));
    lemma_somes_of_all(p);
    assert forall|i: int| 0 <= i < p.len() implies #[trigger] stop_entry_result(p[i], shims, outs2[i]) by {
        lemma_somes_origin(outs, i);
        let k = choose|k: int| 0 <= k < outs.len() && outs[k] == Some(#[trigger] somes(outs)[i]);
        assert(stop_entry_result(prior[k], shims, outs[k]));
        lemma_pruned_entry_passes(prior[k], shims, p[i]);
    }
}

/// An element that pruning kept passes a second pruning as itself.
proof fn lemma_pruned_entry_passes(entry: JsonValue, shims: Seq<String>, e2: JsonValue)
    requires
        stop_entry_result(entry, shims, Some(e2)),
    ensures
        stop_entry_result(e2, shims, Some(e2)),
{
    reveal_strlit("command");
    reveal_strlit("hooks");
    assert("command"@[0] != "hooks"@[0]);
    match array_of(member(entry, "hooks"@)) {
        None => {},
        Some(hs) => {
            let kept = kept_hooks(hs, shims);
            if 0 < kept.len() < hs.len() {
                assert(member(e2, "command"@) == member(entry, "command"@));
                assert(array_of(member(e2, "hooks"@)) == Some(kept));
                lemma_kept_hooks_idempotent(hs, shims);
            }
        },
    }
}

/// No FAMP-owned command is left in `e`: neither the element itself nor
/// any hook of its `hooks` array.
pub open spec fn famp_free(e: JsonValue, shims: Seq<String>) -> bool {
    &&& !owned_hook(e, shims)
    &&& array_of(member(e, "hooks"@)) matches Some(hs) ==> forall|i: int| 0 <= i < hs.len() ==> !owned_hook(#[trigger] hs[i], shims)
}

/// A filter that keeps as many elements as it was given kept all of them.
proof fn lemma_filter_full_length<A>(s: Seq<A>, p: spec_fn(A) -> bool)
    requires
        s.filter(p).len() == s.len(),
    ensures
        forall|i: int| 0 <= i < s.len() ==> p(#[trigger] s[i]),
    decreases s.len(),
{
    reveal(Seq::filter);
    if s.len() > 0 {
        let d = s.drop_last();
        d.lemma_filter_len(p);
        if p(s.last()) {
            lemma_filter_full_length(d, p);
            assert forall|i: int| 0 <= i < s.len() implies p(#[trigger] s[i]) by {
                if i < d.len() {
                    assert(s[i] == d[i]);
                }
            }
        }
    }
}

/// Every element a pruning keeps is free of FAMP-owned commands, so after
/// a (re)install the entry just appended is the only FAMP one.
pub proof fn law_pruned_entries_are_famp_free(prior: Seq<JsonValue>, shims: Seq<String>, p: Seq<JsonValue>)
    requires
        pruned_stop_array(prior, shims, p),
    ensures
        forall|i: int| 0 <= i < p.len() ==> famp_free(#[trigger] p[i], shims),
{
    law_pruning_is_idempotent(prior, shims, p);
    assert forall|i: int| 0 <= i < p.len() implies famp_free(#[trigger] p[i], shims) by {
        let e = p[i];
        let outs = choose|outs: Seq<Option<JsonValue>>| outs.len() == p.len()
            && (forall|k: int| 0 <= k < p.len() ==> #[trigger] stop_entry_result(p[k], shims, outs[k]))
            && p == somes(outs);
        lemma_somes_origin(outs, i);
        let k = choose|k: int| 0 <= k < outs.len() && outs[k] == Some(#[trigger] somes(outs)[i]);
        assert(stop_entry_result(p[k], shims, outs[k]));
        assert(outs[k] == Some(p[k]));
        assert(p[k] == p[i]);
        assert(stop_entry_result(e, shims, Some(e)));
        if let Some(hs) = array_of(member(e, "hooks"@)) {
            let pred = |h: JsonValue| !owned_hook(h, shims);
            lemma_filter_full_length(hs, pred);
            assert forall|j: int| 0 <= j < hs.len() implies !owned_hook(#[trigger] hs[j], shims) by {
                assert(pred(hs[j]));
            }
        }
    }
}

/// A command whose whitespace-separated tokens (quotes stripped) hold
/// `hook` immediately followed by `codex-stop` is FAMP-owned, wherever the
/// binary lives and whatever the shims are; a pruned Stop array keeps no
/// hook that runs such a command.
pub proof fn law_native_helper_is_famp_owned_anywhere(command: Seq<char>, shims: Seq<String>, j: int, prior: Seq<JsonValue>, p: Seq<JsonValue>)
    requires
        0 <= j,
        j + 1 < words(command).len(),
        unquote(words(command)[j]) == "hook"@,
        unquote(words(command)[j + 1]) == "codex-stop"@,
        pruned_stop_array(prior, shims, p),
    ensures
        famp_command(command, shims),
        forall|i: int| 0 <= i < p.len() ==> match array_of(member(#[trigger] p[i], "hooks"@)) {
            Some(hs) => forall|k: int| 0 <= k < hs.len() ==> str_of(member(#[trigger] hs[k], "command"@)) != Some(command),
            None => true,
        },
{
    assert(hook_pair(words(command), j));
    law_pruned_entries_are_famp_free(prior, shims, p);
    assert forall|i: int| 0 <= i < p.len() implies match array_of(member(#[trigger] p[i], "hooks"@)) {
        Some(hs) => forall|k: int| 0 <= k < hs.len() ==> str_of(member(#[trigger] hs[k], "command"@)) != Some(command),
        None => true,
    } by {
        assert(famp_free(p[i], shims));
        match array_of(member(p[i], "hooks"@)) {
            Some(hs) => {
                assert forall|k: int| 0 <= k < hs.len() implies str_of(member(#[trigger] hs[k], "command"@)) != Some(command) by {
                    assert(!owned_hook(hs[k], shims));
                }
            },
            None => {},
        }
    }
}

/// Removes FAMP-owned commands from every element of a Stop-hook array,
/// dropping the elements that become empty.
pub fn prune_stop_entries(prior: Vec<JsonValue>, shims: &[String]) -> (r: Vec<JsonValue>)
    ensures
        pruned_stop_array(prior@, shims@, r@),
{
    let ghost all = prior@;
    let total = prior.len();
    let mut rest = prior;
    let mut out: Vec<JsonValue> = Vec::new();
    let ghost mut outs: Seq<Option<JsonValue>> = Seq::empty();
    let mut i: usize = 0;
    while rest.len() > 0
        invariant
            total == all.len(),
            i + rest@.len() == all.len(),
            rest@ == all.skip(i as int),
            outs.len() == i,
            forall|k: int| 0 <= k < i ==> #[trigger] stop_entry_result(all[k], shims@, outs[k]),
            out@ == somes(outs),
        decreases rest@.len(),
    {
        let e = rest.remove(0);
        proof {
            assert(all[i as int] == e);
            assert(rest@ =~= all.skip(i as int + 1));
        }
        let res = remove_famp_hook_from_stop_entry(e, shims);
        proof {
            let prev = outs;
            outs = outs.push(res);
            assert(outs.drop_last() =~= prev);
        }
        match res {
            Some(x) => out.push(x),
            None => {},
        }
        i += 1;
    }
    proof {
        assert(outs.len() == all.len());
    }
    out
}

/// `root.hooks.Stop` as an array (empty when absent or not an array).
pub open spec fn stop_entries_of(root: JsonValue) -> Seq<JsonValue> {
    match lookup2(root, "hooks"@, "Stop"@) {
        Some(JsonValue::Array(a)) => a@,
        _ => Seq::empty(),
    }
}

/// Takes `root.hooks.Stop` out of a document.
pub fn take_stop_entries(root: JsonValue) -> (r: Vec<JsonValue>)
    ensures
        r@ == stop_entries_of(root),
{
    match root {
        JsonValue::Object(mut m) => match take_member(&mut m, "hooks") {
            Some(JsonValue::Object(mut h)) => match take_member(&mut h, "Stop") {
                Some(JsonValue::Array(a)) => a,
                _ => Vec::new(),
            },
            _ => Vec::new(),
        },
        _ => Vec::new(),
    }
}

/// The Stop-hook array of a settings file's text (`None`: no file; blank:
/// empty document). `Err(Parse)` when the text is not JSON.
pub open spec fn prior_stop_entries(existing: Option<Seq<char>>) -> Option<Seq<JsonValue>> {
    match existing {
        None => Some(Seq::empty()),
        Some(s) => if trim_ws(s).len() == 0 {
            Some(Seq::empty())
        } else {
            match json_parse(s) {
                Some(root) => Some(stop_entries_of(root)),
                None => None,
            }
        },
    }
}

/// Reads the Stop-hook array out of a settings file's text.
pub fn read_stop_entries(existing: Option<&str>) -> (r: Result<Vec<JsonValue>, JsonMergeError>)
    ensures
        match prior_stop_entries(opt_text(existing)) {
            Some(p) => r matches Ok(v) && v@ == p,
            None => r matches Err(JsonMergeError::Parse),
        },
{
    match existing {
        None => Ok(Vec::new()),
        Some(s) => {
            if trim(s).as_str().is_empty() {
                return Ok(Vec::new());
            }
            match parse_json(s) {
                Some(root) => Ok(take_stop_entries(root)),
                None => Err(JsonMergeError::Parse),
            }
        },
    }
}


/// `h` is a command hook running `command` with the given timeout: exactly
/// the members `command`, `timeout` and `type`.
pub open spec fn is_command_hook(h: JsonValue, command: Seq<char>, timeout: u64) -> bool {
    &&& h matches JsonValue::Object(m) && m@.len() == 3
    &&& str_of(member(h, "command"@)) == Some(command)
    &&& member(h, "timeout"@) == Some(JsonValue::UInt(timeout))
    &&& str_of(member(h, "type"@)) == Some("command"@)
}

/// `e` is a Stop-array element holding exactly one command hook, with an
/// empty `matcher` when `matcher` holds and none otherwise; no other
/// member.
pub open spec fn is_stop_group(e: JsonValue, command: Seq<char>, timeout: u64, matcher: bool) -> bool {
    &&& e matches JsonValue::Object(m) && m@.len() == (if matcher { 2int } else { 1int })
    &&& array_of(member(e, "hooks"@)) matches Some(hs) && hs.len() == 1 && is_command_hook(hs[0], command, timeout)
    &&& if matcher { str_of(member(e, "matcher"@)) == Some(Seq::<char>::empty()) } else { member(e, "matcher"@) is None }
}

/// `{"command": command, "timeout": timeout, "type": "command"}`.
pub fn command_hook(command: &str, timeout: u64) -> (r: JsonValue)
    ensures
        is_command_hook(r, command@, timeout),
{
    let mut m: Vec<(String, JsonValue)> = Vec::new();
    m.push((owned("command"), JsonValue::Str(owned(command))));
    m.push((owned("timeout"), JsonValue::UInt(timeout)));
    m.push((owned("type"), JsonValue::Str(owned("command"))));
    proof {
        reveal_strlit("command");
        reveal_strlit("timeout");
        reveal_strlit("type");
        assert("command"@[0] != "timeout"@[0]);
        assert("command"@[0] != "type"@[0]);
        assert("timeout"@[1] != "type"@[1]);
        lemma_find_key_at(m@, 0, "command"@);
        lemma_find_key_at(m@, 1, "timeout"@);
        lemma_find_key_at(m@, 2, "type"@);
    }
    JsonValue::Object(m)
}

/// A Stop-array element holding the single hook `hook`, with an empty
/// `matcher` when `matcher` holds; no other member.
pub fn stop_group(hook: JsonValue, matcher: bool) -> (r: JsonValue)
    ensures
        array_of(member(r, "hooks"@)) == Some(seq![hook]),
        r matches JsonValue::Object(m) && m@.len() == (if matcher { 2int } else { 1int }),
        if matcher { str_of(member(r, "matcher"@)) == Some(Seq::<char>::empty()) } else { member(r, "matcher"@) is None },
{
    let mut hs: Vec<JsonValue> = Vec::new();
    hs.push(hook);
    proof {
        assert(hs@ =~= seq![hook]);
        reveal_strlit("hooks");
        reveal_strlit("matcher");
        assert("hooks"@[0] != "matcher"@[0]);
    }
    let mut m: Vec<(String, JsonValue)> = Vec::new();
    m.push((owned("hooks"), JsonValue::Array(hs)));
    if matcher {
        m.push((owned("matcher"), JsonValue::Str(String::new())));
        proof {
            lemma_find_key_at(m@, 1, "matcher"@);
        }
    } else {
        proof {
            lemma_find_key_absent(m@, "matcher"@);
        }
    }
    proof {
        lemma_find_key_at(m@, 0, "hooks"@);
    }
    JsonValue::Object(m)
}

} // verus!
