//! Listen-state replay over a ClaudeCode transcript or a Codex rollout.
//!
//! Scans the JSONL tail of a transcript and replays the successful
//! `famp_register` / `famp_set_listen` control actions found in it.

use vstd::prelude::*;
use crate::json::{json_parse, member, parse_json, str_of, JsonValue};
use crate::text::{after_first_newline, decimal, ends_with, lines, lowercase, owned, replace_char, replace_char_with, seq_contains, seq_ends_with, split_lines, str_eq, to_lowercase, u64_to_decimal, contains, drop_through_first_newline};

verus! {

/// How many trailing bytes of a transcript are scanned.
pub const MAX_BYTES: u64 = 2_000_000;

/// The file offset at which the scanned tail of a `size`-byte transcript starts.
pub fn tail_offset(size: u64) -> (r: u64)
    ensures
        r == if size > MAX_BYTES { size - MAX_BYTES } else { 0 },
{
    if size > MAX_BYTES { size - MAX_BYTES } else { 0 }
}

#[derive(Clone, Copy, Debug, PartialEq, Eq, Structural)]
pub enum ActionKind {
    Register,
    SetListen,
}

/// One listen-control tool call found in a transcript.
#[derive(Debug)]
pub struct Action {
    pub tool_use_id: String,
    pub kind: ActionKind,
    pub identity: String,
    /// `None` means absent/null, which counts as listen ON.
    pub listen: Option<bool>,
}

/// An action as plain values: (tool use id, kind, identity, listen flag).
pub type ActionModel = (Seq<char>, ActionKind, Seq<char>, Option<bool>);

pub open spec fn action_model(a: Action) -> ActionModel {
    (a.tool_use_id@, a.kind, a.identity@, a.listen)
}

pub open spec fn models(v: Seq<Action>) -> Seq<ActionModel> {
    v.map_values(|a: Action| action_model(a))
}

/// Replayed listen-mode state for a transcript/rollout.
#[derive(Debug, PartialEq, Eq)]
pub enum ListenState {
    /// A successful register/set-listen action left listen mode ON for this identity.
    Active(String),
    /// At least one successful register/set-listen action was replayed, but
    /// listen mode ended OFF.
    ExplicitlyOff,
    /// No successful register/set-listen control action was found (or the
    /// transcript could not be scanned at all).
    Unresolved,
}

// ─── Tool-result bookkeeping ────────────────────────────────────────────────

/// Tool-use outcomes recorded so far; a later record for an id overrides an
/// earlier one.
pub open spec fn results_map(v: Seq<(String, bool)>) -> Map<Seq<char>, bool>
    decreases v.len(),
{
    if v.len() == 0 {
        Map::empty()
    } else {
        results_map(v.drop_last()).insert(v.last().0@, v.last().1)
    }
}

proof fn lemma_results_suffix(v: Seq<(String, bool)>, n: int, k: Seq<char>)
    requires
        0 <= n <= v.len(),
        forall|j: int| n <= j < v.len() ==> v[j].0@ != k,
    ensures
        results_map(v).contains_key(k) == results_map(v.take(n)).contains_key(k),
        results_map(v).contains_key(k) ==> results_map(v)[k] == results_map(v.take(n))[k],
    decreases v.len(),
{
    if v.len() > n {
        assert(v.drop_last().take(n) =~= v.take(n));
        lemma_results_suffix(v.drop_last(), n, k);
    } else {
        assert(v.take(n) =~= v);
    }
}

/// Looks up the recorded outcome for `key`.
pub fn results_get(v: &Vec<(String, bool)>, key: &str) -> (r: Option<bool>)
    ensures
        r == (if results_map(v@).contains_key(key@) { Some(results_map(v@)[key@]) } else { None }),
{
    let mut i: usize = v.len();
    while i > 0
        invariant
            i <= v@.len(),
            forall|j: int| i <= j < v@.len() ==> v@[j].0@ != key@,
        decreases i,
    {
        if str_eq(v[i - 1].0.as_str(), key) {
            proof {
                lemma_results_suffix(v@, i as int, key@);
                assert(v@.take(i as int).drop_last() =~= v@.take(i - 1));
            }
            return Some(v[i - 1].1);
        }
        i -= 1;
    }
    proof {
        lemma_results_suffix(v@, 0, key@);
        assert(v@.take(0) =~= Seq::<(String, bool)>::empty());
    }
    None
}

// ─── Argument helpers ───────────────────────────────────────────────────────

/// Tool arguments: an object as is, a string parsed as JSON (an empty object
/// when it does not parse), anything else an empty object.
pub open spec fn args_of(raw: Option<JsonValue>) -> Option<JsonValue> {
    match raw {
        Some(JsonValue::Object(m)) => Some(JsonValue::Object(m)),
        Some(JsonValue::Str(s)) => json_parse(s@),
        _ => None,
    }
}

/// The `listen` flag of tool arguments: only a JSON boolean counts.
pub open spec fn listen_flag_of(args: Option<JsonValue>) -> Option<bool> {
    match args {
        Some(a) => match member(a, "listen"@) {
            Some(JsonValue::Bool(b)) => Some(b),
            _ => None,
        },
        None => None,
    }
}

/// The identity named by tool arguments: `identity`, else `name`, when it is
/// a non-empty string.
pub open spec fn identity_of(args: Option<JsonValue>) -> Option<Seq<char>> {
    match args {
        Some(a) => {
            let v = match member(a, "identity"@) {
                Some(x) => Some(x),
                None => member(a, "name"@),
            };
            match str_of(v) {
                Some(s) => if s.len() > 0 { Some(s) } else { None },
                None => None,
            }
        },
        None => None,
    }
}

/// Parsed tool arguments, borrowed when they already were an object.
#[derive(Debug)]
pub enum Args<'a> {
    Borrowed(&'a JsonValue),
    Owned(JsonValue),
    Empty,
}

pub open spec fn args_view(a: Args) -> Option<JsonValue> {
    match a {
        Args::Borrowed(x) => Some(*x),
        Args::Owned(x) => Some(x),
        Args::Empty => None,
    }
}

fn parse_args<'a>(raw: Option<&'a JsonValue>) -> (r: Args<'a>)
    ensures
        args_view(r) == args_of(match raw { Some(x) => Some(*x), None => None }),
{
    match raw {
        Some(x) => match x {
            JsonValue::Object(_) => Args::Borrowed(x),
            JsonValue::Str(s) => match parse_json(s.as_str()) {
                Some(v) => Args::Owned(v),
                None => Args::Empty,
            },
            _ => Args::Empty,
        },
        None => Args::Empty,
    }
}

fn args_get<'b>(args: &'b Args, key: &str) -> (r: Option<&'b JsonValue>)
    ensures
        r matches Some(x) ==> (args_view(*args) matches Some(a) && member(a, key@) == Some(*x)),
        r is None ==> (args_view(*args) matches Some(a) ==> member(a, key@) is None),
{
    match args {
        Args::Borrowed(x) => x.get(key),
        Args::Owned(x) => x.get(key),
        Args::Empty => None,
    }
}

fn listen_flag(args: &Args) -> (r: Option<bool>)
    ensures
        r == listen_flag_of(args_view(*args)),
{
    match args_get(args, "listen") {
        Some(JsonValue::Bool(b)) => Some(*b),
        _ => None,
    }
}

fn identity_from_args(args: &Args) -> (r: Option<String>)
    ensures
        r matches Some(s) ==> identity_of(args_view(*args)) == Some(s@),
        r is None ==> identity_of(args_view(*args)) is None,
{
    let v = match args_get(args, "identity") {
        Some(x) => Some(x),
        None => args_get(args, "name"),
    };
    match v {
        Some(JsonValue::Str(s)) => if !s.as_str().is_empty() { Some(s.clone()) } else { None },
        _ => None,
    }
}

// ─── Event parsing ──────────────────────────────────────────────────────────

/// Actions found so far and the recorded tool outcomes.
pub type ScanState = (Seq<ActionModel>, Map<Seq<char>, bool>);

pub open spec fn member_of(o: Option<JsonValue>, key: Seq<char>) -> Option<JsonValue> {
    match o {
        Some(x) => member(x, key),
        None => None,
    }
}

/// A string member, or the empty string when it is absent or not a string.
pub open spec fn str_or_empty(v: Option<JsonValue>) -> Seq<char> {
    match str_of(v) {
        Some(s) => s,
        None => Seq::empty(),
    }
}

/// `Some(v)` when `v` is an object.
pub open spec fn if_object(v: Option<JsonValue>) -> Option<JsonValue> {
    match v {
        Some(JsonValue::Object(m)) => Some(JsonValue::Object(m)),
        _ => None,
    }
}

pub open spec fn push_action(st: ScanState, a: ActionModel) -> ScanState {
    (st.0.push(a), st.1)
}

/// The effect of one assistant-transcript content block.
pub open spec fn claude_block(block: JsonValue, st: ScanState) -> ScanState {
    if !(block is Object) {
        st
    } else {
        let t = str_or_empty(member(block, "type"@));
        let name = str_or_empty(member(block, "name"@));
        if t == "tool_use"@ {
            let inp = args_of(member(block, "input"@));
            let uid = str_or_empty(member(block, "id"@));
            if seq_ends_with(name, "famp_register"@) {
                match identity_of(inp) {
                    Some(ident) => if uid.len() > 0 {
                        push_action(st, (uid, ActionKind::Register, ident, listen_flag_of(inp)))
                    } else {
                        st
                    },
                    None => st,
                }
            } else if seq_ends_with(name, "famp_set_listen"@) && uid.len() > 0 {
                push_action(st, (uid, ActionKind::SetListen, Seq::empty(), listen_flag_of(inp)))
            } else {
                st
            }
        } else if t == "tool_result"@ {
            match str_of(member(block, "tool_use_id"@)) {
                Some(uid) => (st.0, st.1.insert(uid, member(block, "is_error"@) != Some(JsonValue::Bool(true)))),
                None => st,
            }
        } else {
            st
        }
    }
}

pub open spec fn claude_blocks(blocks: Seq<JsonValue>, st: ScanState) -> ScanState
    decreases blocks.len(),
{
    if blocks.len() == 0 {
        st
    } else {
        claude_block(blocks.last(), claude_blocks(blocks.drop_last(), st))
    }
}

/// The effect of one transcript event in the ClaudeCode format.
pub open spec fn claude_event(ev: JsonValue, st: ScanState) -> ScanState {
    let msg = match if_object(member(ev, "message"@)) {
        Some(m) => m,
        None => ev,
    };
    match member(msg, "content"@) {
        Some(JsonValue::Array(a)) => claude_blocks(a@, st),
        _ => st,
    }
}

/// Whether a Codex `function_call_output` reports success: its output text,
/// lowercased and with spaces removed, carries no `"iserror":true` or
/// `"is_error":true`.
pub open spec fn output_success(payload: JsonValue) -> bool {
    let lowered = replace_char(lowercase(str_or_empty(member(payload, "output"@))), ' ', Seq::empty());
    !seq_contains(lowered, "\"iserror\":true"@) && !seq_contains(lowered, "\"is_error\":true"@)
}

/// The effect of a Codex `function_call` / `function_call_output` payload.
pub open spec fn codex_call(p: JsonValue, pos: nat, st: ScanState) -> ScanState {
    let ptype = str_or_empty(member(p, "type"@));
    if ptype == "function_call"@ {
        let tool0 = str_or_empty(member(p, "name"@));
        let ns = str_or_empty(member(p, "namespace"@));
        let tool = if ns.len() > 0 && ns != "mcp__famp"@ { Seq::empty() } else { tool0 };
        let args = args_of(member(p, "arguments"@));
        let uid = match str_of(member(p, "call_id"@)) {
            Some(u) => u,
            None => "codex-fc:"@ + decimal(pos),
        };
        if seq_ends_with(tool, "famp_register"@) {
            match identity_of(args) {
                Some(ident) => push_action(st, (uid, ActionKind::Register, ident, listen_flag_of(args))),
                None => st,
            }
        } else if seq_ends_with(tool, "famp_set_listen"@) {
            push_action(st, (uid, ActionKind::SetListen, Seq::empty(), listen_flag_of(args)))
        } else {
            st
        }
    } else if ptype == "function_call_output"@ {
        match str_of(member(p, "call_id"@)) {
            Some(uid) => if st.1.contains_key(uid) { st } else { (st.0, st.1.insert(uid, output_success(p))) },
            None => st,
        }
    } else {
        st
    }
}

/// The effect of a Codex `mcp_tool_call_end` payload. Only the `famp` MCP
/// server (or an unnamed one) can arm listen mode.
pub open spec fn codex_mcp(p: JsonValue, pos: nat, st: ScanState) -> ScanState {
    if str_or_empty(member(p, "type"@)) != "mcp_tool_call_end"@ {
        st
    } else {
        let inv = if_object(member(p, "invocation"@));
        let tool0 = str_or_empty(member_of(inv, "tool"@));
        let server = str_or_empty(member_of(inv, "server"@));
        let tool = if server.len() > 0 && server != "famp"@ { Seq::empty() } else { tool0 };
        let args = args_of(member_of(inv, "arguments"@));
        let okp = if_object(member_of(if_object(member(p, "result"@)), "Ok"@));
        let ok = okp is Some && member_of(okp, "isError"@) != Some(JsonValue::Bool(true));
        let uid = match str_of(member(p, "call_id"@)) {
            Some(u) => u,
            None => "codex:"@ + decimal(pos),
        };
        if seq_ends_with(tool, "famp_register"@) {
            match identity_of(args) {
                Some(ident) => (st.0.push((uid, ActionKind::Register, ident, listen_flag_of(args))), st.1.insert(uid, ok)),
                None => st,
            }
        } else if seq_ends_with(tool, "famp_set_listen"@) {
            (st.0.push((uid, ActionKind::SetListen, Seq::empty(), listen_flag_of(args))), st.1.insert(uid, ok))
        } else {
            st
        }
    }
}

/// The effect of one transcript event in the Codex rollout format.
pub open spec fn codex_event(ev: JsonValue, pos: nat, st: ScanState) -> ScanState {
    match if_object(member(ev, "payload"@)) {
        Some(p) => codex_mcp(p, pos, codex_call(p, pos, st)),
        None => st,
    }
}

/// The state after scanning `ls`, the lines of the tail, in order; line
/// numbers count from 1 and lines that are not JSON are skipped.
pub open spec fn scan_lines(ls: Seq<Seq<char>>) -> ScanState
    decreases ls.len(),
{
    if ls.len() == 0 {
        (Seq::empty(), Map::empty())
    } else {
        let st = scan_lines(ls.drop_last());
        match json_parse(ls.last()) {
            Some(ev) => codex_event(ev, ls.len(), claude_event(ev, st)),
            None => st,
        }
    }
}

pub open spec fn scan_view(actions: Seq<Action>, results: Seq<(String, bool)>) -> ScanState {
    (models(actions), results_map(results))
}

fn str_field(o: &JsonValue, key: &str) -> (r: String)
    ensures
        r@ == str_or_empty(member(*o, key@)),
{
    match o.get(key) {
        Some(JsonValue::Str(s)) => s.clone(),
        _ => String::new(),
    }
}

fn str_field_opt(o: Option<&JsonValue>, key: &str) -> (r: String)
    ensures
        r@ == str_or_empty(member_of(match o { Some(x) => Some(*x), None => None }, key@)),
{
    match o {
        Some(x) => str_field(x, key),
        None => String::new(),
    }
}

fn as_object(v: Option<&JsonValue>) -> (r: Option<&JsonValue>)
    ensures
        (match r { Some(x) => Some(*x), None => None }) == if_object(match v { Some(x) => Some(*x), None => None }),
{
    match v {
        Some(x) => match x {
            JsonValue::Object(_) => Some(x),
            _ => None,
        },
        None => None,
    }
}

fn get_opt<'a>(o: Option<&'a JsonValue>, key: &str) -> (r: Option<&'a JsonValue>)
    ensures
        (match r { Some(x) => Some(*x), None => None }) == member_of(match o { Some(x) => Some(*x), None => None }, key@),
{
    match o {
        Some(x) => x.get(key),
        None => None,
    }
}

fn push_model(actions: &mut Vec<Action>, a: Action)
    ensures
        models(final(actions)@) == models(old(actions)@).push(action_model(a)),
{
    actions.push(a);
    proof {
        assert(models(actions@) =~= models(old(actions)@).push(action_model(a)));
    }
}

fn record(results: &mut Vec<(String, bool)>, id: String, ok: bool)
    ensures
        results_map(final(results)@) == results_map(old(results)@).insert(id@, ok),
{
    results.push((id, ok));
    proof {
        assert(results@.drop_last() =~= old(results)@);
    }
}

fn claude_block_exec(block: &JsonValue, actions: &mut Vec<Action>, results: &mut Vec<(String, bool)>)
    ensures
        scan_view(final(actions)@, final(results)@) == claude_block(*block, scan_view(old(actions)@, old(results)@)),
{
    if !block.is_object() {
        return;
    }
    let t = str_field(block, "type");
    let name = str_field(block, "name");
    if str_eq(t.as_str(), "tool_use") {
        let inp = parse_args(block.get("input"));
        let uid = str_field(block, "id");
        if ends_with(name.as_str(), "famp_register") {
            match identity_from_args(&inp) {
                Some(ident) => {
                    if !uid.as_str().is_empty() {
                        let l = listen_flag(&inp);
                        push_model(actions, Action { tool_use_id: uid, kind: ActionKind::Register, identity: ident, listen: l });
                    }
                },
                None => {},
            }
        } else if ends_with(name.as_str(), "famp_set_listen") && !uid.as_str().is_empty() {
            let l = listen_flag(&inp);
            push_model(actions, Action { tool_use_id: uid, kind: ActionKind::SetListen, identity: String::new(), listen: l });
        }
    } else if str_eq(t.as_str(), "tool_result") {
        match block.get("tool_use_id") {
            Some(JsonValue::Str(uid)) => {
                let ok = match block.get("is_error") {
                    Some(x) => !x.is_true(),
                    None => true,
                };
                record(results, uid.clone(), ok);
            },
            _ => {},
        }
    }
}

fn claude_event_exec(ev: &JsonValue, actions: &mut Vec<Action>, results: &mut Vec<(String, bool)>)
    ensures
        scan_view(final(actions)@, final(results)@) == claude_event(*ev, scan_view(old(actions)@, old(results)@)),
{
    let msg = match as_object(ev.get("message")) {
        Some(m) => m,
        None => ev,
    };
    match msg.get("content") {
        Some(JsonValue::Array(blocks)) => {
            let ghost st0 = scan_view(actions@, results@);
            let mut i: usize = 0;
            while i < blocks.len()
                invariant
                    i <= blocks@.len(),
                    scan_view(actions@, results@) == claude_blocks(blocks@.take(i as int), st0),
                decreases blocks@.len() - i,
            {
                proof {
                    assert(blocks@.take(i as int + 1).drop_last() =~= blocks@.take(i as int));
                }
                claude_block_exec(&blocks[i], actions, results);
                i += 1;
            }
            proof {
                assert(blocks@.take(blocks@.len() as int) =~= blocks@);
            }
        },
        _ => {},
    }
}

fn output_success_exec(p: &JsonValue) -> (r: bool)
    ensures
        r == output_success(*p),
{
    let out = str_field(p, "output");
    let low = to_lowercase(out.as_str());
    let lowered = replace_char_with(low.as_str(), ' ', "");
    proof {
        reveal_strlit("");
        assert(""@ =~= Seq::<char>::empty());
    }
    !contains(lowered.as_str(), "\"iserror\":true") && !contains(lowered.as_str(), "\"is_error\":true")
}

fn fallback_id(prefix: &str, pos: u64) -> (r: String)
    ensures
        r@ == prefix@ + decimal(pos as nat),
{
    let mut u = owned(prefix);
    let d = u64_to_decimal(pos);
    u.append(d.as_str());
    u
}

fn call_id_or(p: &JsonValue, prefix: &str, pos: u64) -> (r: String)
    ensures
        r@ == (match str_of(member(*p, "call_id"@)) { Some(u) => u, None => prefix@ + decimal(pos as nat) }),
{
    match p.get("call_id") {
        Some(JsonValue::Str(u)) => u.clone(),
        _ => fallback_id(prefix, pos),
    }
}

fn codex_call_exec(p: &JsonValue, pos: u64, actions: &mut Vec<Action>, results: &mut Vec<(String, bool)>)
    ensures
        scan_view(final(actions)@, final(results)@) == codex_call(*p, pos as nat, scan_view(old(actions)@, old(results)@)),
{
    let ptype = str_field(p, "type");
    if str_eq(ptype.as_str(), "function_call") {
        let tool0 = str_field(p, "name");
        let ns = str_field(p, "namespace");
        let tool = if !ns.as_str().is_empty() && !str_eq(ns.as_str(), "mcp__famp") { String::new() } else { tool0 };
        let args = parse_args(p.get("arguments"));
        let uid = call_id_or(p, "codex-fc:", pos);
        if ends_with(tool.as_str(), "famp_register") {
            match identity_from_args(&args) {
                Some(ident) => {
                    let l = listen_flag(&args);
                    push_model(actions, Action { tool_use_id: uid, kind: ActionKind::Register, identity: ident, listen: l });
                },
                None => {},
            }
        } else if ends_with(tool.as_str(), "famp_set_listen") {
            let l = listen_flag(&args);
            push_model(actions, Action { tool_use_id: uid, kind: ActionKind::SetListen, identity: String::new(), listen: l });
        }
    } else if str_eq(ptype.as_str(), "function_call_output") {
        match p.get("call_id") {
            Some(JsonValue::Str(uid)) => {
                if results_get(results, uid.as_str()).is_none() {
                    let ok = output_success_exec(p);
                    record(results, uid.clone(), ok);
                }
            },
            _ => {},
        }
    }
}

fn codex_mcp_exec(p: &JsonValue, pos: u64, actions: &mut Vec<Action>, results: &mut Vec<(String, bool)>)
    ensures
        scan_view(final(actions)@, final(results)@) == codex_mcp(*p, pos as nat, scan_view(old(actions)@, old(results)@)),
{
    let ptype = str_field(p, "type");
    if !str_eq(ptype.as_str(), "mcp_tool_call_end") {
        return;
    }
    let inv = as_object(p.get("invocation"));
    let tool0 = str_field_opt(inv, "tool");
    let server = str_field_opt(inv, "server");
    let tool = if !server.as_str().is_empty() && !str_eq(server.as_str(), "famp") { String::new() } else { tool0 };
    let args = parse_args(get_opt(inv, "arguments"));
    let okp = as_object(get_opt(as_object(p.get("result")), "Ok"));
    let ok = match okp {
        Some(o) => match o.get("isError") {
            Some(x) => !x.is_true(),
            None => true,
        },
        None => false,
    };
    let uid = call_id_or(p, "codex:", pos);
    if ends_with(tool.as_str(), "famp_register") {
        match identity_from_args(&args) {
            Some(ident) => {
                let l = listen_flag(&args);
                let id2 = uid.clone();
                push_model(actions, Action { tool_use_id: uid, kind: ActionKind::Register, identity: ident, listen: l });
                record(results, id2, ok);
            },
            None => {},
        }
    } else if ends_with(tool.as_str(), "famp_set_listen") {
        let l = listen_flag(&args);
        let id2 = uid.clone();
        push_model(actions, Action { tool_use_id: uid, kind: ActionKind::SetListen, identity: String::new(), listen: l });
        record(results, id2, ok);
    }
}

fn codex_event_exec(ev: &JsonValue, pos: u64, actions: &mut Vec<Action>, results: &mut Vec<(String, bool)>)
    ensures
        scan_view(final(actions)@, final(results)@) == codex_event(*ev, pos as nat, scan_view(old(actions)@, old(results)@)),
{
    match as_object(ev.get("payload")) {
        Some(p) => {
            codex_call_exec(p, pos, actions, results);
            codex_mcp_exec(p, pos, actions, results);
        },
        None => {},
    }
}

// ─── Scan and replay ────────────────────────────────────────────────────────

/// Parses every line of `tail` and collects the control actions and tool
/// outcomes it records.
pub fn scan_tail(tail: &str) -> (r: (Vec<Action>, Vec<(String, bool)>))
    ensures
        scan_view(r.0@, r.1@) == scan_lines(lines(tail@)),
{
    let ls = split_lines(tail);
    let ghost lsv = lines(tail@);
    let mut actions: Vec<Action> = Vec::new();
    let mut results: Vec<(String, bool)> = Vec::new();
    let mut i: usize = 0;
    proof {
        assert(results_map(results@) =~= Map::<Seq<char>, bool>::empty());
        assert(models(actions@) =~= Seq::<ActionModel>::empty());
        assert(lsv.take(0) =~= Seq::<Seq<char>>::empty());
    }
    while i < ls.len()
        invariant
            i <= ls@.len(),
            ls@.len() == lsv.len(),
            forall|k: int| 0 <= k < ls@.len() ==> #[trigger] ls@[k]@ == lsv[k],
            scan_view(actions@, results@) == scan_lines(lsv.take(i as int)),
        decreases ls@.len() - i,
    {
        proof {
            assert(lsv.take(i as int + 1).drop_last() =~= lsv.take(i as int));
            assert(lsv.take(i as int + 1).last() == ls@[i as int]@);
        }
        let pos: u64 = (i + 1) as u64;
        match parse_json(ls[i].as_str()) {
            Some(ev) => {
                claude_event_exec(&ev, &mut actions, &mut results);
                codex_event_exec(&ev, pos, &mut actions, &mut results);
            },
            None => {},
        }
        i += 1;
    }
    proof {
        assert(lsv.take(lsv.len() as int) =~= lsv);
    }
    (actions, results)
}

/// (active identity, last registered identity, explicitly off).
pub type ReplayState = (Seq<char>, Seq<char>, bool);

/// Replays one action. Only actions whose tool call succeeded count.
pub open spec fn replay_step(a: ActionModel, results: Map<Seq<char>, bool>, s: ReplayState) -> ReplayState {
    if !(results.contains_key(a.0) && results[a.0]) {
        s
    } else {
        match a.1 {
            ActionKind::Register => {
                let last = if a.2.len() > 0 { a.2 } else { s.1 };
                if a.3 == Some(false) { (Seq::empty(), last, true) } else { (a.2, last, false) }
            },
            ActionKind::SetListen => {
                if a.3 == Some(false) {
                    (Seq::empty(), s.1, true)
                } else if s.1.len() > 0 {
                    (s.1, s.1, false)
                } else {
                    s
                }
            },
        }
    }
}

pub open spec fn replay(actions: Seq<ActionModel>, results: Map<Seq<char>, bool>) -> ReplayState
    decreases actions.len(),
{
    if actions.len() == 0 {
        (Seq::empty(), Seq::empty(), false)
    } else {
        replay_step(actions.last(), results, replay(actions.drop_last(), results))
    }
}

/// `r` is the listen state that the final replay state `fin` describes.
pub open spec fn describes(r: ListenState, fin: ReplayState) -> bool {
    match r {
        ListenState::Active(s) => fin.0.len() > 0 && s@ == fin.0,
        ListenState::ExplicitlyOff => fin.0.len() == 0 && fin.2,
        ListenState::Unresolved => fin.0.len() == 0 && !fin.2,
    }
}

/// Replays the successful control actions in order.
pub fn replay_actions(actions: &Vec<Action>, results: &Vec<(String, bool)>) -> (r: ListenState)
    ensures
        describes(r, replay(models(actions@), results_map(results@))),
{
    let ghost ms = models(actions@);
    let ghost rm = results_map(results@);
    let mut active = String::new();
    let mut last = String::new();
    let mut off = false;
    let mut i: usize = 0;
    proof {
        assert(ms.take(0) =~= Seq::<ActionModel>::empty());
    }
    while i < actions.len()
        invariant
            i <= actions@.len(),
            ms == models(actions@),
            rm == results_map(results@),
            (active@, last@, off) == replay(ms.take(i as int), rm),
        decreases actions@.len() - i,
    {
        proof {
            assert(ms.take(i as int + 1).drop_last() =~= ms.take(i as int));
            assert(ms.take(i as int + 1).last() == action_model(actions@[i as int]));
        }
        let a = &actions[i];
        let ok = match results_get(results, a.tool_use_id.as_str()) {
            Some(b) => b,
            None => false,
        };
        if ok {
            match a.kind {
                ActionKind::Register => {
                    if !a.identity.as_str().is_empty() {
                        last = a.identity.clone();
                    }
                    if a.listen == Some(false) {
                        active = String::new();
                        off = true;
                    } else {
                        active = a.identity.clone();
                        off = false;
                    }
                },
                ActionKind::SetListen => {
                    if a.listen == Some(false) {
                        active = String::new();
                        off = true;
                    } else if !last.as_str().is_empty() {
                        active = last.clone();
                        off = false;
                    }
                },
            }
        }
        i += 1;
    }
    proof {
        assert(ms.take(ms.len() as int) =~= ms);
    }
    if !active.as_str().is_empty() {
        ListenState::Active(active)
    } else if off {
        ListenState::ExplicitlyOff
    } else {
        ListenState::Unresolved
    }
}

/// The scanned text: when the tail was cut out of a longer file, the
/// partial first line is dropped.
pub open spec fn scanned_text(tail: Seq<char>, truncated: bool) -> Seq<char> {
    if truncated && seq_contains(tail, seq!['\n']) { after_first_newline(tail) } else { tail }
}

/// The replay state of a transcript tail.
pub open spec fn transcript_replay(tail: Seq<char>, truncated: bool) -> ReplayState {
    let st = scan_lines(lines(scanned_text(tail, truncated)));
    replay(st.0, st.1)
}

/// The listen-mode state of a transcript/rollout, from the text of its
/// last [`MAX_BYTES`] bytes (`truncated` when the file was longer).
/// `None` (the file could not be read) is `Unresolved`.
pub fn extract_listen_state(tail: Option<&str>, truncated: bool) -> (r: ListenState)
    ensures
        tail is None ==> r is Unresolved,
        tail matches Some(t) ==> describes(r, transcript_replay(t@, truncated)),
{
    match tail {
        None => ListenState::Unresolved,
        Some(t) => {
            let text = if truncated { drop_through_first_newline(t) } else { owned(t) };
            let (actions, results) = scan_tail(text.as_str());
            replay_actions(&actions, &results)
        },
    }
}

/// What `String::from_utf8_lossy` decodes `bytes` into: ill-formed
/// sequences become U+FFFD.
pub uninterp spec fn utf8_lossy(bytes: Seq<u8>) -> Seq<char>;

/// Decodes the bytes of a transcript tail with `String::from_utf8_lossy`
/// (a seek may land inside a multi-byte character); well-formed UTF-8
/// decodes to the text it encodes.
#[verifier::external_body]
fn decode_lossy(bytes: &[u8]) -> (r: String)
    ensures
        r@ == utf8_lossy(bytes@),
        forall|t: Seq<char>| vstd::utf8::encode_utf8(t) == bytes@ ==> r@ == t,
{
    String::from_utf8_lossy(bytes).into_owned()
}

/// Where the scanned window of a file holding `content` starts.
pub open spec fn window_start(len: nat) -> nat {
    if len > MAX_BYTES { (len - MAX_BYTES) as nat } else { 0 }
}

/// The replay state of a transcript file: only its last [`MAX_BYTES`]
/// bytes are read, and a partial first line of a cut window is dropped.
pub open spec fn file_replay(content: Seq<u8>) -> ReplayState {
    transcript_replay(utf8_lossy(content.skip(window_start(content.len()) as int)), window_start(content.len()) > 0)
}

/// The listen-mode state of a `size`-byte transcript file from the bytes
/// read from [`tail_offset`]`(size)` to its end.
pub fn listen_state_of_tail(size: u64, tail: &[u8]) -> (r: ListenState)
    requires
        tail@.len() == size - tail_offset_of(size),
    ensures
        forall|content: Seq<u8>| content.len() == size && #[trigger] content.skip(tail_offset_of(size)) == tail@
            ==> describes(r, file_replay(content)),
{
    let text = decode_lossy(tail);
    let off = tail_offset(size);
    extract_listen_state(Some(text.as_str()), off > 0)
}

pub open spec fn tail_offset_of(size: u64) -> int {
    if size > MAX_BYTES { size - MAX_BYTES } else { 0 }
}

/// The listen state depends on the last [`MAX_BYTES`] bytes of a
/// transcript alone: two files longer than that whose last `MAX_BYTES`
/// bytes agree have the same listen state.
pub proof fn law_listen_state_reads_only_the_tail(c1: Seq<u8>, c2: Seq<u8>)
    requires
        c1.len() > MAX_BYTES,
        c2.len() > MAX_BYTES,
        c1.skip(c1.len() - MAX_BYTES) == c2.skip(c2.len() - MAX_BYTES),
    ensures
        file_replay(c1) == file_replay(c2),
{
}

/// Two listen states say the same: the same variant, and the same
/// identity when active.
pub open spec fn same_listen_state(a: ListenState, b: ListenState) -> bool {
    match (a, b) {
        (ListenState::Active(x), ListenState::Active(y)) => x@ == y@,
        (ListenState::ExplicitlyOff, ListenState::ExplicitlyOff) => true,
        (ListenState::Unresolved, ListenState::Unresolved) => true,
        _ => false,
    }
}

/// What [`listen_state_of_tail`] reports for two transcript files longer
/// than [`MAX_BYTES`] whose last `MAX_BYTES` bytes agree is the same
/// listen state.
pub proof fn law_tail_reading_ignores_earlier_bytes(c1: Seq<u8>, c2: Seq<u8>, r1: ListenState, r2: ListenState)
    requires
        c1.len() > MAX_BYTES,
        c2.len() > MAX_BYTES,
        c1.skip(c1.len() - MAX_BYTES) == c2.skip(c2.len() - MAX_BYTES),
        describes(r1, file_replay(c1)),
        describes(r2, file_replay(c2)),
    ensures
        same_listen_state(r1, r2),
{
    law_listen_state_reads_only_the_tail(c1, c2);
}

/// The active listen-mode identity of a transcript/rollout; `None` on any
/// uncertainty or an explicit opt-out.
pub fn extract_listen_identity(tail: Option<&str>, truncated: bool) -> (r: Option<String>)
    ensures
        tail is None ==> r is None,
        tail matches Some(t) ==> (match r {
            Some(s) => transcript_replay(t@, truncated).0.len() > 0 && s@ == transcript_replay(t@, truncated).0,
            None => transcript_replay(t@, truncated).0.len() == 0,
        }),
{
    match extract_listen_state(tail, truncated) {
        ListenState::Active(name) => Some(name),
        ListenState::ExplicitlyOff | ListenState::Unresolved => None,
    }
}


/// Characters allowed in an identity: ASCII letters and digits, `.`, `_`, `-`.
pub open spec fn identity_char(c: char) -> bool {
    ('a' <= c <= 'z') || ('A' <= c <= 'Z') || ('0' <= c <= '9') || c == '.' || c == '_' || c == '-'
}

/// Characters allowed in a sender: ASCII letters and digits, `@`, `.`, `_`, `:`, `/`, `-`.
pub open spec fn sender_char(c: char) -> bool {
    ('a' <= c <= 'z') || ('A' <= c <= 'Z') || ('0' <= c <= '9') || c == '@' || c == '.' || c == '_'
        || c == ':' || c == '/' || c == '-'
}

/// `^[A-Za-z0-9._-]{1,64}$`
pub open spec fn valid_identity(s: Seq<char>) -> bool {
    1 <= s.len() <= 64 && forall|i: int| 0 <= i < s.len() ==> #[trigger] identity_char(s[i])
}

/// `^[A-Za-z0-9@._:/-]{1,128}$`
pub open spec fn valid_sender(s: Seq<char>) -> bool {
    1 <= s.len() <= 128 && forall|i: int| 0 <= i < s.len() ==> #[trigger] sender_char(s[i])
}

fn is_identity_char(c: char) -> (r: bool)
    ensures
        r == identity_char(c),
{
    ('a' <= c && c <= 'z') || ('A' <= c && c <= 'Z') || ('0' <= c && c <= '9') || c == '.' || c == '_' || c == '-'
}

fn is_sender_char(c: char) -> (r: bool)
    ensures
        r == sender_char(c),
{
    ('a' <= c && c <= 'z') || ('A' <= c && c <= 'Z') || ('0' <= c && c <= '9') || c == '@' || c == '.'
        || c == '_' || c == ':' || c == '/' || c == '-'
}

/// Validates an identity name: `^[A-Za-z0-9._-]{1,64}$`. (Every allowed
/// character is ASCII, so the 64-byte limit is a 64-character limit.)
pub fn validate_identity(identity: &str) -> (r: bool)
    ensures
        r == valid_identity(identity@),
{
    let v = crate::text::chars_of(identity);
    if v.len() == 0 || v.len() > 64 {
        return false;
    }
    let mut i: usize = 0;
    while i < v.len()
        invariant
            i <= v@.len(),
            v@ == identity@,
            forall|k: int| 0 <= k < i ==> #[trigger] identity_char(v@[k]),
        decreases v@.len() - i,
    {
        if !is_identity_char(v[i]) {
            return false;
        }
        i += 1;
    }
    true
}

/// Validates a notification sender: `^[A-Za-z0-9@._:/-]{1,128}$`.
pub fn validate_sender(sender: &str) -> (r: bool)
    ensures
        r == valid_sender(sender@),
{
    let v = crate::text::chars_of(sender);
    if v.len() == 0 || v.len() > 128 {
        return false;
    }
    let mut i: usize = 0;
    while i < v.len()
        invariant
            i <= v@.len(),
            v@ == sender@,
            forall|k: int| 0 <= k < i ==> #[trigger] sender_char(v@[k]),
        decreases v@.len() - i,
    {
        if !is_sender_char(v[i]) {
            return false;
        }
        i += 1;
    }
    true
}

/// A tool call that did not succeed never changes the replayed listen state.
pub proof fn law_failed_call_is_ignored(actions: Seq<ActionModel>, a: ActionModel, results: Map<Seq<char>, bool>)
    requires
        !(results.contains_key(a.0) && results[a.0]),
    ensures
        replay(actions.push(a), results) == replay(actions, results),
{
    assert(actions.push(a).drop_last() =~= actions);
}

/// A successful `famp_set_listen(false)` always ends explicitly off.
pub proof fn law_set_listen_false_turns_off(actions: Seq<ActionModel>, uid: Seq<char>, results: Map<Seq<char>, bool>)
    requires
        results.contains_key(uid),
        results[uid],
    ensures
        ({
            let fin = replay(actions.push((uid, ActionKind::SetListen, Seq::empty(), Some(false))), results);
            fin.0.len() == 0 && fin.2
        }),
{
    assert(actions.push((uid, ActionKind::SetListen, Seq::<char>::empty(), Some(false))).drop_last() =~= actions);
}

/// A successful `famp_register` with a non-empty identity and listen not
/// `false` leaves listen mode on for exactly that identity.
pub proof fn law_register_arms_listen(actions: Seq<ActionModel>, uid: Seq<char>, ident: Seq<char>, listen: Option<bool>, results: Map<Seq<char>, bool>)
    requires
        results.contains_key(uid),
        results[uid],
        ident.len() > 0,
        listen != Some(false),
    ensures
        replay(actions.push((uid, ActionKind::Register, ident, listen)), results).0 == ident,
{
    assert(actions.push((uid, ActionKind::Register, ident, listen)).drop_last() =~= actions);
}

/// Without any earlier registration, `famp_set_listen(true)` cannot arm
/// listen mode: a compacted transcript stays unresolved.
pub proof fn law_set_listen_needs_register(actions: Seq<ActionModel>, results: Map<Seq<char>, bool>)
    requires
        forall|i: int| 0 <= i < actions.len() ==> (#[trigger] actions[i]).1 == ActionKind::SetListen && actions[i].3 != Some(false),
    ensures
        replay(actions, results) == (Seq::<char>::empty(), Seq::<char>::empty(), false),
    decreases actions.len(),
{
    if actions.len() > 0 {
        let prefix = actions.drop_last();
        assert forall|i: int| 0 <= i < prefix.len() implies (#[trigger] prefix[i]).1 == ActionKind::SetListen && prefix[i].3 != Some(false) by {
            assert(prefix[i] == actions[i]);
        }
        law_set_listen_needs_register(prefix, results);
        assert(actions.last() == actions[actions.len() - 1]);
    }
}

/// A Codex MCP call made through any server other than `famp` (or an
/// unnamed one) never records a control action or a result.
pub proof fn law_foreign_server_cannot_arm(p: JsonValue, pos: nat, st: ScanState)
    requires
        ({
            let server = str_or_empty(member_of(if_object(member(p, "invocation"@)), "server"@));
            server.len() > 0 && server != "famp"@
        }),
    ensures
        codex_mcp(p, pos, st) == st,
{
    reveal_strlit("famp_register");
    reveal_strlit("famp_set_listen");
    assert(!seq_ends_with(Seq::<char>::empty(), "famp_register"@));
    assert(!seq_ends_with(Seq::<char>::empty(), "famp_set_listen"@));
}

/// One line of a transcript, scanned in both formats.
pub open spec fn scan_event(ev: JsonValue, pos: nat, st: ScanState) -> ScanState {
    codex_event(ev, pos, claude_event(ev, st))
}

/// An event carrying no ClaudeCode message content.
pub open spec fn no_message_content(ev: JsonValue) -> bool {
    if_object(member(ev, "message"@)) is None && !(member(ev, "content"@) matches Some(JsonValue::Array(_)))
}

/// A Codex `function_call_output` records its call's outcome the first
/// time it is seen (a later output for the same call does not change it);
/// so a Codex `famp_register` function call with an identity and listen
/// not turned off, followed by its successful output, leaves listen mode
/// active for that identity, whatever was scanned before.
pub proof fn law_codex_function_call_registration_arms(
    ev1: JsonValue, p1: JsonValue, ev2: JsonValue, p2: JsonValue,
    uid: Seq<char>, ident: Seq<char>, pos: nat, st: ScanState,
)
    requires
        no_message_content(ev1),
        no_message_content(ev2),
        member(ev1, "payload"@) == Some(p1),
        p1 is Object,
        str_or_empty(member(p1, "type"@)) == "function_call"@,
        seq_ends_with(str_or_empty(member(p1, "name"@)), "famp_register"@),
        str_or_empty(member(p1, "namespace"@)).len() == 0 || str_or_empty(member(p1, "namespace"@)) == "mcp__famp"@,
        str_of(member(p1, "call_id"@)) == Some(uid),
        identity_of(args_of(member(p1, "arguments"@))) == Some(ident),
        listen_flag_of(args_of(member(p1, "arguments"@))) != Some(false),
        member(ev2, "payload"@) == Some(p2),
        p2 is Object,
        str_or_empty(member(p2, "type"@)) == "function_call_output"@,
        str_of(member(p2, "call_id"@)) == Some(uid),
        output_success(p2),
        !st.1.contains_key(uid),
    ensures
        ({
            let done = scan_event(ev2, pos + 1, scan_event(ev1, pos, st));
            &&& done.1.contains_key(uid) && done.1[uid]
            &&& replay(done.0, done.1).0 == ident
            &&& !replay(done.0, done.1).2
        }),
{
    reveal_strlit("function_call");
    reveal_strlit("function_call_output");
    reveal_strlit("mcp_tool_call_end");
    assert("function_call"@ != "function_call_output"@) by {
        assert("function_call"@.len() != "function_call_output"@.len());
    }
    assert("function_call"@ != "mcp_tool_call_end"@) by {
        assert("function_call"@[1] != "mcp_tool_call_end"@[1]);
    }
    assert("function_call_output"@ != "mcp_tool_call_end"@) by {
        assert("function_call_output"@[1] != "mcp_tool_call_end"@[1]);
    }
    let s1 = scan_event(ev1, pos, st);
    assert(claude_event(ev1, st) == st);
    let a = (uid, ActionKind::Register, ident, listen_flag_of(args_of(member(p1, "arguments"@))));
    assert(codex_call(p1, pos, st) == push_action(st, a));
    assert(s1 == push_action(st, a));
    assert(claude_event(ev2, s1) == s1);
    let s2 = scan_event(ev2, pos + 1, s1);
    assert(s2 == (s1.0, s1.1.insert(uid, output_success(p2))));
    assert(s2.0.drop_last() =~= st.0);
    assert(s2.0.last() == a);
}

/// Once a call's outcome is recorded, a later Codex `function_call_output`
/// for the same call leaves it as it was: the first outcome wins.
pub proof fn law_first_call_outcome_wins(ev: JsonValue, p: JsonValue, uid: Seq<char>, pos: nat, st: ScanState)
    requires
        no_message_content(ev),
        member(ev, "payload"@) == Some(p),
        p is Object,
        str_or_empty(member(p, "type"@)) == "function_call_output"@,
        str_of(member(p, "call_id"@)) == Some(uid),
        st.1.contains_key(uid),
    ensures
        scan_event(ev, pos, st) == st,
{
    reveal_strlit("function_call");
    reveal_strlit("function_call_output");
    reveal_strlit("mcp_tool_call_end");
    assert("function_call"@ != "function_call_output"@) by {
        assert("function_call"@.len() != "function_call_output"@.len());
    }
    assert("function_call_output"@ != "mcp_tool_call_end"@) by {
        assert("function_call_output"@[1] != "mcp_tool_call_end"@[1]);
    }
    assert(claude_event(ev, st) == st);
}

} // verus!
