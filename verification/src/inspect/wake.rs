//! `famp inspect wake`: end-to-end Codex automatic-wake readiness, kept
//! apart from the broker's listen intent so that a CLI `register --tail`
//! process can never look Codex-ready.

use vstd::prelude::*;
use crate::executable::file_name_of;
use crate::install::stop_entry::unquote;
use crate::install::codex::CODEX_AWAIT_TIMEOUT_SEC;
use crate::install::json_merge::lookup2;
use crate::json::{array_of, i64_of, json_parse, member, parse_json, str_of, JsonValue};
use crate::text::{decimal, ends_with, owned, u64_to_decimal, seq_ends_with, seq_starts_with, split_whitespace, starts_with, str_eq, trim_end, trim_end_by, trim_quotes, words, TrimClass};
use crate::toml_tree::{entry, parse_toml, toml_parse, TomlValue};

verus! {

#[derive(Clone, Copy, Debug, PartialEq, Eq, Structural)]
pub enum TriState {
    True,
    False,
    Unknown,
}

/// What kind of process holds an identity's registration.
#[derive(Clone, Copy, Debug, PartialEq, Eq, Structural)]
pub enum HolderKind {
    Mcp,
    CliRegister,
    Other,
    Unknown,
}

/// The project's native Codex Stop hook: where `hooks.json` is, whether the
/// hook is present, and whether Codex trusts it.
#[derive(Debug)]
pub struct HookState {
    pub path: String,
    pub present: bool,
    pub trusted: TriState,
}

/// The executable named by a command-line word: its file name, quotes
/// stripped on both sides.
pub open spec fn executable_name(word: Seq<char>) -> Seq<char> {
    unquote(file_name_of(unquote(word)))
}

/// `name` is the FAMP executable or one of its `famp-*` variants.
pub open spec fn is_famp_name(name: Seq<char>) -> bool {
    name == "famp"@ || seq_starts_with(name, "famp-"@)
}

pub open spec fn subcommand_kind(w: Seq<char>) -> HolderKind {
    if w == "mcp"@ { HolderKind::Mcp } else if w == "register"@ { HolderKind::CliRegister } else { HolderKind::Other }
}

/// The first word, among all but the last, that names the FAMP executable.
pub open spec fn first_famp_word(ws: Seq<Seq<char>>, j: int) -> bool {
    &&& 0 <= j && j + 1 < ws.len()
    &&& is_famp_name(executable_name(ws[j]))
    &&& forall|k: int| 0 <= k < j ==> !is_famp_name(#[trigger] executable_name(ws[k]))
}

/// The holder kind that a process command line shows: the subcommand that
/// follows the first FAMP executable word (`mcp` or `register`), `Other`
/// for anything else or no FAMP executable at all.
pub open spec fn cmdline_kind(cmdline: Seq<char>) -> HolderKind {
    let ws = words(cmdline);
    if exists|j: int| #[trigger] first_famp_word(ws, j) {
        subcommand_kind(ws[(choose|j: int| #[trigger] first_famp_word(ws, j)) + 1])
    } else {
        HolderKind::Other
    }
}

proof fn lemma_first_famp_word_unique(ws: Seq<Seq<char>>, a: int, b: int)
    requires
        first_famp_word(ws, a),
        first_famp_word(ws, b),
    ensures
        a == b,
{
    if a < b {
        assert(!is_famp_name(executable_name(ws[a])));
    } else if b < a {
        assert(!is_famp_name(executable_name(ws[b])));
    }
}


fn famp_word(word: &str) -> (r: bool)
    ensures
        r == is_famp_name(executable_name(word@)),
{
    let w = trim_quotes(word);
    let f = crate::executable::file_name(w.as_str());
    let name = trim_quotes(f.as_str());
    str_eq(name.as_str(), "famp") || starts_with(name.as_str(), "famp-")
}

fn subcommand(word: &str) -> (r: HolderKind)
    ensures
        r == subcommand_kind(word@),
{
    if str_eq(word, "mcp") {
        HolderKind::Mcp
    } else if str_eq(word, "register") {
        HolderKind::CliRegister
    } else {
        HolderKind::Other
    }
}

/// Classifies a registration holder by its process command line.
pub fn classify_cmdline(cmdline: &str) -> (r: HolderKind)
    ensures
        r == cmdline_kind(cmdline@),
{
    let ws = split_whitespace(cmdline);
    let ghost wv = words(cmdline@);
    let mut j: usize = 0;
    while j < ws.len() && j + 1 < ws.len()
        invariant
            ws@.len() == wv.len(),
            wv == words(cmdline@),
            forall|k: int| 0 <= k < ws@.len() ==> #[trigger] ws@[k]@ == wv[k],
            j <= ws@.len(),
            forall|k: int| 0 <= k < j ==> !is_famp_name(#[trigger] executable_name(wv[k])),
        decreases ws@.len() - j,
    {
        if famp_word(ws[j].as_str()) {
            proof {
                assert(ws@[j as int]@ == wv[j as int]);
                assert(first_famp_word(wv, j as int));
                let c = choose|i: int| #[trigger] first_famp_word(wv, i);
                lemma_first_famp_word_unique(wv, c, j as int);
                assert(ws@[j + 1]@ == wv[j + 1]);
            }
            return subcommand(ws[j + 1].as_str());
        }
        proof {
            assert(ws@[j as int]@ == wv[j as int]);
        }
        j += 1;
    }
    proof {
        assert forall|i: int| !(#[trigger] first_famp_word(wv, i)) by {
            if first_famp_word(wv, i) {
                assert(i < j);
            }
        }
    }
    HolderKind::Other
}

/// Classifies the holder from its process command line (`None` when it
/// could not be read).
pub fn classify_holder(cmdline: Option<&str>) -> (r: HolderKind)
    ensures
        r == match cmdline {
            None => HolderKind::Unknown,
            Some(c) => cmdline_kind(c@),
        },
{
    match cmdline {
        None => HolderKind::Unknown,
        Some(c) => classify_cmdline(c),
    }
}


/// The readiness verdict, its reason and the remediation to offer.
pub open spec fn readiness_verdict(listen: bool, holder: HolderKind, present: bool, trusted: TriState, parked: bool) -> (TriState, Seq<char>, Seq<char>) {
    if !listen {
        (TriState::False, "broker listen intent is disabled"@, "call MCP famp_set_listen({ listen: true })"@)
    } else if holder == HolderKind::CliRegister {
        (TriState::False, "standalone `famp register --tail` can display events but cannot bind a Codex MCP session"@,
            "stop the CLI holder, restart Codex if needed, then call MCP famp_register"@)
    } else if !present {
        (TriState::False, "the project has no native FAMP Codex Stop hook"@,
            "run `famp install-codex --project <path>`, then restart Codex"@)
    } else if trusted != TriState::True {
        (TriState::False, "the Codex Stop hook is present but its enabled trust entry is missing or stale"@,
            "re-run `famp install-codex --project <path>`, then restart Codex"@)
    } else if holder != HolderKind::Mcp {
        (TriState::Unknown, "the hook is configured, but the holder could not be confirmed as this Codex MCP session"@,
            "call MCP famp_register in the target Codex window"@)
    } else if parked {
        (TriState::Unknown, "configuration, an MCP holder, and an active waiter are present, but waiter provenance and Codex hook load cannot be attributed"@,
            "confirm the waiter was created by a freshly restarted Codex Stop hook; manual CLI/MCP awaits do not prove host wake readiness"@)
    } else {
        (TriState::Unknown, "configuration and MCP binding look correct, but no waiter is parked; the turn may be active or this window may need a restart"@,
            "end the turn and re-check; restart Codex if the hook was installed after this window opened"@)
    }
}

/// Whether Codex would wake this identity automatically, why, and what to
/// do about it. Configuration, an MCP holder and an unattributed waiter are
/// not enough evidence: the verdict is never `True`.
pub fn readiness(listen: bool, holder: HolderKind, hook: &HookState, parked: bool) -> (r: (TriState, String, Option<String>))
    ensures
        r.0 == readiness_verdict(listen, holder, hook.present, hook.trusted, parked).0,
        r.1@ == readiness_verdict(listen, holder, hook.present, hook.trusted, parked).1,
        r.2 matches Some(m) && m@ == readiness_verdict(listen, holder, hook.present, hook.trusted, parked).2,
{
    if !listen {
        return (TriState::False, owned("broker listen intent is disabled"), Some(owned("call MCP famp_set_listen({ listen: true })")));
    }
    if holder == HolderKind::CliRegister {
        return (TriState::False,
            owned("standalone `famp register --tail` can display events but cannot bind a Codex MCP session"),
            Some(owned("stop the CLI holder, restart Codex if needed, then call MCP famp_register")));
    }
    if !hook.present {
        return (TriState::False, owned("the project has no native FAMP Codex Stop hook"),
            Some(owned("run `famp install-codex --project <path>`, then restart Codex")));
    }
    if hook.trusted != TriState::True {
        return (TriState::False, owned("the Codex Stop hook is present but its enabled trust entry is missing or stale"),
            Some(owned("re-run `famp install-codex --project <path>`, then restart Codex")));
    }
    if holder != HolderKind::Mcp {
        return (TriState::Unknown, owned("the hook is configured, but the holder could not be confirmed as this Codex MCP session"),
            Some(owned("call MCP famp_register in the target Codex window")));
    }
    if parked {
        return (TriState::Unknown,
            owned("configuration, an MCP holder, and an active waiter are present, but waiter provenance and Codex hook load cannot be attributed"),
            Some(owned("confirm the waiter was created by a freshly restarted Codex Stop hook; manual CLI/MCP awaits do not prove host wake readiness")));
    }
    (TriState::Unknown,
        owned("configuration and MCP binding look correct, but no waiter is parked; the turn may be active or this window may need a restart"),
        Some(owned("end the turn and re-check; restart Codex if the hook was installed after this window opened")))
}

/// No combination of evidence makes the wake verdict `True`, and a
/// standalone CLI holder or disabled listen intent is always `False`.
pub proof fn law_wake_never_proven(listen: bool, holder: HolderKind, present: bool, trusted: TriState, parked: bool)
    ensures
        readiness_verdict(listen, holder, present, trusted, parked).0 != TriState::True,
        (!listen || holder == HolderKind::CliRegister) ==> readiness_verdict(listen, holder, present, trusted, parked).0 == TriState::False,
{
}


/// Why the hook or its trust could not be inspected.
#[derive(Debug)]
pub enum InspectError {
    /// The project's `hooks.json` is not JSON.
    HooksParse,
    /// The user's Codex `config.toml` is not TOML.
    ConfigParse,
}

/// The groups of a `hooks.json` document's `hooks.Stop` array.
pub open spec fn stop_groups(json: JsonValue) -> Seq<JsonValue> {
    match array_of(lookup2(json, "hooks"@, "Stop"@)) {
        Some(a) => a,
        None => Seq::empty(),
    }
}

/// The handlers of one Stop group.
pub open spec fn group_handlers(group: JsonValue) -> Seq<JsonValue> {
    match array_of(member(group, "hooks"@)) {
        Some(a) => a,
        None => Seq::empty(),
    }
}

/// A `command`-type handler whose command (trailing whitespace aside) ends
/// in ` hook codex-stop`.
pub open spec fn is_native_handler(h: JsonValue) -> bool {
    &&& str_of(member(h, "command"@)) matches Some(c)
    &&& str_of(member(h, "type"@)) == Some("command"@)
    &&& seq_ends_with(trim_end_by(c, TrimClass::Whitespace), " hook codex-stop"@)
}

pub open spec fn native_at(json: JsonValue, g: int, h: int) -> bool {
    &&& 0 <= g < stop_groups(json).len()
    &&& 0 <= h < group_handlers(stop_groups(json)[g]).len()
    &&& is_native_handler(group_handlers(stop_groups(json)[g])[h])
}

/// The handler's timeout, or the Codex default when absent.
pub open spec fn handler_timeout(h: JsonValue) -> int {
    match i64_of(member(h, "timeout"@)) {
        Some(t) => t,
        None => CODEX_AWAIT_TIMEOUT_SEC as int,
    }
}

fn is_native(h: &JsonValue) -> (r: bool)
    ensures
        r == is_native_handler(*h),
{
    let c = match h.get("command") {
        Some(v) => match v.as_str() {
            Some(c) => c,
            None => return false,
        },
        None => return false,
    };
    let is_command = match h.get("type") {
        Some(v) => match v.as_str() {
            Some(t) => str_eq(t.as_str(), "command"),
            None => false,
        },
        None => false,
    };
    if !is_command {
        return false;
    }
    let t = trim_end(c.as_str());
    ends_with(t.as_str(), " hook codex-stop")
}

/// Finds the first native `hook codex-stop` handler, by group then handler
/// position: its group index, handler index, command and timeout.
pub fn find_native_hook(json: &JsonValue) -> (r: Option<(usize, usize, String, i64)>)
    ensures
        r matches Some((g, h, c, t)) ==> native_at(*json, g as int, h as int)
            && str_of(member(group_handlers(stop_groups(*json)[g as int])[h as int], "command"@)) == Some(c@)
            && t == handler_timeout(group_handlers(stop_groups(*json)[g as int])[h as int])
            && forall|g2: int, h2: int| #[trigger] native_at(*json, g2, h2) ==> !(g2 < g || (g2 == g && h2 < h)),
        r is None ==> forall|g2: int, h2: int| !#[trigger] native_at(*json, g2, h2),
{
    let groups = match json.get("hooks") {
        Some(hk) => match hk.get("Stop") {
            Some(st) => match st.as_array() {
                Some(a) => a,
                None => return None,
            },
            None => return None,
        },
        None => return None,
    };
    let mut gi: usize = 0;
    while gi < groups.len()
        invariant
            gi <= groups@.len(),
            groups@ == stop_groups(*json),
            forall|g2: int, h2: int| #[trigger] native_at(*json, g2, h2) ==> g2 >= gi,
        decreases groups@.len() - gi,
    {
        let handlers_opt = match groups[gi].get("hooks") {
            Some(hs) => hs.as_array(),
            None => None,
        };
        if let Some(handlers) = handlers_opt {
            let mut hi: usize = 0;
            while hi < handlers.len()
                invariant
                    hi <= handlers@.len(),
                    gi < groups@.len(),
                    groups@ == stop_groups(*json),
                    handlers@ == group_handlers(groups@[gi as int]),
                    forall|g2: int, h2: int| #[trigger] native_at(*json, g2, h2) ==> g2 > gi || (g2 == gi && h2 >= hi),
                decreases handlers@.len() - hi,
            {
                if is_native(&handlers[hi]) {
                    let h = &handlers[hi];
                    let c = match h.get("command") {
                        Some(v) => match v.as_str() {
                            Some(c) => c.clone(),
                            None => String::new(),
                        },
                        None => String::new(),
                    };
                    let t = match h.get("timeout") {
                        Some(v) => match v.as_i64() {
                            Some(t) => t,
                            None => CODEX_AWAIT_TIMEOUT_SEC,
                        },
                        None => CODEX_AWAIT_TIMEOUT_SEC,
                    };
                    return Some((gi, hi, c, t));
                }
                hi += 1;
            }
        }
        gi += 1;
    }
    None
}

/// Looks for the native hook in the text of a project's `hooks.json`
/// (`None`: the file does not exist).
pub fn hook_in_hooks_file(hooks_text: Option<&str>) -> (r: Result<Option<(usize, usize, String, i64)>, InspectError>)
    ensures
        hooks_text is None ==> r matches Ok(None),
        hooks_text matches Some(t) ==> match json_parse(t@) {
            None => r matches Err(InspectError::HooksParse),
            Some(json) => r matches Ok(found) && (found is None <==> forall|g2: int, h2: int| !#[trigger] native_at(json, g2, h2))
                && (found matches Some((g, h, _, _)) ==> native_at(json, g as int, h as int)),
        },
{
    match hooks_text {
        None => Ok(None),
        Some(t) => match parse_json(t) {
            None => Err(InspectError::HooksParse),
            Some(json) => Ok(find_native_hook(&json)),
        },
    }
}

/// `root[a][b][c]`.
pub open spec fn entry3(root: TomlValue, a: Seq<char>, b: Seq<char>, c: Seq<char>) -> Option<TomlValue> {
    match entry(root, a) {
        Some(x) => match entry(x, b) {
            Some(y) => entry(y, c),
            None => None,
        },
        None => None,
    }
}

/// The hook is trusted: its `hooks.state` entry is enabled and records the
/// expected hash.
pub open spec fn trust_of(state: Option<TomlValue>, expected_hash: Seq<char>) -> TriState {
    match state {
        Some(st) => if entry(st, "enabled"@) == Some(TomlValue::Bool(true))
            && (entry(st, "trusted_hash"@) matches Some(TomlValue::Str(h)) && h@ == expected_hash) {
            TriState::True
        } else {
            TriState::False
        },
        None => TriState::False,
    }
}

/// Codex's trust in the hook under `key`, from the text of the user's
/// Codex `config.toml` (`None`: the file does not exist).
pub fn trust_from_config(config_text: Option<&str>, key: &str, expected_hash: &str) -> (r: Result<TriState, InspectError>)
    ensures
        config_text is None ==> r == Ok::<TriState, InspectError>(TriState::False),
        config_text matches Some(t) ==> match toml_parse(t@) {
            None => r matches Err(InspectError::ConfigParse),
            Some(cfg) => r == Ok::<TriState, InspectError>(trust_of(entry3(cfg, "hooks"@, "state"@, key@), expected_hash@)),
        },
{
    let t = match config_text {
        None => return Ok(TriState::False),
        Some(t) => t,
    };
    let cfg = match parse_toml(t) {
        None => return Err(InspectError::ConfigParse),
        Some(c) => c,
    };
    let state = match cfg.get("hooks") {
        Some(h) => match h.get("state") {
            Some(s) => s.get(key),
            None => None,
        },
        None => None,
    };
    match state {
        None => Ok(TriState::False),
        Some(st) => {
            let enabled = match st.get("enabled") {
                Some(TomlValue::Bool(b)) => *b,
                _ => false,
            };
            let hash_ok = match st.get("trusted_hash") {
                Some(TomlValue::Str(h)) => str_eq(h.as_str(), expected_hash),
                _ => false,
            };
            if enabled && hash_ok { Ok(TriState::True) } else { Ok(TriState::False) }
        },
    }
}


/// The hook state reported for a project: present when its `hooks.json`
/// holds a native hook, trusted as Codex's configuration says.
pub fn hook_state(path: String, found: bool, trust: TriState) -> (r: HookState)
    ensures
        r.path == path,
        r.present == found,
        r.trusted == (if found { trust } else { TriState::False }),
{
    HookState { path, present: found, trusted: if found { trust } else { TriState::False } }
}

/// Everything `famp inspect wake` reports for one identity.
#[derive(Debug)]
pub struct WakeReport {
    pub identity: String,
    pub holder_kind: HolderKind,
    pub holder_pid: Option<u32>,
    pub broker_listen: bool,
    pub hook: HookState,
    pub configured: bool,
    pub armed: TriState,
    pub loaded: TriState,
    pub parked: bool,
    pub wake_ready: TriState,
    pub reason: String,
    pub remediation: Option<String>,
}

/// Assembles the report. The hook is configured when present and trusted;
/// a CLI holder is never armed (an MCP holder proves registration, not this
/// window's correlation); a present hook's load state is unknown, since a
/// waiter carries no provenance.
pub fn wake_report(identity: String, holder_pid: Option<u32>, holder_kind: HolderKind, broker_listen: bool, hook: HookState, parked: bool) -> (r: WakeReport)
    ensures
        r.identity == identity,
        r.holder_pid == holder_pid,
        r.holder_kind == holder_kind,
        r.broker_listen == broker_listen,
        r.parked == parked,
        r.configured == (hook.present && hook.trusted == TriState::True),
        r.armed == (if holder_kind == HolderKind::CliRegister { TriState::False } else { TriState::Unknown }),
        r.loaded == (if hook.present { TriState::Unknown } else { TriState::False }),
        r.wake_ready == readiness_verdict(broker_listen, holder_kind, hook.present, hook.trusted, parked).0,
        r.reason@ == readiness_verdict(broker_listen, holder_kind, hook.present, hook.trusted, parked).1,
        r.remediation matches Some(m) && m@ == readiness_verdict(broker_listen, holder_kind, hook.present, hook.trusted, parked).2,
        r.hook == hook,
{
    let configured = hook.present && hook.trusted == TriState::True;
    let armed = if holder_kind == HolderKind::CliRegister { TriState::False } else { TriState::Unknown };
    let loaded = if hook.present { TriState::Unknown } else { TriState::False };
    let (wake_ready, reason, remediation) = readiness(broker_listen, holder_kind, &hook, parked);
    WakeReport {
        identity,
        holder_kind,
        holder_pid,
        broker_listen,
        hook,
        configured,
        armed,
        loaded,
        parked,
        wake_ready,
        reason,
        remediation,
    }
}

pub open spec fn tri_label(t: TriState) -> Seq<char> {
    match t {
        TriState::True => "true"@,
        TriState::False => "false"@,
        TriState::Unknown => "unknown"@,
    }
}

pub open spec fn holder_label(h: HolderKind) -> Seq<char> {
    match h {
        HolderKind::Mcp => "mcp"@,
        HolderKind::CliRegister => "cli_register"@,
        HolderKind::Other => "other"@,
        HolderKind::Unknown => "unknown"@,
    }
}

pub open spec fn bool_text(b: bool) -> Seq<char> {
    if b { "true"@ } else { "false"@ }
}

/// The snake-case name of a tri-state, as the JSON report spells it.
pub fn tri_state_label(t: TriState) -> (r: &'static str)
    ensures
        r@ == tri_label(t),
{
    proof {
        reveal_strlit("true");
        reveal_strlit("false");
        reveal_strlit("unknown");
    }
    match t {
        TriState::True => "true",
        TriState::False => "false",
        TriState::Unknown => "unknown",
    }
}

/// The snake-case name of a holder kind, as the JSON report spells it.
pub fn holder_kind_label(h: HolderKind) -> (r: &'static str)
    ensures
        r@ == holder_label(h),
{
    proof {
        reveal_strlit("mcp");
        reveal_strlit("cli_register");
        reveal_strlit("other");
        reveal_strlit("unknown");
    }
    match h {
        HolderKind::Mcp => "mcp",
        HolderKind::CliRegister => "cli_register",
        HolderKind::Other => "other",
        HolderKind::Unknown => "unknown",
    }
}

fn bool_label(b: bool) -> (r: &'static str)
    ensures
        r@ == bool_text(b),
{
    proof {
        reveal_strlit("true");
        reveal_strlit("false");
    }
    if b { "true" } else { "false" }
}

fn line2(a: &str, b: &str) -> (r: String)
    ensures
        r@ == a@ + b@,
{
    let mut s = owned(a);
    s.append(b);
    s
}

/// The human-readable report, one line per field.
pub fn report_lines(r: &WakeReport) -> (lines: Vec<String>)
    ensures
        lines@.len() == 14 + (if r.remediation is Some { 1int } else { 0int }),
        lines@[0]@ == "identity: "@ + r.identity@,
        lines@[1]@ == "broker: healthy"@,
        lines@[2]@ == "delivery: healthy"@,
        lines@[3]@ == "holder: "@ + holder_label(r.holder_kind) + " (pid "@
            + (match r.holder_pid { Some(p) => decimal(p as nat), None => "unknown"@ }) + ")"@,
        lines@[4]@ == "broker_listen: "@ + bool_text(r.broker_listen),
        lines@[5]@ == "host_adapter: codex"@,
        lines@[6]@ == "stop_hook: "@ + (if r.hook.present { "present"@ } else { "missing"@ }) + " ("@ + r.hook.path@ + ")"@,
        lines@[7]@ == "hook_trusted: "@ + tri_label(r.hook.trusted),
        lines@[8]@ == "configured: "@ + bool_text(r.configured),
        lines@[9]@ == "armed: "@ + tri_label(r.armed),
        lines@[10]@ == "loaded: "@ + tri_label(r.loaded),
        lines@[11]@ == "parked: "@ + bool_text(r.parked),
        lines@[12]@ == "wake_ready: "@ + tri_label(r.wake_ready),
        lines@[13]@ == "reason: "@ + r.reason@,
        r.remediation matches Some(m) ==> lines@[14]@ == "remediation: "@ + m@,
{
    let mut out: Vec<String> = Vec::new();
    out.push(line2("identity: ", r.identity.as_str()));
    out.push(owned("broker: healthy"));
    out.push(owned("delivery: healthy"));
    let mut h = line2("holder: ", holder_kind_label(r.holder_kind));
    h.append(" (pid ");
    match r.holder_pid {
        Some(p) => {
            let d = u64_to_decimal(p as u64);
            h.append(d.as_str());
        },
        None => h.append("unknown"),
    }
    h.append(")");
    out.push(h);
    out.push(line2("broker_listen: ", bool_label(r.broker_listen)));
    out.push(owned("host_adapter: codex"));
    let mut sh = line2("stop_hook: ", if r.hook.present { "present" } else { "missing" });
    proof {
        reveal_strlit("present");
        reveal_strlit("missing");
    }
    sh.append(" (");
    sh.append(r.hook.path.as_str());
    sh.append(")");
    out.push(sh);
    out.push(line2("hook_trusted: ", tri_state_label(r.hook.trusted)));
    out.push(line2("configured: ", bool_label(r.configured)));
    out.push(line2("armed: ", tri_state_label(r.armed)));
    out.push(line2("loaded: ", tri_state_label(r.loaded)));
    out.push(line2("parked: ", bool_label(r.parked)));
    out.push(line2("wake_ready: ", tri_state_label(r.wake_ready)));
    out.push(line2("reason: ", r.reason.as_str()));
    if let Some(m) = &r.remediation {
        out.push(line2("remediation: ", m.as_str()));
    }
    out
}

} // verus!
