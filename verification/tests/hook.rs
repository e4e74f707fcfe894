use famp::hook::codex_rollout::{
    is_path_within, is_rollout_file_name, newest_rollout, resolve_codex_homes, resolve_rollout_path_with_home,
    sessions_root, state_databases,
};
use famp::hook::codex_stop::{
    is_observe_only, listen_identity, needs_pid_fallback, transcript_source, transcript_verdict, TranscriptSource,
    TranscriptVerdict,
};
use famp::hook::emit::{block_decision_line, block_reason, build_reason, unread_for, AwaitOutcome, Mailbox};
use famp::hook::lock::{existing_lock_step, lock_file_path, parse_pid_text, LockStep};
use famp::hook::pid_fallback::{
    continues_ancestry, identity_is_listen, is_sibling_mcp, ppid_from_status, unique_session_name_for_pids,
};
use famp::hook::stdin::{parse_stop_hook_json, StopHookInput};
use famp::hook::transcript::{
    extract_listen_identity, extract_listen_state, validate_identity, validate_sender, ListenState,
};
use famp::json::{parse_json, JsonValue};

fn identity(body: &str) -> Option<String> {
    extract_listen_identity(Some(body), false)
}

fn state(body: &str) -> ListenState {
    extract_listen_state(Some(body), false)
}

const REGISTER_DK_ON: &str = r#"{"type":"assistant","message":{"role":"assistant","content":[{"type":"tool_use","id":"t1","name":"mcp__famp__famp_register","input":{"identity":"dk","listen":true}}]}}
{"type":"user","message":{"role":"user","content":[{"type":"tool_result","tool_use_id":"t1","is_error":false,"content":"ok"}]}}
"#;

const REGISTER_DK_OFF: &str = r#"{"type":"assistant","message":{"role":"assistant","content":[{"type":"tool_use","id":"t1","name":"mcp__famp__famp_register","input":{"identity":"dk","listen":false}}]}}
{"type":"user","message":{"role":"user","content":[{"type":"tool_result","tool_use_id":"t1","is_error":false,"content":"ok"}]}}
"#;

#[test]
fn claude_listen_true_register() {
    assert_eq!(identity(REGISTER_DK_ON).as_deref(), Some("dk"));
}

#[test]
fn claude_listen_false_is_none() {
    assert_eq!(identity(REGISTER_DK_OFF), None);
}

#[test]
fn claude_set_listen_false_cancels() {
    let body = format!(
        "{REGISTER_DK_ON}{}",
        r#"{"type":"assistant","message":{"role":"assistant","content":[{"type":"tool_use","id":"t2","name":"mcp__famp__famp_set_listen","input":{"listen":false}}]}}
{"type":"user","message":{"role":"user","content":[{"type":"tool_result","tool_use_id":"t2","is_error":false,"content":"ok"}]}}
"#
    );
    assert_eq!(identity(&body), None);
}

#[test]
fn listen_absent_defaults_on() {
    let body = r#"{"type":"assistant","message":{"role":"assistant","content":[{"type":"tool_use","id":"t1","name":"mcp__famp__famp_register","input":{"identity":"dk"}}]}}
{"type":"user","message":{"role":"user","content":[{"type":"tool_result","tool_use_id":"t1","is_error":false,"content":"ok"}]}}
"#;
    assert_eq!(identity(body).as_deref(), Some("dk"));
}

#[test]
fn codex_mcp_tool_call_end() {
    let body = r#"{"type":"event_msg","payload":{"type":"mcp_tool_call_end","call_id":"call_register","invocation":{"server":"famp","tool":"famp_register","arguments":{"identity":"codex","listen":true}},"result":{"Ok":{"content":[{"type":"text","text":"ok"}],"isError":false}}}}
"#;
    assert_eq!(identity(body).as_deref(), Some("codex"));
}

#[test]
fn codex_foreign_mcp_server_cannot_arm_listen() {
    let body = r#"{"type":"event_msg","payload":{"type":"mcp_tool_call_end","call_id":"call_evil","invocation":{"server":"evil","tool":"evil__famp_register","arguments":{"identity":"attacker","listen":true}},"result":{"Ok":{"content":[],"isError":false}}}}
"#;
    assert_eq!(identity(body), None);
    assert!(matches!(state(body), ListenState::Unresolved));
}

#[test]
fn codex_empty_mcp_server_still_resolves() {
    let body = r#"{"type":"event_msg","payload":{"type":"mcp_tool_call_end","call_id":"call_register","invocation":{"tool":"famp_register","arguments":{"identity":"codex","listen":true}},"result":{"Ok":{"content":[],"isError":false}}}}
"#;
    assert_eq!(identity(body).as_deref(), Some("codex"));
}

#[test]
fn codex_set_listen_false_cancels() {
    let body = r#"{"type":"event_msg","payload":{"type":"mcp_tool_call_end","call_id":"call_register","invocation":{"server":"famp","tool":"famp_register","arguments":{"identity":"codex","listen":true}},"result":{"Ok":{"content":[],"isError":false}}}}
{"type":"event_msg","payload":{"type":"mcp_tool_call_end","call_id":"call_set","invocation":{"server":"famp","tool":"famp_set_listen","arguments":{"listen":false}},"result":{"Ok":{"content":[],"isError":false}}}}
"#;
    assert_eq!(identity(body), None);
}

#[test]
fn validate_identity_rules() {
    assert!(validate_identity("dk"));
    assert!(validate_identity("a.b_c-1"));
    assert!(!validate_identity(""));
    assert!(!validate_identity("has space"));
    assert!(!validate_identity("has\nnewline"));
}

#[test]
fn validate_sender_rules() {
    assert!(validate_sender("agent:local.bus/alice"));
    assert!(validate_sender("a@b"));
    assert!(!validate_sender(""));
    assert!(!validate_sender("bad sender"));
    assert!(!validate_sender(&"x".repeat(129)));
    assert!(validate_sender(&"x".repeat(128)));
}

#[test]
fn invalid_utf8_early_line_still_resolves_identity() {
    let mut bytes: Vec<u8> = Vec::new();
    bytes.extend_from_slice(b"garbage-line-with-invalid-utf8:");
    bytes.push(0xFF);
    bytes.push(b'\n');
    bytes.extend_from_slice(REGISTER_DK_ON.as_bytes());
    let text = String::from_utf8_lossy(&bytes);
    assert_eq!(identity(&text).as_deref(), Some("dk"));
}

#[test]
fn listen_state_active_when_registered_on() {
    assert_eq!(state(REGISTER_DK_ON), ListenState::Active("dk".to_string()));
}

#[test]
fn listen_state_explicitly_off_when_register_listen_false() {
    assert_eq!(state(REGISTER_DK_OFF), ListenState::ExplicitlyOff);
}

#[test]
fn listen_state_unresolved_when_set_listen_true_without_register_compaction_guard() {
    let body = r#"{"type":"assistant","message":{"role":"assistant","content":[{"type":"tool_use","id":"t1","name":"mcp__famp__famp_set_listen","input":{"listen":true}}]}}
{"type":"user","message":{"role":"user","content":[{"type":"tool_result","tool_use_id":"t1","is_error":false,"content":"ok"}]}}
"#;
    assert_eq!(state(body), ListenState::Unresolved);
}

#[test]
fn listen_state_active_when_set_listen_true_reactivates_after_register_listen_false() {
    let body = format!(
        "{REGISTER_DK_OFF}{}",
        r#"{"type":"assistant","message":{"role":"assistant","content":[{"type":"tool_use","id":"t2","name":"mcp__famp__famp_set_listen","input":{"listen":true}}]}}
{"type":"user","message":{"role":"user","content":[{"type":"tool_result","tool_use_id":"t2","is_error":false,"content":"ok"}]}}
"#
    );
    assert_eq!(state(&body), ListenState::Active("dk".to_string()));
}

#[test]
fn listen_state_unresolved_when_no_control_action() {
    let body = "{\"type\":\"assistant\",\"message\":{\"role\":\"assistant\",\"content\":[]}}\n";
    assert_eq!(state(body), ListenState::Unresolved);
}

#[test]
fn listen_state_unresolved_when_file_missing() {
    assert_eq!(extract_listen_state(None, false), ListenState::Unresolved);
}

#[test]
fn failed_register_call_is_ignored() {
    let body = r#"{"type":"assistant","message":{"role":"assistant","content":[{"type":"tool_use","id":"t1","name":"mcp__famp__famp_register","input":{"identity":"dk","listen":true}}]}}
{"type":"user","message":{"role":"user","content":[{"type":"tool_result","tool_use_id":"t1","is_error":true,"content":"no"}]}}
"#;
    assert_eq!(state(body), ListenState::Unresolved);
}

#[test]
fn parses_snake_case() {
    let i = parse_stop_hook_json(r#"{"transcript_path":"/t.jsonl","session_id":"abc","reason":"end_turn"}"#);
    assert_eq!(i.transcript_path.as_deref(), Some("/t.jsonl"));
    assert_eq!(i.session_id.as_deref(), Some("abc"));
    assert_eq!(i.reason.as_deref(), Some("end_turn"));
}

#[test]
fn parses_camel_case() {
    let i = parse_stop_hook_json(r#"{"transcriptPath":"/t.jsonl","sessionId":"xyz"}"#);
    assert_eq!(i.transcript_path.as_deref(), Some("/t.jsonl"));
    assert_eq!(i.session_id.as_deref(), Some("xyz"));
}

#[test]
fn malformed_is_empty() {
    assert_eq!(parse_stop_hook_json("not-json"), StopHookInput::empty());
}

#[test]
fn agent_reason_single() {
    let r = build_reason(1, "alice", "agent", "bob");
    assert!(r.contains("New FAMP message from alice"));
    assert!(r.contains("famp_inbox"));
    assert!(!r.contains("alice's body"));
}

#[test]
fn channel_reason_multi() {
    let r = build_reason(3, "alice", "channel", "planning");
    assert!(r.contains("#planning"));
    assert!(r.contains("3 new"));
    assert!(r.contains("famp_channel_log"));
}

#[test]
fn reason_texts_are_exact() {
    assert_eq!(
        build_reason(1, "alice", "agent", "bob"),
        "[FAMP listen mode] New FAMP message from alice. Call famp_inbox to read it."
    );
    assert_eq!(
        build_reason(2, "bob", "channel", "#ops"),
        "[FAMP listen mode] 2 new FAMP messages in channel #ops, latest from bob. Call famp_channel_log({channel: '#ops'}) to read them."
    );
}

fn envelope(text: &str) -> JsonValue {
    parse_json(text).unwrap()
}

fn outcome(envelopes: Vec<JsonValue>, mailbox: Option<Mailbox>) -> AwaitOutcome {
    AwaitOutcome { envelopes, mailbox, next_offset: None, timed_out: false, diagnostic: None, aborted: false }
}

#[test]
fn empty_or_timed_out_outcome_gives_no_reason() {
    let mut o = outcome(vec![], None);
    o.timed_out = true;
    assert_eq!(block_reason(&o, None), None);
    let mut o = outcome(vec![envelope(r#"{"from":"alice","class":"request"}"#)], Some(Mailbox::Agent("dk".into())));
    o.aborted = true;
    assert_eq!(block_reason(&o, None), None);
}

#[test]
fn agent_wake_uses_disk_unread_count_and_sender() {
    let o = outcome(vec![envelope(r#"{"from":"alice","class":"request"}"#)], Some(Mailbox::Agent("dk".into())));
    let r = block_reason(&o, Some((4, "carol".to_string()))).unwrap();
    assert!(r.contains("4 new FAMP messages, latest from carol"), "{r}");
    assert_eq!(block_reason(&o, Some((0, "carol".to_string()))), None);
    let r = block_reason(&o, None).unwrap();
    assert!(r.contains("from alice"), "{r}");
}

#[test]
fn block_decision_is_compact_json() {
    let line = block_decision_line("wake up");
    assert_eq!(line, r#"{"decision":"block","reason":"wake up"}"#);
}

#[test]
fn unread_for_picks_the_identity_row() {
    let rows = vec![
        ("bob".to_string(), 2, "x".to_string()),
        ("dk".to_string(), 3, "(none)".to_string()),
    ];
    assert_eq!(unread_for(&rows, "dk"), Some((3, "unknown".to_string())));
    assert_eq!(unread_for(&rows, "bob"), Some((2, "x".to_string())));
    assert_eq!(unread_for(&rows, "eve"), None);
}

#[test]
fn lock_path_and_pid_text() {
    assert_eq!(lock_file_path("/tmp/locks", "dk"), "/tmp/locks/dk.lock");
    assert_eq!(parse_pid_text(" 1234\n"), Some(1234));
    assert_eq!(parse_pid_text("abc"), None);
    assert_eq!(parse_pid_text(""), None);
    assert_eq!(parse_pid_text("4294967296"), None);
}

#[test]
fn second_acquire_while_first_alive_returns_none() {
    assert_eq!(existing_lock_step(Some(42), true), LockStep::Busy);
    assert_eq!(existing_lock_step(Some(42), false), LockStep::Reclaim);
    assert_eq!(existing_lock_step(None, true), LockStep::Reclaim);
}

#[test]
fn pid_fallback_reads_ppid_and_siblings() {
    assert_eq!(ppid_from_status("Name:\tfamp\nPPid:\t77\nUid:\t1\n"), Some(77));
    assert_eq!(ppid_from_status("Name:\tfamp\n"), None);
    assert!(is_sibling_mcp(10, &[10, 1], "/usr/bin/famp mcp"));
    assert!(!is_sibling_mcp(11, &[10, 1], "/usr/bin/famp mcp"));
    assert!(!continues_ancestry(1));
    assert!(!continues_ancestry(0));
    assert!(continues_ancestry(2));
    let rows = vec![("dk".to_string(), 5), ("bob".to_string(), 6)];
    assert_eq!(unique_session_name_for_pids(&rows, &[5]), Some("dk".to_string()));
    assert_eq!(unique_session_name_for_pids(&rows, &[5, 6]), None);
    assert_eq!(unique_session_name_for_pids(&rows, &[7]), None);
    assert!(identity_is_listen(&[("dk".to_string(), true)], "dk"));
    assert!(!identity_is_listen(&[("dk".to_string(), false)], "dk"));
}

#[test]
fn codex_rollout_resolution() {
    assert_eq!(
        resolve_codex_homes("s1", Some("/home/u"), None, None),
        Some(("/home/u/.codex".to_string(), "/home/u/.codex".to_string()))
    );
    assert_eq!(resolve_codex_homes("", Some("/home/u"), None, None), None);
    assert_eq!(
        state_databases("/c", "/s"),
        vec!["/s/state_5.sqlite".to_string(), "/c/state_5.sqlite".to_string()]
    );
    assert_eq!(sessions_root("/c"), "/c/sessions");
    assert!(is_rollout_file_name("rollout-2024-abc.jsonl", "abc"));
    assert!(!is_rollout_file_name("rollout-2024-abc.json", "abc"));
    assert!(is_path_within("/c/sessions/2024/x.jsonl", "/c/sessions"));
    assert!(!is_path_within("/c/sessions2/x.jsonl", "/c/sessions"));
    assert_eq!(
        newest_rollout(&[((1, 0), "a".to_string()), ((2, 0), "b".to_string()), ((2, 0), "c".to_string())]),
        Some("b".to_string())
    );
    let hits = [None, Some(("/c/sessions/r.jsonl".to_string(), true))];
    assert_eq!(
        resolve_rollout_path_with_home("s", "/c", &hits, Some("/c/sessions/other.jsonl".to_string())),
        Some("/c/sessions/r.jsonl".to_string())
    );
    assert_eq!(
        resolve_rollout_path_with_home("s", "/c", &[Some(("/etc/x".to_string(), false))], Some("/c/sessions/n.jsonl".to_string())),
        Some("/c/sessions/n.jsonl".to_string())
    );
}

#[test]
fn codex_stop_decisions() {
    let input = parse_stop_hook_json(r#"{"session_id":"s","reason":"session_end"}"#);
    assert!(is_observe_only(&input));
    assert!(!is_observe_only(&parse_stop_hook_json(r#"{"reason":"end_turn"}"#)));
    assert!(matches!(transcript_source(&input, false), TranscriptSource::Session(s) if s == "s"));
    let with_path = parse_stop_hook_json(r#"{"transcript_path":"/t.jsonl"}"#);
    assert!(matches!(transcript_source(&with_path, true), TranscriptSource::Path(p) if p == "/t.jsonl"));
    assert!(matches!(transcript_source(&with_path, false), TranscriptSource::Missing));

    let off = transcript_verdict(Some(ListenState::ExplicitlyOff));
    assert!(!needs_pid_fallback(&off));
    assert_eq!(listen_identity(off, Some("dk".to_string())), None);
    let none = transcript_verdict(None);
    assert!(needs_pid_fallback(&none));
    assert_eq!(listen_identity(none, Some("dk".to_string())), Some("dk".to_string()));
    assert_eq!(listen_identity(TranscriptVerdict::Armed("bad name".into()), None), None);
}
