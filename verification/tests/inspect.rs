use famp::inspect::table::{column_widths, format_row};
use famp::inspect::wake::{
    classify_cmdline, classify_holder, find_native_hook, hook_in_hooks_file, hook_state, readiness, report_lines,
    trust_from_config, wake_report, HolderKind, HookState, InspectError, TriState,
};
use famp::install::codex::{codex_command_hook_hash, codex_hook_key, CODEX_AWAIT_TIMEOUT_SEC};
use famp::install::codex_trust::seed_codex_hook_trust;
use famp::json::parse_json;

fn trusted_hook() -> HookState {
    HookState { path: "hooks.json".into(), present: true, trusted: TriState::True }
}

#[test]
fn classifies_mcp_and_cli_holders() {
    assert_eq!(classify_cmdline("/opt/bin/famp mcp"), HolderKind::Mcp);
    assert_eq!(classify_cmdline("/opt/bin/famp register alice --tail"), HolderKind::CliRegister);
    assert_eq!(classify_cmdline("/usr/bin/python server.py"), HolderKind::Other);
    assert_eq!(classify_holder(None), HolderKind::Unknown);
}

#[test]
fn cli_tail_is_never_codex_ready() {
    let (ready, reason, _) = readiness(true, HolderKind::CliRegister, &trusted_hook(), false);
    assert_eq!(ready, TriState::False);
    assert!(reason.contains("cannot bind"));
}

#[test]
fn configured_mcp_without_waiter_is_unknown_not_false() {
    let (ready, reason, _) = readiness(true, HolderKind::Mcp, &trusted_hook(), false);
    assert_eq!(ready, TriState::Unknown);
    assert!(reason.contains("turn may be active"));
}

#[test]
fn generic_waiter_cannot_prove_codex_hook_loaded() {
    let (ready, reason, _) = readiness(true, HolderKind::Mcp, &trusted_hook(), true);
    assert_eq!(ready, TriState::Unknown);
    assert!(reason.contains("waiter provenance"));
}

#[test]
fn listen_false_is_explicitly_disabled() {
    let (ready, reason, _) = readiness(false, HolderKind::Mcp, &trusted_hook(), true);
    assert_eq!(ready, TriState::False);
    assert!(reason.contains("disabled"));
}

#[test]
fn missing_or_untrusted_hook_is_not_ready() {
    let absent = HookState { path: "hooks.json".into(), present: false, trusted: TriState::False };
    assert_eq!(readiness(true, HolderKind::Mcp, &absent, true).0, TriState::False);
    let stale = HookState { path: "hooks.json".into(), present: true, trusted: TriState::False };
    assert_eq!(readiness(true, HolderKind::Mcp, &stale, true).0, TriState::False);
}

#[test]
fn non_command_handler_is_not_a_native_hook() {
    let hook = parse_json(&format!(
        r#"{{"hooks": {{"Stop": [{{"hooks": [{{"type": "prompt", "command": "/opt/famp hook codex-stop", "timeout": {CODEX_AWAIT_TIMEOUT_SEC}}}]}}]}}}}"#
    ))
    .unwrap();
    assert!(find_native_hook(&hook).is_none());
}

#[test]
fn native_hook_and_matching_trust_are_configured() {
    let hooks_path = "/work/project/.codex/hooks.json";
    let command = "/opt/famp hook codex-stop";
    let hooks_text = format!(
        r#"{{"hooks": {{"Stop": [{{"hooks": [{{"type": "command", "command": "{command}", "timeout": {CODEX_AWAIT_TIMEOUT_SEC}}}]}}]}}}}"#
    );
    let found = hook_in_hooks_file(Some(&hooks_text)).unwrap().unwrap();
    assert_eq!(found, (0, 0, command.to_string(), CODEX_AWAIT_TIMEOUT_SEC));

    let key = codex_hook_key(hooks_path, "stop", 0, 0);
    let hash = codex_command_hook_hash("stop", command, CODEX_AWAIT_TIMEOUT_SEC);
    let config = "[mcp_servers.famp]\ncommand = \"/opt/famp\"\n";
    let (_, written) = seed_codex_hook_trust(Some(config), &key, &hash).unwrap();
    let written = written.unwrap();
    assert!(written.contains("[mcp_servers.famp]"));
    assert_eq!(trust_from_config(Some(&written), &key, &hash).unwrap(), TriState::True);
    assert_eq!(trust_from_config(Some(&written), &key, "sha256:other").unwrap(), TriState::False);
    assert_eq!(trust_from_config(None, &key, &hash).unwrap(), TriState::False);
    assert!(matches!(trust_from_config(Some("not = [toml"), &key, &hash), Err(InspectError::ConfigParse)));
    assert!(matches!(hook_in_hooks_file(Some("{not json")), Err(InspectError::HooksParse)));
    assert_eq!(hook_in_hooks_file(None).unwrap(), None);
}

#[test]
fn wake_report_is_never_ready_and_renders_each_field() {
    let hook = hook_state("hooks.json".to_string(), true, TriState::True);
    let report = wake_report("dk".to_string(), Some(7), HolderKind::Mcp, true, hook, true);
    assert_eq!(report.wake_ready, TriState::Unknown);
    assert!(report.configured);
    let lines = report_lines(&report);
    assert!(lines.iter().any(|l| l.contains("dk")), "{lines:?}");
}

#[test]
fn table_rows_are_padded_to_column_widths() {
    let headers = vec!["ID".to_string(), "STATE".to_string()];
    let rows = vec![vec!["abc".to_string(), "open".to_string()], vec!["d".to_string(), "x".to_string()]];
    let widths = column_widths(&headers, &rows);
    assert_eq!(widths, vec![3, 5]);
    assert_eq!(format_row(&headers, &widths), "ID   STATE");
    assert_eq!(format_row(&rows[1], &widths), "d    x");
}

use famp::inspect::render::{
    classify_broker, format_unix, render_broker_human, render_messages, render_messages_reply, render_task_detail,
    render_tasks, render_tasks_reply, render_waiters, broker_exit_code, BrokerObservation, EnvelopeRow, MessageRow,
    MessagesReply, PidSource, TaskRow, TasksReply, WaiterRow,
};

fn message() -> MessageRow {
    MessageRow {
        sender: "agent:local.bus/alice".into(),
        recipient: "agent:local.bus/bob".into(),
        task_id: "019d9ba2-2d30-7ae2-ba77-9e55863ac7f7".into(),
        class: "deliver".into(),
        state: "COMMITTED".into(),
        timestamp: "2026-05-10T18:00:00Z".into(),
        body_bytes: 42,
        body_sha256_prefix: "a1b2c3d4e5f6".into(),
    }
}

#[test]
fn message_table_has_metadata_headers_and_no_body_column() {
    let rendered = render_messages(&[message()]);
    let header = rendered.lines().next().unwrap_or_default();
    assert!(header.contains("BODY_BYTES"));
    assert!(header.contains("SHA256_PREFIX"));
    assert!(!header.split_whitespace().any(|column| column == "BODY"));
    assert!(rendered.lines().nth(1).unwrap().contains(" 42 "));
}

#[test]
fn empty_message_list_prints_only_header() {
    let rendered = render_messages(&[]);
    assert_eq!(rendered.lines().count(), 1);
}

#[test]
fn messages_budget_exceeded_maps_to_exit_one() {
    let err = render_messages_reply(&MessagesReply::BudgetExceeded { elapsed_ms: 500 }).expect_err("budget must fail");
    assert_eq!(err.code, 1);
    assert_eq!(err.message, "error: inspect timed out after 500ms");
}

fn row(task_id: &str, state: &str, orphan: bool) -> TaskRow {
    TaskRow {
        task_id: task_id.into(),
        state: state.into(),
        peer: "agent:local.bus/peer".into(),
        opened_at_unix_seconds: 1_700_000_000,
        last_send_at_unix_seconds: None,
        last_recv_at_unix_seconds: None,
        terminal: false,
        envelope_count: 1,
        last_transition_age_seconds: 5,
        orphan,
    }
}

#[test]
fn list_table_has_required_headers_and_two_rows() {
    let rows = vec![
        row("019d9ba2-2d30-7ae2-ba77-9e55863ac7f7", "COMMITTED", false),
        row("00000000-0000-0000-0000-000000000000", "REQUESTED", true),
    ];
    let rendered = render_tasks(&rows, false);
    for h in ["TASK_ID", "STATE", "PEER", "ENVELOPES", "LAST_TRANSITION_AGE", "ORPHAN"] {
        assert!(rendered.contains(h));
    }
    assert_eq!(rendered.lines().count(), 3);
    assert!(rendered.contains("2023-11-14T22:13:20Z"), "{rendered}");
    assert!(rendered.contains("5s"));
}

#[test]
fn tasks_budget_exceeded_maps_to_exit_one() {
    let err = render_tasks_reply(&TasksReply::BudgetExceeded { elapsed_ms: 500 }, false).expect_err("budget must fail");
    assert_eq!(err.code, 1);
}

#[test]
fn orphan_column_value_renders_true_for_orphan_row() {
    let rendered = render_tasks(&[row("00000000-0000-0000-0000-000000000000", "REQUESTED", true)], false);
    assert!(rendered.contains("ORPHAN"));
    let data_rows: Vec<&str> = rendered.lines().skip(1).collect();
    assert!(!data_rows.is_empty());
    assert!(data_rows.join("\n").contains("true"));
}

#[test]
fn orphans_only_filter_excludes_non_orphan_rows() {
    let rows = vec![
        row("019d9ba2-2d30-7ae2-ba77-9e55863ac7f7", "COMMITTED", false),
        row("00000000-0000-0000-0000-000000000000", "REQUESTED", true),
    ];
    let unfiltered = render_tasks(&rows, false);
    let filtered = render_tasks(&rows, true);
    assert_eq!(unfiltered.lines().count(), 3);
    assert_eq!(filtered.lines().count(), 2);
    assert!(filtered.contains("00000000-0000-0000-0000-000000000000"));
    assert!(!filtered.contains("019d9ba2-2d30-7ae2-ba77-9e55863ac7f7"));
}

#[test]
fn task_detail_names_the_task_then_lists_envelopes() {
    let envs = vec![EnvelopeRow {
        envelope_id: "e1".into(),
        sender: "a".into(),
        recipient: "b".into(),
        fsm_transition: "REQUESTED->COMMITTED".into(),
        timestamp: "t".into(),
        sig_verified: true,
    }];
    let text = render_task_detail("t-1", &envs);
    assert!(text.starts_with("task_id: t-1\n\nENVELOPE_ID"));
    assert!(text.ends_with("true"));
    let via_reply = render_tasks_reply(&TasksReply::Detail { task_id: "t-1".into(), envelopes: envs }, false).unwrap();
    assert_eq!(via_reply, text);
}

#[test]
fn unix_time_formats_as_rfc3339_or_decimal() {
    assert_eq!(format_unix(0), "1970-01-01T00:00:00Z");
    assert_eq!(format_unix(u64::MAX), u64::MAX.to_string());
}

#[test]
fn waiters_table_or_placeholder() {
    assert_eq!(render_waiters(&[]), "NAME  MAILBOX  CURSOR  DEADLINE_MS\n(no active waiters)");
    let text = render_waiters(&[WaiterRow { name: "dk".into(), mailbox: "dk".into(), cursor: 12, deadline_ms: 3000 }]);
    assert_eq!(text.lines().count(), 2);
    assert!(text.lines().nth(1).unwrap().starts_with("dk"));
}

#[test]
fn broker_states_render_and_exit() {
    let healthy = classify_broker(
        "/s",
        BrokerObservation::Answered { pid: 5, socket_path: "/s".into(), started_at_unix_seconds: 0, build_version: "b1".into() },
        (None, PidSource::Unknown),
    );
    assert_eq!(broker_exit_code(&healthy), 0);
    assert_eq!(render_broker_human(&healthy), "state: HEALTHY pid=5 socket=/s started_at=1970-01-01T00:00:00Z build=b1");
    let orphan = classify_broker("/s", BrokerObservation::HelloRejected("proto".into()), (Some(9), PidSource::Lsof));
    assert_eq!(broker_exit_code(&orphan), 1);
    assert_eq!(
        render_broker_human(&orphan),
        "state: ORPHAN_HOLDER socket=/s holder_pid=9 pid_source=lsof evidence=hello_rejected: proto"
    );
    let down = classify_broker("/s", BrokerObservation::DownClean, (None, PidSource::Unknown));
    assert_eq!(render_broker_human(&down), "state: DOWN_CLEAN socket=/s evidence=no_socket_file");
}
