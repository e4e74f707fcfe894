use famp::await_cmd::{extract_task_id, find_match, outcome_json, timeout_diagnostic};
use famp::hook::emit::{AwaitOutcome, Mailbox};
use famp::hook::log::{hook_log_path, log_line};
use famp::json::{parse_json, render_json_compact};
use famp::mailbox::{budget_exceeded_payload, cursor_body, cursor_file, drain_from_bytes, mailbox_file};

#[test]
fn task_ids_come_from_id_or_causality() {
    let req = parse_json(r#"{"class":"request","id":"T1"}"#).unwrap();
    assert_eq!(extract_task_id(&req), Some("T1".to_string()));
    let reply = parse_json(r#"{"class":"deliver","id":"X","causality":{"ref":"T1"}}"#).unwrap();
    assert_eq!(extract_task_id(&reply), Some("T1".to_string()));
    let ack = parse_json(r#"{"class":"ack"}"#).unwrap();
    assert_eq!(extract_task_id(&ack), None);
}

#[test]
fn find_match_skips_requests_under_a_task_filter() {
    let entries = vec![
        (parse_json(r#"{"class":"request","id":"T1","from":"a","body":{"x":1}}"#).unwrap(), 10),
        (parse_json(r#"{"class":"commit","from":"b","causality":{"ref":"T2"}}"#).unwrap(), 20),
        (parse_json(r#"{"class":"deliver","from":"c","causality":{"ref":"T1"},"body":[1,2]}"#).unwrap(), 30),
    ];
    let (out, off) = find_match(&entries, Some("T1")).unwrap();
    assert_eq!(off, 30);
    assert_eq!(render_json_compact(&out), r#"{"body":[1,2],"class":"deliver","from":"c","offset":30,"task_id":"T1"}"#);
    let (first, off) = find_match(&entries, None).unwrap();
    assert_eq!(off, 10);
    assert_eq!(render_json_compact(&first), r#"{"body":{"x":1},"class":"request","from":"a","offset":10,"task_id":"T1"}"#);
    assert!(find_match(&entries, Some("T9")).is_none());
    let (c, _) = find_match(&entries, Some("T2")).unwrap();
    assert_eq!(render_json_compact(&c), r#"{"body":null,"class":"commit","from":"b","offset":20,"task_id":"T2"}"#);
}

fn outcome() -> AwaitOutcome {
    AwaitOutcome { envelopes: vec![], mailbox: None, next_offset: None, timed_out: false, diagnostic: None, aborted: false }
}

#[test]
fn outcome_lines() {
    let mut aborted = outcome();
    aborted.aborted = true;
    assert_eq!(render_json_compact(&outcome_json(&aborted)), r#"{"aborted":true}"#);
    let mut timeout = outcome();
    timeout.timed_out = true;
    assert_eq!(render_json_compact(&outcome_json(&timeout)), r#"{"timeout":true}"#);
    timeout.diagnostic = Some("why".into());
    assert_eq!(render_json_compact(&outcome_json(&timeout)), r#"{"diagnostic":"why","timeout":true}"#);
    let mut got = outcome();
    got.envelopes = vec![parse_json(r#"{"from":"a"}"#).unwrap()];
    got.mailbox = Some(Mailbox::Channel("#ops".into()));
    got.next_offset = Some(42);
    assert_eq!(
        render_json_compact(&outcome_json(&got)),
        r##"{"envelopes":[{"from":"a"}],"mailbox":{"kind":"channel","name":"#ops"},"next_offset":42}"##
    );
}

#[test]
fn timeout_diagnostic_mentions_inbox_and_task() {
    let plain = timeout_diagnostic("dk", None, false);
    assert!(plain.starts_with("await timed out waiting for a new message. Run `famp inbox list --as dk --include-terminal`"));
    let present = timeout_diagnostic("dk", Some("T1"), true);
    assert!(present.contains("on task T1; a matching reply is already present in the inbox"));
    assert!(present.contains("famp wait-reply --as dk --task <task_id>"));
    let absent = timeout_diagnostic("dk", Some("T1"), false);
    assert!(absent.starts_with("await timed out waiting for new messages on task T1. Run"));
}

#[test]
fn channel_mailbox_path_uses_hash_prefix() {
    assert!(mailbox_file("/tmp/bus", "#planning").ends_with("mailboxes/#planning.jsonl"));
    assert_eq!(cursor_file("/tmp/bus", "alice"), "/tmp/bus/mailboxes/.alice.cursor");
    assert_eq!(cursor_body(4096), "4096\n");
}

#[test]
fn drain_from_missing_file_returns_empty() {
    let (lines, next) = drain_from_bytes(b"", 0);
    assert!(lines.is_empty());
    assert_eq!(next, 0);
}

#[test]
fn drain_returns_complete_lines_and_resumes() {
    let bytes = b"line1\nline2\npart";
    let (lines, next) = drain_from_bytes(bytes, 0);
    assert_eq!(lines, vec![b"line1".to_vec(), b"line2".to_vec()]);
    assert_eq!(next, 12);
    let (again, same) = drain_from_bytes(bytes, next);
    assert!(again.is_empty());
    assert_eq!(same, 12);
    let (mid, n) = drain_from_bytes(bytes, 2);
    assert_eq!(mid, vec![b"line2".to_vec()]);
    assert_eq!(n, 12);
    let (past, end) = drain_from_bytes(bytes, 99);
    assert!(past.is_empty());
    assert_eq!(end, 16);
}

#[test]
fn budget_exceeded_payload_is_kind_tagged_json() {
    assert_eq!(render_json_compact(&budget_exceeded_payload(501)), r#"{"elapsed_ms":501,"kind":"budget_exceeded"}"#);
}

#[test]
fn hook_log_location_and_line() {
    assert_eq!(hook_log_path(Some("/x.log"), Some("/s"), Some("/h")), "/x.log");
    assert_eq!(hook_log_path(None, Some("/s"), Some("/h")), "/s/famp/await-hook.log");
    assert_eq!(hook_log_path(None, None, Some("/h")), "/h/.local/state/famp/await-hook.log");
    assert_eq!(hook_log_path(None, None, None), "/tmp/famp/await-hook.log");
    assert_eq!(log_line(17, 42, "parked"), "[17 pid=42] parked");
}
