use famp::bus::{frame_len, FrameError, MAX_FRAME_BYTES};
use famp::daemon::install::DaemonError;
use famp::daemon::restart::{launchctl_step, macos_restart_precondition};
use famp::daemon::status::{platform_service_path, Platform};
use famp::duration::{duration_millis, parse_duration, resolve_hook_timeout, DurationError};
use famp::hook::codex_stop::{await_delivers, backup_dir, backup_file_name};
use famp::hook::emit::AwaitOutcome;
use famp::hook::lock::lock_state_dir;
use famp::hook::transcript::tail_offset;
use famp::init::InitError;
use famp::executable::{CandidateSource, FampExecutableError};
use famp::json::parse_json;

#[test]
fn frame_prefix_bounds() {
    assert_eq!(frame_len([0, 0, 0, 0]), Err(FrameError::EmptyFrame));
    assert_eq!(frame_len([0, 0, 1, 0]), Ok(256));
    assert_eq!(frame_len([1, 0, 0, 0]), Ok(MAX_FRAME_BYTES));
    assert_eq!(frame_len([1, 0, 0, 1]), Err(FrameError::FrameTooLarge(16_777_217)));
}

#[test]
fn restart_and_service_steps() {
    assert!(macos_restart_precondition(true, true).is_ok());
    assert!(matches!(macos_restart_precondition(true, false), Err(DaemonError::NotInstalled)));
    assert!(matches!(launchctl_step(false, None), Err(DaemonError::LaunchctlFailed(-1))));
    assert!(launchctl_step(true, Some(0)).is_ok());
    assert_eq!(
        platform_service_path("/Users/a", Platform::MacOs),
        "/Users/a/Library/LaunchAgents/com.famp.broker.plist"
    );
    assert_eq!(
        platform_service_path("/home/a", Platform::Linux),
        "/home/a/.config/systemd/user/famp-broker.service"
    );
}

#[test]
fn durations() {
    assert_eq!(parse_duration("30s").unwrap(), (30, 0));
    assert_eq!(parse_duration("250ms").unwrap(), (0, 250_000_000));
    assert!(matches!(parse_duration("soon"), Err(DurationError::InvalidDuration { value }) if value == "soon"));
    assert_eq!(duration_millis(2, 500_000_000), 2500);
    assert_eq!(duration_millis(u64::MAX, 0), u64::MAX);
    assert_eq!(resolve_hook_timeout(Some((5, 0)), Some("1m")), (5, 0));
    assert_eq!(resolve_hook_timeout(None, Some("1m")), (60, 0));
    assert_eq!(resolve_hook_timeout(None, Some("bogus")), (82_800, 0));
    assert_eq!(resolve_hook_timeout(None, None), (82_800, 0));
}

#[test]
fn hook_state_locations() {
    assert_eq!(lock_state_dir(Some("/s"), Some("/h")), "/s/famp");
    assert_eq!(lock_state_dir(None, Some("/h")), "/h/.local/state/famp");
    assert_eq!(lock_state_dir(None, None), "/tmp/famp");
    assert_eq!(backup_dir(None, Some("/h")), Some("/h/.local/state/famp/received".to_string()));
    assert_eq!(backup_dir(None, None), None);
    assert_eq!(backup_file_name(17, 42), "17-42-native.jsonl");
    assert_eq!(tail_offset(10), 0);
    assert_eq!(tail_offset(2_000_010), 10);
}

#[test]
fn await_delivers_only_a_live_batch() {
    let mut o = famp::hook::emit::AwaitOutcome {
        envelopes: vec![parse_json("{}").unwrap()],
        mailbox: None,
        next_offset: None,
        timed_out: false,
        diagnostic: None,
        aborted: false,
    };
    assert!(await_delivers(&o));
    o.timed_out = true;
    assert!(!await_delivers(&o));
}

#[test]
fn error_messages() {
    assert_eq!(InitError::HomeNotSet.message(), "FAMP_HOME is not set and $HOME is not set");
    assert_eq!(
        InitError::AlreadyInitialized { existing_files: vec!["a".into(), "b".into()] }.message(),
        "FAMP_HOME already initialized (2 existing files); pass --force to overwrite"
    );
    assert_eq!(
        FampExecutableError::NotAFile { origin: CandidateSource::Path, path: "/x".into() }.message(),
        "PATH-discovered FAMP executable path is not a regular file: /x"
    );
    assert_eq!(
        DaemonError::SystemctlFailed(3).message(),
        "systemctl failed with exit code 3"
    );
}

#[test]
fn duration_with_a_carry_at_the_largest_second_is_refused() {
    assert!(matches!(
        parse_duration("18446744073709551615s1000000000ns"),
        Err(DurationError::InvalidDuration { value }) if value == "18446744073709551615s1000000000ns"
    ));
    assert!(matches!(parse_duration("18446744073709551615s500ms500ms"), Err(DurationError::InvalidDuration { .. })));
    assert_eq!(resolve_hook_timeout(None, Some("18446744073709551615s1000000000ns")), (82_800, 0));
}

#[test]
fn duration_weight_bound_admits_ordinary_durations() {
    assert!(famp::duration::duration_in_range("2h 37min"));
    assert!(famp::duration::duration_in_range("600000000000s"));
    assert_eq!(parse_duration("600000000000s").unwrap(), (600_000_000_000, 0));
    assert!(famp::duration::duration_in_range("18446744073709551614s"));
    assert!(!famp::duration::duration_in_range("18446744073709551615s"));
    assert!(!famp::duration::duration_in_range("1000000000000y"));
    assert_eq!(parse_duration("2h 37min").unwrap(), (9420, 0));
    assert_eq!(parse_duration("4.2s").unwrap(), (4, 200_000_000));
}

#[test]
fn peer_card_from_key_encodes_a_full_key() {
    let key = [0u8; 32];
    let card = famp::info::peer_card_from_key(&key, "/h/key".to_string(), None, "127.0.0.1:8443").unwrap();
    assert_eq!(card.pubkey, "AAAAAAAAAAAAAAAAAAAAAAAAAAAAAAAAAAAAAAAAAAA");
    assert_eq!(card.principal, "agent:localhost/self");
    assert_eq!(card.alias, "self");
    assert_eq!(card.endpoint, "https://127.0.0.1:8443");
}

#[test]
fn peer_card_from_key_refuses_a_short_key() {
    let r = famp::info::peer_card_from_key(&[1u8; 31], "/h/key".to_string(), Some("agent:x/bob".to_string()), "a:1");
    assert!(matches!(r, Err(famp::init::InitError::IdentityIncomplete { missing }) if missing == "/h/key"));
}

#[test]
fn outcome_lines_hold_exactly_their_members() {
    let aborted = famp::hook::emit::AwaitOutcome { aborted: true, timed_out: true, diagnostic: Some("d".to_string()), mailbox: None, envelopes: vec![], next_offset: None };
    assert_eq!(famp::json::render_json_compact(&famp::await_cmd::outcome_json(&aborted)), "{\"aborted\":true}");
    let timed = famp::hook::emit::AwaitOutcome { aborted: false, timed_out: true, diagnostic: None, mailbox: None, envelopes: vec![], next_offset: None };
    assert_eq!(famp::json::render_json_compact(&famp::await_cmd::outcome_json(&timed)), "{\"timeout\":true}");
    assert_eq!(famp::json::render_json_compact(&famp::hook::emit::block_decision("r")), "{\"decision\":\"block\",\"reason\":\"r\"}");
    assert_eq!(famp::json::render_json_compact(&famp::mailbox::budget_exceeded_payload(7)), "{\"elapsed_ms\":7,\"kind\":\"budget_exceeded\"}");
}

#[test]
fn listen_state_reads_the_tail_bytes() {
    assert_eq!(famp::hook::transcript::listen_state_of_tail(3, b"{}\n"), famp::hook::transcript::ListenState::Unresolved);
}

#[test]
fn xml_escape_escapes_ampersand_first() {
    assert_eq!(famp::daemon::install::xml_escape("&lt;"), "&amp;lt;");
    assert_eq!(famp::daemon::install::xml_escape("a<b>&c"), "a&lt;b&gt;&amp;c");
}

#[test]
fn codex_stop_sequence_parks_only_after_the_lock() {
    use_stop_sequence();
}

fn use_stop_sequence() {
    let (p, a) = famp::hook::codex_stop::stop_step(
        famp::hook::codex_stop::StopPhase::Begin,
        famp::hook::codex_stop::StopEvent::Input { observe_only: false, source: famp::hook::codex_stop::TranscriptSource::Missing },
    );
    assert!(matches!(p, famp::hook::codex_stop::StopPhase::Resolving));
    assert!(matches!(a, famp::hook::codex_stop::StopAction::ResolveViaPid));
    let (p, a) = famp::hook::codex_stop::stop_step(p, famp::hook::codex_stop::StopEvent::Resolved(Some("alice".to_string())));
    assert!(matches!(a, famp::hook::codex_stop::StopAction::Lock(ref n) if n == "alice"));
    let (p, a) = famp::hook::codex_stop::stop_step(p, famp::hook::codex_stop::StopEvent::Locked(true));
    assert!(matches!(a, famp::hook::codex_stop::StopAction::Await(ref n) if n == "alice"));
    let empty = famp::hook::emit::AwaitOutcome { aborted: false, timed_out: true, diagnostic: None, mailbox: None, envelopes: vec![], next_offset: None };
    let (p, a) = famp::hook::codex_stop::stop_step(p, famp::hook::codex_stop::StopEvent::Awaited(Some(empty)));
    assert!(matches!(p, famp::hook::codex_stop::StopPhase::Done));
    assert!(matches!(a, famp::hook::codex_stop::StopAction::Exit));
    let (_, a) = famp::hook::codex_stop::stop_step(
        famp::hook::codex_stop::StopPhase::Scanning,
        famp::hook::codex_stop::StopEvent::Scanned(Some(famp::hook::transcript::ListenState::ExplicitlyOff)),
    );
    assert!(matches!(a, famp::hook::codex_stop::StopAction::Exit));
}

#[test]
fn await_reply_maps_to_outcome_or_error() {
    use_await_reply();
}

fn use_await_reply() {
    let ok = famp::await_cmd::await_result(
        famp::await_cmd::AwaitReply::Delivered {
            envelopes: vec![famp::json::JsonValue::Null],
            mailbox: famp::hook::emit::Mailbox::Agent("bob".to_string()),
            next_offset: 9,
        },
        "alice",
        None,
    )
    .unwrap();
    assert_eq!(ok.envelopes.len(), 1);
    assert_eq!(ok.next_offset, Some(9));
    assert!(!ok.timed_out && !ok.aborted);
    let t = famp::await_cmd::await_result(famp::await_cmd::AwaitReply::Timeout, "alice", Some("late".to_string())).unwrap();
    assert!(t.timed_out && t.diagnostic.as_deref() == Some("late") && t.envelopes.is_empty());
    let a = famp::await_cmd::await_result(famp::await_cmd::AwaitReply::Aborted, "alice", None).unwrap();
    assert!(a.aborted && !a.timed_out);
    let e = famp::await_cmd::await_result(famp::await_cmd::AwaitReply::NotRegistered, "alice", None).unwrap_err();
    assert_eq!(e.message(), "alice is not registered — start \"famp register alice\" in another terminal first");
    let e = famp::await_cmd::await_result(
        famp::await_cmd::AwaitReply::Failed { kind: "NotJoined".to_string(), message: "m".to_string() },
        "alice",
        None,
    )
    .unwrap_err();
    assert_eq!(e.message(), "bus error: NotJoined: m");
    let e = famp::await_cmd::await_result(famp::await_cmd::AwaitReply::Unexpected("SendOk".to_string()), "alice", None).unwrap_err();
    assert!(matches!(e, famp::await_cmd::AwaitError::BusClient { detail } if detail == "unexpected reply to Await: SendOk"));
    assert_eq!(famp::await_cmd::timeout_millis(2, 500_000_000), 2500);
    assert_eq!(famp::await_cmd::timeout_millis(u64::MAX, 0), u64::MAX);
}

#[test]
fn broker_start_time_wraps_like_the_broker_view() {
    assert_eq!(famp::inspect::render::format_broker_unix(0), "1970-01-01T00:00:00Z");
    assert_eq!(famp::inspect::render::format_broker_unix(u64::MAX), "1969-12-31T23:59:59Z");
}

#[test]
fn b64url_encodes_without_padding() {
    assert_eq!(famp::info::encode_b64url(b"foob"), "Zm9vYg");
    assert_eq!(famp::info::encode_b64url(&[0xfb, 0xff]), "-_8");
}
