use famp::daemon::install::{
    generate_plist, generate_systemd_unit, needs_reload_advisory, service_file_outcome, xml_escape,
    DaemonError, ServiceFileOutcome,
};
use famp::daemon::linux::parse_linger;
use famp::daemon::restart::{
    readiness_step, restarted_message, ReadinessStep, RESTART_READY_BUDGET_MS, RESTART_READY_POLL_MS,
};
use famp::daemon::status::{
    classify_status, exit_code, render_human, BrokerProbe, BrokerReply, DaemonStateRender,
};
use famp::executable::{FampExecutable, FileFacts, PathText};
use std::time::Duration;

fn executable_at(path: &str) -> FampExecutable {
    FampExecutable::validate(
        PathText { text: path.to_string(), utf8: true },
        Ok(FileFacts { is_file: true, mode: 0o755 }),
    )
    .unwrap()
}

fn home(path: &str) -> PathText {
    PathText { text: path.to_string(), utf8: true }
}

#[test]
fn changed_plist_under_a_loaded_job_advises_an_explicit_reload() {
    let (created, unchanged, updated) = (ServiceFileOutcome::Created, ServiceFileOutcome::Unchanged, ServiceFileOutcome::Updated);
    assert_eq!(service_file_outcome(None, "<plist/>"), created);
    assert_eq!(service_file_outcome(Some("<plist/>"), "<plist/>"), unchanged);
    assert_eq!(
        service_file_outcome(Some("<plist>old bin</plist>"), "<plist>new bin</plist>"),
        updated
    );

    assert!(needs_reload_advisory(updated, true));
    assert!(!needs_reload_advisory(updated, false));
    assert!(!needs_reload_advisory(unchanged, true));
    assert!(!needs_reload_advisory(created, true));
    assert!(!needs_reload_advisory(created, false));
}

#[test]
fn repointing_the_famp_binary_is_a_plist_change() {
    let first = executable_at("/tmp/x/a/famp");
    let second = executable_at("/tmp/x/b/famp");
    let before = generate_plist("/tmp/x", &first).unwrap();
    let after = generate_plist("/tmp/x", &second).unwrap();
    assert_eq!(service_file_outcome(Some(&before), &after), ServiceFileOutcome::Updated);
    assert_eq!(service_file_outcome(Some(&before), &before), ServiceFileOutcome::Unchanged);
}

#[test]
fn plist_uses_exact_symlink_path_and_xml_escapes_it() {
    let selected = executable_at("/tmp/x/famp & <selected>");
    let xml = generate_plist("/tmp/x", &selected).unwrap();
    assert!(xml.contains("famp &amp; &lt;selected&gt;"));
    assert!(!xml.contains("real-famp</string>"));
}

#[test]
fn plist_shape_matches_locked() {
    let executable = executable_at("/opt/famp/bin/famp");
    let xml = generate_plist("/Users/someone", &executable).unwrap();
    assert!(xml.contains("<key>Label</key>"));
    assert!(xml.contains("<string>com.famp.broker</string>"));
    assert!(xml.contains("<key>RunAtLoad</key>"));
    assert!(xml.contains("<key>KeepAlive</key>"));
    assert!(xml.contains("<key>ProcessType</key>"));
    assert!(xml.contains("<string>Background</string>"));
    assert!(xml.contains("<string>broker</string>"));
    assert!(xml.contains("<string>--no-idle-exit</string>"));
    assert!(xml.matches("<true/>").count() >= 2);
    assert_eq!(xml.matches(".famp/broker.log").count(), 2);
    assert!(!xml.contains('~'));
    assert!(!xml.contains("EnvironmentVariables"));
    assert!(!xml.contains("UserName"));
    assert!(!xml.contains("GroupName"));
}

#[test]
fn systemd_unit_uses_exact_path_and_rejects_whitespace_purely() {
    let selected = executable_at("/tmp/d/bin/famp");
    let unit = generate_systemd_unit(&home("/tmp/d"), &selected).unwrap();
    assert!(unit.contains(&format!("ExecStart={} broker --no-idle-exit", selected.utf8())));
    assert!(!unit.contains(".cargo/bin/famp"));

    let spaced = executable_at("/tmp/d/bin space/famp");
    assert!(matches!(
        generate_systemd_unit(&home("/tmp/d"), &spaced),
        Err(DaemonError::UnitPathHasWhitespace(_))
    ));
}

#[test]
fn systemd_unit_carries_restart_backoff_and_a_memory_cap() {
    let selected = executable_at("/tmp/d/bin/famp");
    let unit = generate_systemd_unit(&home("/tmp/d"), &selected).unwrap();
    for directive in [
        "Restart=always",
        "RestartSec=5",
        "RestartSteps=5",
        "RestartMaxDelaySec=5min",
        "MemoryMax=256M",
        "StartLimitIntervalSec=1h",
        "StartLimitBurst=20",
    ] {
        assert!(unit.contains(directive), "generated unit is missing {directive}; got:\n{unit}");
    }
    let (unit_section, service_section) = unit.split_once("[Service]").unwrap();
    assert!(unit_section.contains("StartLimitIntervalSec=1h"));
    assert!(unit_section.contains("StartLimitBurst=20"));
    assert!(service_section.contains("RestartSteps=5"));
    assert!(service_section.contains("MemoryMax=256M"));
}

#[test]
fn unit_home_with_whitespace_is_refused_for_the_log_path() {
    let selected = executable_at("/opt/famp");
    assert!(matches!(
        generate_systemd_unit(&home("/home/a b"), &selected),
        Err(DaemonError::UnitPathHasWhitespace(p)) if p == "/home/a b/.famp/broker.log"
    ));
}

#[test]
fn xml_escape_replaces_markup_characters() {
    assert_eq!(xml_escape("a&b<c>d"), "a&amp;b&lt;c&gt;d");
    assert_eq!(xml_escape("&lt;"), "&amp;lt;");
    assert_eq!(xml_escape("plain"), "plain");
}

#[test]
fn linger_parse_yes() {
    assert!(parse_linger("Linger=yes\n"));
    assert!(parse_linger("Linger=yes"));
    assert!(parse_linger("SomeOtherProp=foo\nLinger=yes\n"));
}

#[test]
fn linger_parse_no() {
    assert!(!parse_linger("Linger=no\n"));
    assert!(!parse_linger("Linger=no"));
    assert!(!parse_linger(""));
    assert!(!parse_linger("SomeOtherProp=foo\n"));
}

#[test]
fn restart_timed_out_names_socket_and_budget() {
    let err = DaemonError::RestartTimedOut { waited_ms: 5000, socket: "/tmp/bus.sock".into() };
    let msg = err.message();
    assert!(
        msg.contains("5000ms") && msg.contains("/tmp/bus.sock"),
        "RestartTimedOut must name budget and socket; got: {msg}"
    );
    assert!(msg.contains("inspect broker"), "RestartTimedOut must point at the inspect surface; got: {msg}");
}

#[test]
fn ready_budget_is_bounded_not_a_fixed_sleep() {
    let budget = Duration::from_millis(RESTART_READY_BUDGET_MS);
    let poll = Duration::from_millis(RESTART_READY_POLL_MS);
    assert!(budget <= Duration::from_secs(10));
    assert!(poll < budget);
    assert!(poll >= Duration::from_millis(50));
}

#[test]
fn readiness_retries_until_the_deadline_then_times_out() {
    assert!(matches!(readiness_step(None, 10, 5000, "/tmp/bus.sock"), ReadinessStep::Retry));
    match readiness_step(None, 5000, 5000, "/tmp/bus.sock") {
        ReadinessStep::TimedOut(DaemonError::RestartTimedOut { waited_ms, socket }) => {
            assert_eq!(waited_ms, 5000);
            assert_eq!(socket, "/tmp/bus.sock");
        }
        other => panic!("expected a timeout, got {other:?}"),
    }
    let reply = BrokerReply::Info { pid: 7, socket_path: "/s".into(), build_version: "1.2".into() };
    match readiness_step(Some(reply), 9999, 5000, "/s") {
        ReadinessStep::Ready { pid, socket_path, build_version } => {
            assert_eq!((pid, socket_path.as_str(), build_version.as_str()), (7, "/s", "1.2"));
        }
        other => panic!("expected ready, got {other:?}"),
    }
    assert_eq!(
        restarted_message(42, "/tmp/bus.sock", "0.11.0"),
        "broker restarted  pid=42  socket=/tmp/bus.sock  build=0.11.0"
    );
}

fn states() -> (DaemonStateRender, DaemonStateRender, DaemonStateRender) {
    (
        DaemonStateRender::NotInstalled { platform_path: "/tmp/com.famp.broker.plist".to_string() },
        DaemonStateRender::InstalledDown {
            platform_path: "/tmp/com.famp.broker.plist".to_string(),
            evidence: "not_registered".to_string(),
            linger: None,
        },
        DaemonStateRender::Running {
            pid: 1234,
            socket_path: "/tmp/bus.sock".to_string(),
            build_version: "0.11.0".to_string(),
            linger: None,
        },
    )
}

#[test]
fn status_exit_codes() {
    let (not_installed, installed_down, running) = states();
    assert_eq!(exit_code(&not_installed), 1, "NotInstalled must exit 1");
    assert_eq!(exit_code(&installed_down), 2, "InstalledDown must exit 2");
    assert_eq!(exit_code(&running), 0, "Running must exit 0");
}

#[test]
fn status_render_distinct() {
    let (not_installed, installed_down, running) = states();
    let s_not = render_human(&not_installed);
    let s_down = render_human(&installed_down);
    let s_run = render_human(&running);
    assert!(s_not.contains("NOT_INSTALLED"));
    assert!(s_down.contains("INSTALLED_DOWN"));
    assert!(s_run.contains("RUNNING"));
    assert_ne!(s_not, s_down);
    assert_ne!(s_down, s_run);
    assert_ne!(s_not, s_run);
}

#[test]
fn status_running_shows_build() {
    let running = DaemonStateRender::Running {
        pid: 9999,
        socket_path: "/tmp/bus.sock".to_string(),
        build_version: "0.11.0".to_string(),
        linger: None,
    };
    let output = render_human(&running);
    assert!(output.contains("0.11.0"), "Running render must include daemon build_version '0.11.0', got: {output}");
}

#[test]
fn status_busy_render_and_exit_code() {
    let busy = DaemonStateRender::Busy { platform_path: "/tmp/x.plist".to_string(), elapsed_ms: 612, linger: None };
    assert_eq!(exit_code(&busy), 2, "Busy must exit 2");
    let output = render_human(&busy);
    assert!(output.contains("BUSY"));
    assert!(output.contains("612"));
    assert!(!output.contains("INSTALLED_DOWN"));
}

#[test]
fn status_linger_reported() {
    let make = |linger| DaemonStateRender::Running {
        pid: 1,
        socket_path: "/tmp/bus.sock".to_string(),
        build_version: "0.11.0".to_string(),
        linger,
    };
    let yes_str = render_human(&make(Some(true)));
    let no_str = render_human(&make(Some(false)));
    let none_str = render_human(&make(None));
    assert!(yes_str.contains("linger=yes"));
    assert!(no_str.contains("linger=no"));
    assert!(!none_str.contains("linger"));
}

#[test]
fn exact_running_and_not_installed_lines() {
    let (not_installed, _, running) = states();
    assert_eq!(
        render_human(&not_installed),
        "state: NOT_INSTALLED  service file not found at /tmp/com.famp.broker.plist"
    );
    assert_eq!(
        render_human(&running),
        "state: RUNNING  pid=1234  socket=/tmp/bus.sock  broker build: 0.11.0"
    );
}

#[test]
fn classify_status_follows_file_registration_and_probe() {
    let path = || "/p/famp-broker.service".to_string();
    assert!(matches!(
        classify_status(path(), false, true, BrokerProbe::DownClean, None),
        DaemonStateRender::NotInstalled { .. }
    ));
    match classify_status(path(), true, false, BrokerProbe::DownClean, Some(true)) {
        DaemonStateRender::InstalledDown { evidence, linger, .. } => {
            assert_eq!(evidence, "not_registered_with_service_manager");
            assert_eq!(linger, Some(true));
        }
        other => panic!("{other:?}"),
    }
    match classify_status(path(), true, true, BrokerProbe::StaleSocket, None) {
        DaemonStateRender::InstalledDown { evidence, .. } => assert_eq!(evidence, "connect_econnrefused"),
        other => panic!("{other:?}"),
    }
    let busy = classify_status(path(), true, true, BrokerProbe::Healthy(BrokerReply::BudgetExceeded { elapsed_ms: 9 }), None);
    assert!(matches!(busy, DaemonStateRender::Busy { elapsed_ms: 9, .. }));
    let running = classify_status(
        path(),
        true,
        true,
        BrokerProbe::Healthy(BrokerReply::Info { pid: 3, socket_path: "/s".into(), build_version: "b".into() }),
        None,
    );
    assert_eq!(exit_code(&running), 0);
}
