//! `famp daemon status`: not installed / installed but down / busy /
//! running, each with its own rendering and exit code.

use vstd::prelude::*;
use crate::daemon::install::{plist_path, plist_path_of, unit_path, unit_path_of};
use crate::text::{decimal, owned, u64_to_decimal};

verus! {

/// The daemon's state, as reported by `famp daemon status`.
#[derive(Debug)]
pub enum DaemonStateRender {
    /// The platform service file does not exist.
    NotInstalled { platform_path: String },
    /// Installed, but the broker is not reachable.
    InstalledDown { platform_path: String, evidence: String, linger: Option<bool> },
    /// Registered and the broker answered.
    Running { pid: u32, socket_path: String, build_version: String, linger: Option<bool> },
    /// The broker is alive but exceeded its inspection budget.
    Busy { platform_path: String, elapsed_ms: u64, linger: Option<bool> },
}

/// Running is 0, installed-but-down and busy are 2, not installed is 1.
pub open spec fn status_exit_code(r: DaemonStateRender) -> i32 {
    match r {
        DaemonStateRender::Running { .. } => 0,
        DaemonStateRender::InstalledDown { .. } | DaemonStateRender::Busy { .. } => 2,
        DaemonStateRender::NotInstalled { .. } => 1,
    }
}

/// The process exit code for a status.
pub fn exit_code(r: &DaemonStateRender) -> (c: i32)
    ensures
        c == status_exit_code(*r),
{
    match r {
        DaemonStateRender::Running { .. } => 0,
        DaemonStateRender::InstalledDown { .. } | DaemonStateRender::Busy { .. } => 2,
        DaemonStateRender::NotInstalled { .. } => 1,
    }
}

pub open spec fn linger_suffix(linger: Option<bool>) -> Seq<char> {
    match linger {
        Some(true) => "  linger=yes"@,
        Some(false) => "  linger=no"@,
        None => Seq::empty(),
    }
}

/// The one-line human rendering of a status.
pub open spec fn human_status(r: DaemonStateRender) -> Seq<char> {
    match r {
        DaemonStateRender::NotInstalled { platform_path } =>
            "state: NOT_INSTALLED  service file not found at "@ + platform_path@,
        DaemonStateRender::InstalledDown { platform_path, evidence, linger } =>
            "state: INSTALLED_DOWN  service="@ + platform_path@ + "  evidence="@ + evidence@ + linger_suffix(linger),
        DaemonStateRender::Running { pid, socket_path, build_version, linger } =>
            "state: RUNNING  pid="@ + decimal(pid as nat) + "  socket="@ + socket_path@ + "  broker build: "@ + build_version@ + linger_suffix(linger),
        DaemonStateRender::Busy { platform_path, elapsed_ms, linger } =>
            "state: BUSY  service="@ + platform_path@ + "  evidence=budget_exceeded: "@ + decimal(elapsed_ms as nat) + "ms"@ + linger_suffix(linger),
    }
}

fn append_linger(s: &mut String, linger: Option<bool>)
    ensures
        final(s)@ == old(s)@ + linger_suffix(linger),
{
    match linger {
        Some(true) => s.append("  linger=yes"),
        Some(false) => s.append("  linger=no"),
        None => {
            assert(old(s)@ + Seq::<char>::empty() =~= old(s)@);
        },
    }
}

/// Renders a status for humans; the running state names the daemon's build.
pub fn render_human(r: &DaemonStateRender) -> (s: String)
    ensures
        s@ == human_status(*r),
{
    match r {
        DaemonStateRender::NotInstalled { platform_path } => {
            let mut s = owned("state: NOT_INSTALLED  service file not found at ");
            s.append(platform_path.as_str());
            s
        },
        DaemonStateRender::InstalledDown { platform_path, evidence, linger } => {
            let mut s = owned("state: INSTALLED_DOWN  service=");
            s.append(platform_path.as_str());
            s.append("  evidence=");
            s.append(evidence.as_str());
            append_linger(&mut s, *linger);
            s
        },
        DaemonStateRender::Running { pid, socket_path, build_version, linger } => {
            let mut s = owned("state: RUNNING  pid=");
            let p = u64_to_decimal(*pid as u64);
            s.append(p.as_str());
            s.append("  socket=");
            s.append(socket_path.as_str());
            s.append("  broker build: ");
            s.append(build_version.as_str());
            append_linger(&mut s, *linger);
            s
        },
        DaemonStateRender::Busy { platform_path, elapsed_ms, linger } => {
            let mut s = owned("state: BUSY  service=");
            s.append(platform_path.as_str());
            s.append("  evidence=budget_exceeded: ");
            let e = u64_to_decimal(*elapsed_ms);
            s.append(e.as_str());
            s.append("ms");
            append_linger(&mut s, *linger);
            s
        },
    }
}

/// The service manager of the platform.
#[derive(Clone, Copy, Debug, PartialEq, Eq, Structural)]
pub enum Platform {
    MacOs,
    Linux,
    Other,
}

pub open spec fn service_path_of(home: Seq<char>, platform: Platform) -> Seq<char> {
    match platform {
        Platform::MacOs => plist_path_of(home),
        Platform::Linux => unit_path_of(home),
        Platform::Other => crate::text::joined(home, "famp-broker.service"@),
    }
}

/// The platform's service file for the broker.
pub fn platform_service_path(home: &str, platform: Platform) -> (r: String)
    ensures
        r@ == service_path_of(home@, platform),
{
    match platform {
        Platform::MacOs => plist_path(home),
        Platform::Linux => unit_path(home),
        Platform::Other => crate::text::join_path(home, "famp-broker.service"),
    }
}

/// What an inspection call to a healthy broker returned.
#[derive(Debug)]
pub enum BrokerReply {
    Info { pid: u32, socket_path: String, build_version: String },
    BudgetExceeded { elapsed_ms: u64 },
    /// The reply did not match the schema; the decoding error's message.
    SchemaMismatch(String),
    /// The call failed; the error's message.
    CallFailed(String),
}

/// What probing the bus socket found.
#[derive(Debug)]
pub enum BrokerProbe {
    Healthy(BrokerReply),
    DownClean,
    StaleSocket,
    OrphanHolder(String),
    PermissionDenied,
}

/// The status from what was observed: whether the service file exists,
/// whether the service manager has it registered, what the socket probe
/// found, and the linger state (known on Linux only).
pub open spec fn observed_status(platform_path: String, file_exists: bool, registered: bool, probe: BrokerProbe, linger: Option<bool>, r: DaemonStateRender) -> bool {
    if !file_exists {
        r == DaemonStateRender::NotInstalled { platform_path }
    } else if !registered {
        r matches DaemonStateRender::InstalledDown { platform_path: p, evidence: e, linger: l }
            && p == platform_path && e@ == "not_registered_with_service_manager"@ && l == linger
    } else {
        match probe {
            BrokerProbe::Healthy(BrokerReply::Info { pid, socket_path, build_version }) =>
                r == DaemonStateRender::Running { pid, socket_path, build_version, linger },
            BrokerProbe::Healthy(BrokerReply::BudgetExceeded { elapsed_ms }) =>
                r == DaemonStateRender::Busy { platform_path, elapsed_ms, linger },
            _ => r matches DaemonStateRender::InstalledDown { platform_path: p, evidence: e, linger: l }
                && p == platform_path && l == linger && e@ == match probe {
                    BrokerProbe::Healthy(BrokerReply::SchemaMismatch(m)) => "schema_mismatch: "@ + m@,
                    BrokerProbe::Healthy(BrokerReply::CallFailed(m)) => "inspect_call_failed: "@ + m@,
                    BrokerProbe::DownClean => "no_socket_file"@,
                    BrokerProbe::StaleSocket => "connect_econnrefused"@,
                    BrokerProbe::OrphanHolder(m) => "hello_rejected: "@ + m@,
                    _ => "connect_eacces"@,
                },
        }
    }
}

/// Decides the status from what was observed.
pub fn classify_status(platform_path: String, file_exists: bool, registered: bool, probe: BrokerProbe, linger: Option<bool>) -> (r: DaemonStateRender)
    ensures
        observed_status(platform_path, file_exists, registered, probe, linger, r),
{
    if !file_exists {
        return DaemonStateRender::NotInstalled { platform_path };
    }
    if !registered {
        return DaemonStateRender::InstalledDown { platform_path, evidence: owned("not_registered_with_service_manager"), linger };
    }
    let ghost p0 = probe;
    match probe {
        BrokerProbe::Healthy(BrokerReply::Info { pid, socket_path, build_version }) =>
            DaemonStateRender::Running { pid, socket_path, build_version, linger },
        BrokerProbe::Healthy(BrokerReply::BudgetExceeded { elapsed_ms }) =>
            DaemonStateRender::Busy { platform_path, elapsed_ms, linger },
        BrokerProbe::Healthy(BrokerReply::SchemaMismatch(m)) => {
            let mut e = owned("schema_mismatch: ");
            e.append(m.as_str());
            DaemonStateRender::InstalledDown { platform_path, evidence: e, linger }
        },
        BrokerProbe::Healthy(BrokerReply::CallFailed(m)) => {
            let mut e = owned("inspect_call_failed: ");
            e.append(m.as_str());
            DaemonStateRender::InstalledDown { platform_path, evidence: e, linger }
        },
        BrokerProbe::DownClean => DaemonStateRender::InstalledDown { platform_path, evidence: owned("no_socket_file"), linger },
        BrokerProbe::StaleSocket => DaemonStateRender::InstalledDown { platform_path, evidence: owned("connect_econnrefused"), linger },
        BrokerProbe::OrphanHolder(m) => {
            let mut e = owned("hello_rejected: ");
            e.append(m.as_str());
            DaemonStateRender::InstalledDown { platform_path, evidence: e, linger }
        },
        BrokerProbe::PermissionDenied => DaemonStateRender::InstalledDown { platform_path, evidence: owned("connect_eacces"), linger },
    }
}

/// Only a running broker exits successfully; a busy broker exits like a
/// down one, never like a missing or a running one.
pub proof fn law_status_exit_codes(r: DaemonStateRender)
    ensures
        (status_exit_code(r) == 0) == (r is Running),
        (status_exit_code(r) == 1) == (r is NotInstalled),
        (status_exit_code(r) == 2) == (r is InstalledDown || r is Busy),
{
}

} // verus!
