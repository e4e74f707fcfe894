//! `famp daemon restart`: after the service manager relaunches the broker,
//! poll for a Hello within a bounded budget instead of sleeping.

use vstd::prelude::*;
use crate::daemon::install::DaemonError;
use crate::daemon::status::BrokerReply;
use crate::text::{decimal, owned, u64_to_decimal};

verus! {

/// How long to wait for the broker Hello after the service manager returns.
pub const RESTART_READY_BUDGET_MS: u64 = 5_000;
/// Backoff between readiness probes.
pub const RESTART_READY_POLL_MS: u64 = 100;

/// What one readiness probe leads to.
#[derive(Debug)]
pub enum ReadinessStep {
    /// The broker answered: pid, socket path, build version.
    Ready { pid: u32, socket_path: String, build_version: String },
    /// Not ready yet: probe again after the poll interval.
    Retry,
    /// The budget is spent.
    TimedOut(DaemonError),
}

/// Decides after one probe. `reply` is what the inspection call returned
/// when the socket answered Hello (`None`: it did not answer); `now_ms` and
/// `deadline_ms` are on the same monotonic clock.
pub fn readiness_step(reply: Option<BrokerReply>, now_ms: u64, deadline_ms: u64, socket: &str) -> (r: ReadinessStep)
    ensures
        reply matches Some(BrokerReply::Info { pid, socket_path, build_version })
            ==> (r == (ReadinessStep::Ready { pid, socket_path, build_version })),
        !(reply matches Some(BrokerReply::Info { .. })) && now_ms < deadline_ms ==> (r is Retry),
        !(reply matches Some(BrokerReply::Info { .. })) && now_ms >= deadline_ms
            ==> (r matches ReadinessStep::TimedOut(DaemonError::RestartTimedOut { waited_ms, socket: s })
                && waited_ms == RESTART_READY_BUDGET_MS && s@ == socket@),
{
    match reply {
        Some(BrokerReply::Info { pid, socket_path, build_version }) => ReadinessStep::Ready { pid, socket_path, build_version },
        _ => {
            if now_ms >= deadline_ms {
                ReadinessStep::TimedOut(DaemonError::RestartTimedOut { waited_ms: RESTART_READY_BUDGET_MS, socket: owned(socket) })
            } else {
                ReadinessStep::Retry
            }
        },
    }
}

pub open spec fn restarted_line(pid: u32, socket: Seq<char>, build: Seq<char>) -> Seq<char> {
    "broker restarted  pid="@ + decimal(pid as nat) + "  socket="@ + socket + "  build="@ + build
}

/// The success line printed once the broker answered.
pub fn restarted_message(pid: u32, socket: &str, build: &str) -> (r: String)
    ensures
        r@ == restarted_line(pid, socket@, build@),
{
    let mut s = owned("broker restarted  pid=");
    let d = u64_to_decimal(pid as u64);
    s.append(d.as_str());
    s.append("  socket=");
    s.append(socket);
    s.append("  build=");
    s.append(build);
    s
}

/// The macOS restart precondition: the job must be registered and its
/// plist present.
pub fn macos_restart_precondition(registered: bool, plist_exists: bool) -> (r: Result<(), DaemonError>)
    ensures
        (registered && plist_exists) == (r is Ok),
        !(registered && plist_exists) ==> r matches Err(DaemonError::NotInstalled),
{
    if registered && plist_exists { Ok(()) } else { Err(DaemonError::NotInstalled) }
}

/// The outcome of a `launchctl` step, from its exit status.
pub fn launchctl_step(success: bool, code: Option<i32>) -> (r: Result<(), DaemonError>)
    ensures
        success ==> r is Ok,
        !success ==> r == Err::<(), DaemonError>(DaemonError::LaunchctlFailed(match code { Some(c) => c, None => -1i32 })),
{
    if success {
        Ok(())
    } else {
        Err(DaemonError::LaunchctlFailed(match code { Some(c) => c, None => -1 }))
    }
}

} // verus!
