//! Command-line arguments of each subcommand, as plain values (paths as
//! text). The command-line parser fills them in.

use vstd::prelude::*;

verus! {

/// `famp broker`.
#[derive(Debug)]
pub struct BrokerArgs {
    /// Override the bus socket path.
    pub socket: Option<String>,
}

/// `famp daemon install`.
#[derive(Debug)]
pub struct DaemonInstallArgs {
    /// Override the install target home.
    pub home: Option<String>,
}

/// `famp daemon uninstall`.
#[derive(Debug)]
pub struct DaemonUninstallArgs {
    pub home: Option<String>,
}

/// `famp daemon status`.
#[derive(Debug)]
pub struct DaemonStatusArgs {
    /// Output status as JSON.
    pub json: bool,
    pub home: Option<String>,
}

/// `famp daemon restart`.
#[derive(Debug)]
pub struct DaemonRestartArgs {
    pub home: Option<String>,
}

/// `famp daemon <subcommand>`.
#[derive(Debug)]
pub enum DaemonSubcommand {
    Install(DaemonInstallArgs),
    Uninstall(DaemonUninstallArgs),
    Status(DaemonStatusArgs),
    Restart(DaemonRestartArgs),
}

/// `famp daemon`.
#[derive(Debug)]
pub struct DaemonArgs {
    pub command: DaemonSubcommand,
}

/// `famp hook codex-stop`.
#[derive(Debug)]
pub struct CodexStopArgs {
    /// Override the await timeout, in milliseconds.
    pub timeout: Option<u64>,
}

/// `famp hook <subcommand>`.
#[derive(Debug)]
pub enum HookCommand {
    /// Codex Stop hook: listen-mode await and native block decision.
    CodexStop(CodexStopArgs),
}

/// `famp hook`.
#[derive(Debug)]
pub struct HookArgs {
    pub command: HookCommand,
}

/// `famp inbox ack`.
#[derive(Debug)]
pub struct AckArgs {
    /// Offset to acknowledge through.
    pub offset: u64,
    /// Act as this identity.
    pub act_as: Option<String>,
}

/// What `famp inbox ack` reports.
#[derive(Debug)]
pub struct AckOutcome {
    pub acked: bool,
    pub offset: u64,
}

/// `famp inbox list`.
#[derive(Debug)]
pub struct ListArgs {
    pub since: Option<u64>,
    pub include_terminal: bool,
    pub act_as: Option<String>,
}

/// `famp inbox <subcommand>`.
#[derive(Debug)]
pub enum InboxCommand {
    List(ListArgs),
    Ack(AckArgs),
}

/// `famp inbox`.
#[derive(Debug)]
pub struct InboxArgs {
    pub command: InboxCommand,
}

/// `famp info`.
#[derive(Debug)]
pub struct InfoArgs {
    /// Output format: `json` (the default) or `text`.
    pub format: String,
}

/// `famp inspect broker`.
#[derive(Debug)]
pub struct InspectBrokerArgs {
    pub json: bool,
}

/// `famp inspect identities`.
#[derive(Debug)]
pub struct InspectIdentitiesArgs {
    pub json: bool,
}

/// `famp inspect tasks`.
#[derive(Debug)]
pub struct InspectTasksArgs {
    /// Filter to one task id (a UUID, as text).
    pub id: Option<String>,
    pub full: bool,
    pub orphans: bool,
    pub json: bool,
}

/// `famp inspect messages`.
#[derive(Debug)]
pub struct InspectMessagesArgs {
    pub to: Option<String>,
    pub tail: Option<u64>,
    pub json: bool,
}

/// `famp inspect waiters`.
#[derive(Debug)]
pub struct InspectWaitersArgs {
    pub json: bool,
}

/// `famp inspect wake`.
#[derive(Debug)]
pub struct InspectWakeArgs {
    /// Registered identity whose Codex wake path is diagnosed.
    pub identity: String,
    /// Override the project whose `.codex/hooks.json` is inspected.
    pub project: Option<String>,
    pub json: bool,
    /// Override the home containing `.codex/config.toml`.
    pub home: Option<String>,
}

/// `famp inspect <subcommand>`.
#[derive(Debug)]
pub enum InspectSubcommand {
    Broker(InspectBrokerArgs),
    Identities(InspectIdentitiesArgs),
    Tasks(InspectTasksArgs),
    Messages(InspectMessagesArgs),
    Waiters(InspectWaitersArgs),
    Wake(InspectWakeArgs),
}

/// `famp inspect`.
#[derive(Debug)]
pub struct InspectArgs {
    pub command: InspectSubcommand,
}

/// Arguments of the `ClaudeCode` installer subcommand.
#[derive(Debug)]
pub struct InstallClaudeCodeArgs {
    /// Override the install target home.
    pub home: Option<String>,
}

/// `famp install-codex`.
#[derive(Debug)]
pub struct InstallCodexArgs {
    pub home: Option<String>,
    /// Project root whose `.codex/hooks.json` receives the Stop hook.
    pub project: Option<String>,
}

/// `famp install-grok`.
#[derive(Debug)]
pub struct InstallGrokArgs {
    pub home: Option<String>,
}

} // verus!
