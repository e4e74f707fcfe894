//! The decisions of the native Codex Stop hook. The hook is fail-open:
//! every uncertain step ends it quietly, without a block decision.

use vstd::prelude::*;
use crate::hook::emit::AwaitOutcome;
use crate::hook::stdin::StopHookInput;
use crate::hook::transcript::{valid_identity, validate_identity, ListenState};
use crate::text::{decimal, joined, join_path, str_eq, u64_to_decimal};

verus! {

/// A stop event the hook only observes: a non-empty reason other than
/// `end_turn` (the session is ending, not a turn).
pub open spec fn observe_only(reason: Option<Seq<char>>) -> bool {
    reason matches Some(r) && r.len() > 0 && r != "end_turn"@
}

/// Whether the hook should exit at once because the stop only ends the
/// session.
pub fn is_observe_only(input: &StopHookInput) -> (r: bool)
    ensures
        r == observe_only(match input.reason { Some(s) => Some(s@), None => None }),
{
    match &input.reason {
        Some(r) => !r.as_str().is_empty() && !str_eq(r.as_str(), "end_turn"),
        None => false,
    }
}

/// Where the transcript comes from.
#[derive(Debug)]
pub enum TranscriptSource {
    /// The host's `transcript_path`, which is an existing file.
    Path(String),
    /// No usable path: look the rollout up by session id.
    Session(String),
    /// Nothing to go on.
    Missing,
}

/// Picks the transcript source: the host's path when it names an existing
/// file, else the session id, else nothing.
pub fn transcript_source(input: &StopHookInput, path_is_file: bool) -> (r: TranscriptSource)
    ensures
        input.transcript_path matches Some(p) ==> (path_is_file ==> (r matches TranscriptSource::Path(q) && q@ == p@)),
        !(input.transcript_path is Some && path_is_file) ==> match input.session_id {
            Some(s) => r matches TranscriptSource::Session(t) && t@ == s@,
            None => r is Missing,
        },
{
    match &input.transcript_path {
        Some(p) => if path_is_file {
            return TranscriptSource::Path(p.clone());
        },
        None => {},
    }
    match &input.session_id {
        Some(s) => TranscriptSource::Session(s.clone()),
        None => TranscriptSource::Missing,
    }
}

/// What the transcript says about listen mode.
#[derive(Debug)]
pub enum TranscriptVerdict {
    /// Listen mode is on for this identity.
    Armed(String),
    /// Listen mode was explicitly turned off.
    OptedOut,
    /// Nothing conclusive (or no transcript): the pid fallback may try.
    Inconclusive,
}

/// Reads the listen state of the scanned transcript (`None`: no transcript).
pub fn transcript_verdict(state: Option<ListenState>) -> (r: TranscriptVerdict)
    ensures
        match state {
            Some(ListenState::Active(n)) => r matches TranscriptVerdict::Armed(m) && m@ == n@,
            Some(ListenState::ExplicitlyOff) => r is OptedOut,
            _ => r is Inconclusive,
        },
{
    match state {
        Some(ListenState::Active(n)) => TranscriptVerdict::Armed(n),
        Some(ListenState::ExplicitlyOff) => TranscriptVerdict::OptedOut,
        _ => TranscriptVerdict::Inconclusive,
    }
}

/// Whether the pid-correlated fallback runs: only when the transcript was
/// inconclusive, never against an explicit opt-out.
pub fn needs_pid_fallback(v: &TranscriptVerdict) -> (r: bool)
    ensures
        r == (*v is Inconclusive),
{
    match v {
        TranscriptVerdict::Inconclusive => true,
        _ => false,
    }
}

/// The identity to park on, if any: the transcript's, else the pid
/// fallback's when the transcript was inconclusive; it must be a valid
/// identity name.
pub open spec fn listen_identity_of(v: TranscriptVerdict, fallback: Option<String>) -> Option<Seq<char>> {
    let candidate = match v {
        TranscriptVerdict::Armed(n) => Some(n@),
        TranscriptVerdict::OptedOut => None,
        TranscriptVerdict::Inconclusive => match fallback { Some(f) => Some(f@), None => None },
    };
    match candidate {
        Some(c) => if valid_identity(c) { Some(c) } else { None },
        None => None,
    }
}

/// Decides the identity to park on.
pub fn listen_identity(v: TranscriptVerdict, fallback: Option<String>) -> (r: Option<String>)
    ensures
        match r { Some(s) => Some(s@), None => None } == listen_identity_of(v, fallback),
{
    let candidate = match v {
        TranscriptVerdict::Armed(n) => Some(n),
        TranscriptVerdict::OptedOut => None,
        TranscriptVerdict::Inconclusive => fallback,
    };
    match candidate {
        Some(c) => if validate_identity(c.as_str()) { Some(c) } else { None },
        None => None,
    }
}

/// An explicit opt-out is never overridden by a stale pid-correlated
/// registration, and an armed transcript always wins over the fallback.
pub proof fn law_opt_out_is_final(fallback: Option<String>, n: String)
    ensures
        listen_identity_of(TranscriptVerdict::OptedOut, fallback) is None,
        listen_identity_of(TranscriptVerdict::Armed(n), fallback) == (if valid_identity(n@) { Some(n@) } else { None::<Seq<char>> }),
{
}

/// Whether an await result goes on to a block decision: not aborted, not
/// timed out, and with envelopes.
pub fn await_delivers(outcome: &AwaitOutcome) -> (r: bool)
    ensures
        r == (!outcome.aborted && !outcome.timed_out && outcome.envelopes@.len() > 0),
{
    !outcome.aborted && !outcome.timed_out && outcome.envelopes.len() > 0
}

/// Where a delivered batch is backed up: `famp/received` under
/// `$XDG_STATE_HOME`, else under `$HOME/.local/state`; no backup without
/// either.
pub open spec fn backup_dir_of(xdg_state_home: Option<Seq<char>>, home: Option<Seq<char>>) -> Option<Seq<char>> {
    match xdg_state_home {
        Some(x) => Some(joined(joined(x, "famp"@), "received"@)),
        None => match home {
            Some(h) => Some(joined(joined(joined(joined(h, ".local"@), "state"@), "famp"@), "received"@)),
            None => None,
        },
    }
}

/// Resolves the backup directory from the environment's values.
pub fn backup_dir(xdg_state_home: Option<&str>, home: Option<&str>) -> (r: Option<String>)
    ensures
        match r {
            Some(d) => backup_dir_of(crate::text::opt_text(xdg_state_home), crate::text::opt_text(home)) == Some(d@),
            None => backup_dir_of(crate::text::opt_text(xdg_state_home), crate::text::opt_text(home)) is None,
        },
{
    let state = match xdg_state_home {
        Some(x) => join_path(x, "famp"),
        None => match home {
            Some(h) => {
                let a = join_path(h, ".local");
                let b = join_path(a.as_str(), "state");
                join_path(b.as_str(), "famp")
            },
            None => return None,
        },
    };
    Some(join_path(state.as_str(), "received"))
}

/// `<seconds>-<pid>-native.jsonl`.
pub fn backup_file_name(secs: u64, pid: u32) -> (r: String)
    ensures
        r@ == decimal(secs as nat) + "-"@ + decimal(pid as nat) + "-native.jsonl"@,
{
    let mut s = u64_to_decimal(secs);
    s.append("-");
    let p = u64_to_decimal(pid as u64);
    s.append(p.as_str());
    s.append("-native.jsonl");
    s
}

/// Where the native Codex Stop hook stands in its sequence.
#[derive(Debug)]
pub enum StopPhase {
    /// The hook input has not been read yet.
    Begin,
    /// The transcript (or the rollout of the session) is being scanned.
    Scanning,
    /// The pid-correlated fallback is looking for a listen identity.
    Resolving,
    /// The per-identity Stop-await lock is being taken.
    Locking(String),
    /// Parked in an await for the identity.
    Awaiting(String),
    /// The delivered batch is being backed up and the block decision written.
    Emitting(String),
    /// The hook has finished; it exits 0.
    Done,
}

/// What the outside work of the last action reported.
#[derive(Debug)]
pub enum StopEvent {
    /// The hook input: whether the stop only ends the session, and where
    /// the transcript comes from.
    Input { observe_only: bool, source: TranscriptSource },
    /// The listen state of the scanned transcript; `None` when no
    /// transcript could be read.
    Scanned(Option<ListenState>),
    /// The identity the pid-correlated fallback found, if any.
    Resolved(Option<String>),
    /// Whether the lock was taken (`false`: another live hook holds it).
    Locked(bool),
    /// The await's outcome; `None` when the await failed.
    Awaited(Option<AwaitOutcome>),
    /// The block decision was attempted.
    Emitted,
}

/// The outside work the hook does next.
#[derive(Debug)]
pub enum StopAction {
    Scan(TranscriptSource),
    ResolveViaPid,
    Lock(String),
    Await(String),
    BackupAndEmit(String, AwaitOutcome),
    /// Exit 0 without a block decision (or after writing one).
    Exit,
}

/// The step from a candidate identity: park on it when it is a valid
/// identity name, else stop.
pub open spec fn arm(n: String) -> (StopPhase, StopAction) {
    if valid_identity(n@) { (StopPhase::Locking(n), StopAction::Lock(n)) } else { (StopPhase::Done, StopAction::Exit) }
}

/// The Codex Stop hook's sequence, one step at a time. Every uncertain or
/// unexpected step ends the hook quietly (fail-open).
pub open spec fn stop_transition(phase: StopPhase, event: StopEvent) -> (StopPhase, StopAction) {
    match (phase, event) {
        (StopPhase::Begin, StopEvent::Input { observe_only, source }) => if observe_only {
            (StopPhase::Done, StopAction::Exit)
        } else {
            match source {
                TranscriptSource::Missing => (StopPhase::Resolving, StopAction::ResolveViaPid),
                _ => (StopPhase::Scanning, StopAction::Scan(source)),
            }
        },
        (StopPhase::Scanning, StopEvent::Scanned(st)) => match st {
            Some(ListenState::Active(n)) => arm(n),
            Some(ListenState::ExplicitlyOff) => (StopPhase::Done, StopAction::Exit),
            _ => (StopPhase::Resolving, StopAction::ResolveViaPid),
        },
        (StopPhase::Resolving, StopEvent::Resolved(found)) => match found {
            Some(n) => arm(n),
            None => (StopPhase::Done, StopAction::Exit),
        },
        (StopPhase::Locking(n), StopEvent::Locked(taken)) => if taken {
            (StopPhase::Awaiting(n), StopAction::Await(n))
        } else {
            (StopPhase::Done, StopAction::Exit)
        },
        (StopPhase::Awaiting(n), StopEvent::Awaited(result)) => match result {
            Some(o) => if !o.aborted && !o.timed_out && o.envelopes@.len() > 0 {
                (StopPhase::Emitting(n), StopAction::BackupAndEmit(n, o))
            } else {
                (StopPhase::Done, StopAction::Exit)
            },
            None => (StopPhase::Done, StopAction::Exit),
        },
        _ => (StopPhase::Done, StopAction::Exit),
    }
}

fn arm_identity(n: String) -> (r: (StopPhase, StopAction))
    ensures
        r == arm(n),
{
    if validate_identity(n.as_str()) {
        let m = n.clone();
        (StopPhase::Locking(n), StopAction::Lock(m))
    } else {
        (StopPhase::Done, StopAction::Exit)
    }
}

/// Advances the Codex Stop hook by one step.
pub fn stop_step(phase: StopPhase, event: StopEvent) -> (r: (StopPhase, StopAction))
    ensures
        r == stop_transition(phase, event),
{
    match (phase, event) {
        (StopPhase::Begin, StopEvent::Input { observe_only, source }) => if observe_only {
            (StopPhase::Done, StopAction::Exit)
        } else {
            match source {
                TranscriptSource::Missing => (StopPhase::Resolving, StopAction::ResolveViaPid),
                _ => (StopPhase::Scanning, StopAction::Scan(source)),
            }
        },
        (StopPhase::Scanning, StopEvent::Scanned(st)) => match st {
            Some(ListenState::Active(n)) => arm_identity(n),
            Some(ListenState::ExplicitlyOff) => (StopPhase::Done, StopAction::Exit),
            _ => (StopPhase::Resolving, StopAction::ResolveViaPid),
        },
        (StopPhase::Resolving, StopEvent::Resolved(found)) => match found {
            Some(n) => arm_identity(n),
            None => (StopPhase::Done, StopAction::Exit),
        },
        (StopPhase::Locking(n), StopEvent::Locked(taken)) => if taken {
            let m = n.clone();
            (StopPhase::Awaiting(n), StopAction::Await(m))
        } else {
            (StopPhase::Done, StopAction::Exit)
        },
        (StopPhase::Awaiting(n), StopEvent::Awaited(result)) => match result {
            Some(o) => if await_delivers(&o) {
                let m = n.clone();
                (StopPhase::Emitting(n), StopAction::BackupAndEmit(m, o))
            } else {
                (StopPhase::Done, StopAction::Exit)
            },
            None => (StopPhase::Done, StopAction::Exit),
        },
        _ => (StopPhase::Done, StopAction::Exit),
    }
}

/// The hook parks in an await only right after taking the per-identity
/// lock, and it writes a block decision only for an await that delivered
/// envelopes; an explicit opt-out and an observe-only stop end the hook.
pub proof fn law_stop_sequence_guards(phase: StopPhase, event: StopEvent, source: TranscriptSource)
    ensures
        stop_transition(phase, event).1 is Await ==> (phase is Locking && event matches StopEvent::Locked(true)),
        stop_transition(phase, event).1 matches StopAction::BackupAndEmit(_, o)
            ==> (phase is Awaiting && !o.aborted && !o.timed_out && o.envelopes@.len() > 0),
        stop_transition(StopPhase::Scanning, StopEvent::Scanned(Some(ListenState::ExplicitlyOff))) == (StopPhase::Done, StopAction::Exit),
        stop_transition(StopPhase::Begin, StopEvent::Input { observe_only: true, source }) == (StopPhase::Done, StopAction::Exit),
{
}

/// From the transcript scan, only an explicit opt-out ends the hook: a
/// scan that is inconclusive (no transcript, or no successful listen
/// registration) always goes on to the pid-correlated fallback, and an
/// active registration goes on to the lock for that identity when it is a
/// valid name.
pub proof fn law_inconclusive_scan_tries_pid_fallback(st: Option<ListenState>)
    ensures
        (st is None || st == Some(ListenState::Unresolved))
            ==> stop_transition(StopPhase::Scanning, StopEvent::Scanned(st)) == (StopPhase::Resolving, StopAction::ResolveViaPid),
        stop_transition(StopPhase::Scanning, StopEvent::Scanned(st)).1 is Exit
            ==> (st == Some(ListenState::ExplicitlyOff) || (st matches Some(ListenState::Active(n)) && !valid_identity(n@))),
        st matches Some(ListenState::Active(n)) ==> valid_identity(n@)
            ==> (stop_transition(StopPhase::Scanning, StopEvent::Scanned(st)).1 matches StopAction::Lock(m) && m@ == n@),
{
}

} // verus!
