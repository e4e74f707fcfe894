//! The tables of `famp inspect messages` and `famp inspect tasks`, from the
//! rows the broker's inspector returns.

use vstd::prelude::*;
use crate::inspect::table::{column_width, column_widths, format_row, row_views, table_row, views};
use crate::text::{decimal, owned, u64_to_decimal};

verus! {

/// The column widths of a table, as [`column_widths`] computes them.
pub open spec fn widths_of(headers: Seq<Seq<char>>, rows: Seq<Seq<Seq<char>>>) -> Seq<usize> {
    Seq::new(headers.len(), |i: int| column_width(headers, rows, i))
}

/// The header row, then one line per row.
pub open spec fn table_lines(headers: Seq<Seq<char>>, rows: Seq<Seq<Seq<char>>>, widths: Seq<usize>) -> Seq<char>
    decreases rows.len(),
{
    if rows.len() == 0 {
        table_row(headers, widths)
    } else {
        table_lines(headers, rows.drop_last(), widths) + "\n"@ + table_row(rows.last(), widths)
    }
}

/// The whole table: every column as wide as its widest entry.
pub open spec fn table_text(headers: Seq<Seq<char>>, rows: Seq<Seq<Seq<char>>>) -> Seq<char> {
    table_lines(headers, rows, widths_of(headers, rows))
}

/// Renders a table.
pub fn render_table(headers: &[String], rows: &Vec<Vec<String>>) -> (r: String)
    requires
        forall|k: int| 0 <= k < rows@.len() ==> #[trigger] rows@[k]@.len() == headers@.len(),
    ensures
        r@ == table_text(views(headers@), row_views(rows@)),
{
    let widths = column_widths(headers, rows);
    let ghost hv = views(headers@);
    let ghost rv = row_views(rows@);
    proof {
        assert(widths@ =~= widths_of(hv, rv));
    }
    let mut out = format_row(headers, widths.as_slice());
    let mut j: usize = 0;
    while j < rows.len()
        invariant
            j <= rows@.len(),
            widths@.len() == headers@.len(),
            forall|k: int| 0 <= k < rows@.len() ==> #[trigger] rows@[k]@.len() == headers@.len(),
            hv == views(headers@),
            rv == row_views(rows@),
            out@ == table_lines(hv, rv.take(j as int), widths@),
        decreases rows@.len() - j,
    {
        proof {
            assert(rv.take(j as int + 1).drop_last() =~= rv.take(j as int));
            assert(rv.take(j as int + 1).last() == views(rows@[j as int]@));
        }
        out.append("\n");
        let line = format_row(rows[j].as_slice(), widths.as_slice());
        out.append(line.as_str());
        j += 1;
    }
    proof {
        assert(rv.take(rv.len() as int) =~= rv);
    }
    out
}

/// Builds a row of owned cells.
fn cells_of(texts: &[&str]) -> (r: Vec<String>)
    ensures
        views(r@) == texts@.map_values(|t: &str| t@),
{
    let mut out: Vec<String> = Vec::new();
    let mut i: usize = 0;
    while i < texts.len()
        invariant
            i <= texts@.len(),
            out@.len() == i,
            views(out@) == texts@.take(i as int).map_values(|t: &str| t@),
        decreases texts@.len() - i,
    {
        let ghost before = out@;
        out.push(owned(texts[i]));
        proof {
            assert forall|k: int| 0 <= k < i + 1 implies #[trigger] views(out@)[k] == texts@.take(i as int + 1).map_values(|t: &str| t@)[k] by {
                if k < i {
                    assert(out@[k] == before[k]);
                    assert(views(before)[k] == before[k]@);
                }
            }
            assert(views(out@) =~= texts@.take(i as int + 1).map_values(|t: &str| t@));
        }
        i += 1;
    }
    proof {
        assert(texts@.take(texts@.len() as int) =~= texts@);
    }
    out
}

/// An envelope's metadata, as the inspector lists it (never its body).
#[derive(Debug)]
pub struct MessageRow {
    pub sender: String,
    pub recipient: String,
    pub task_id: String,
    pub class: String,
    pub state: String,
    pub timestamp: String,
    pub body_bytes: u64,
    pub body_sha256_prefix: String,
}

/// The columns of the message table.
pub open spec fn message_headers() -> Seq<Seq<char>> {
    seq!["FROM"@, "TO"@, "TASK_ID"@, "CLASS"@, "STATE"@, "TIMESTAMP"@, "BODY_BYTES"@, "SHA256_PREFIX"@]
}

/// The cells of one message row.
pub open spec fn message_cells(row: MessageRow) -> Seq<Seq<char>> {
    seq![row.sender@, row.recipient@, row.task_id@, row.class@, row.state@, row.timestamp@,
        decimal(row.body_bytes as nat), row.body_sha256_prefix@]
}

fn message_row_cells(row: &MessageRow) -> (r: Vec<String>)
    ensures
        views(r@) == message_cells(*row),
        r@.len() == 8,
{
    let mut v: Vec<String> = Vec::new();
    v.push(row.sender.clone());
    v.push(row.recipient.clone());
    v.push(row.task_id.clone());
    v.push(row.class.clone());
    v.push(row.state.clone());
    v.push(row.timestamp.clone());
    v.push(u64_to_decimal(row.body_bytes));
    v.push(row.body_sha256_prefix.clone());
    proof {
        assert(views(v@) =~= message_cells(*row));
    }
    v
}

/// The message table: a header line, then one line per envelope.
pub fn render_messages(rows: &[MessageRow]) -> (r: String)
    ensures
        r@ == table_text(message_headers(), rows@.map_values(|m: MessageRow| message_cells(m))),
{
    let headers = cells_of(&["FROM", "TO", "TASK_ID", "CLASS", "STATE", "TIMESTAMP", "BODY_BYTES", "SHA256_PREFIX"]);
    proof {
        reveal_strlit("FROM");
        assert(views(headers@) =~= message_headers());
    }
    let mut table: Vec<Vec<String>> = Vec::new();
    let mut i: usize = 0;
    while i < rows.len()
        invariant
            i <= rows@.len(),
            table@.len() == i,
            forall|k: int| 0 <= k < i ==> (#[trigger] table@[k])@.len() == 8,
            row_views(table@) == rows@.take(i as int).map_values(|m: MessageRow| message_cells(m)),
        decreases rows@.len() - i,
    {
        let cells = message_row_cells(&rows[i]);
        let ghost before = table@;
        let ghost gc = cells;
        table.push(cells);
        proof {
            assert(table@ == before.push(gc));
            assert forall|k: int| 0 <= k < i + 1 implies #[trigger] row_views(table@)[k] == rows@.take(i as int + 1).map_values(|m: MessageRow| message_cells(m))[k] by {
                if k < i {
                    assert(table@[k] == before[k]);
                    assert(row_views(before)[k] == views(before[k]@));
                }
            }
            assert(row_views(table@) =~= rows@.take(i as int + 1).map_values(|m: MessageRow| message_cells(m)));
        }
        i += 1;
    }
    proof {
        assert(rows@.take(rows@.len() as int) =~= rows@);
    }
    render_table(headers.as_slice(), &table)
}

/// Why an inspection cannot be rendered: the message to print and the
/// process exit code.
#[derive(Debug)]
pub struct InspectExit {
    pub message: String,
    pub code: i32,
}

pub open spec fn budget_message(elapsed_ms: u64) -> Seq<char> {
    "error: inspect timed out after "@ + decimal(elapsed_ms as nat) + "ms"@
}

fn budget_exceeded(elapsed_ms: u64) -> (r: InspectExit)
    ensures
        r.message@ == budget_message(elapsed_ms),
        r.code == 1,
{
    let mut m = owned("error: inspect timed out after ");
    let d = u64_to_decimal(elapsed_ms);
    m.append(d.as_str());
    m.append("ms");
    InspectExit { message: m, code: 1 }
}

/// What the inspector answered to a messages query.
#[derive(Debug)]
pub enum MessagesReply {
    List(Vec<MessageRow>),
    BudgetExceeded { elapsed_ms: u64 },
}

/// Renders a messages reply; a spent budget is exit code 1.
pub fn render_messages_reply(reply: &MessagesReply) -> (r: Result<String, InspectExit>)
    ensures
        match reply {
            MessagesReply::List(rows) => r matches Ok(s)
                && s@ == table_text(message_headers(), rows@.map_values(|m: MessageRow| message_cells(m))),
            MessagesReply::BudgetExceeded { elapsed_ms } => r matches Err(e)
                && e.code == 1 && e.message@ == budget_message(*elapsed_ms),
        },
{
    match reply {
        MessagesReply::List(rows) => Ok(render_messages(rows.as_slice())),
        MessagesReply::BudgetExceeded { elapsed_ms } => Err(budget_exceeded(*elapsed_ms)),
    }
}

/// What `time` formats `secs` (seconds since the Unix epoch, UTC) into as
/// RFC 3339; `None` when the instant is outside its range.
pub uninterp spec fn rfc3339_of(secs: i64) -> Option<Seq<char>>;

/// Formats a Unix timestamp as RFC 3339 with `time::OffsetDateTime`.
#[verifier::external_body]
fn rfc3339_utc(secs: i64) -> (r: Option<String>)
    ensures
        match r {
            Some(t) => rfc3339_of(secs) == Some(t@),
            None => rfc3339_of(secs) is None,
        },
{
    let t = time::OffsetDateTime::from_unix_timestamp(secs).ok()?;
    t.format(&time::format_description::well_known::Rfc3339).ok()
}

/// A timestamp as RFC 3339, or as its decimal seconds when it cannot be
/// formatted.
pub open spec fn unix_text(secs: u64) -> Seq<char> {
    if secs <= i64::MAX {
        match rfc3339_of(secs as i64) {
            Some(t) => t,
            None => decimal(secs as nat),
        }
    } else {
        decimal(secs as nat)
    }
}

/// Formats a Unix timestamp for the task table.
pub fn format_unix(secs: u64) -> (r: String)
    ensures
        r@ == unix_text(secs),
{
    if secs > 9_223_372_036_854_775_807u64 {
        return u64_to_decimal(secs);
    }
    match rfc3339_utc(secs as i64) {
        Some(t) => t,
        None => u64_to_decimal(secs),
    }
}

/// A broker start time as RFC 3339, or as its decimal seconds when it
/// cannot be formatted; the seconds are taken as an `i64` with
/// wrap-around, as the broker view reads them.
pub open spec fn broker_unix_text(secs: u64) -> Seq<char> {
    match rfc3339_of(secs as i64) {
        Some(t) => t,
        None => decimal(secs as nat),
    }
}

/// Formats the broker's start time.
pub fn format_broker_unix(secs: u64) -> (r: String)
    ensures
        r@ == broker_unix_text(secs),
{
    let wrapped: i64 = #[verifier::truncate] (secs as i64);
    match rfc3339_utc(wrapped) {
        Some(t) => t,
        None => u64_to_decimal(secs),
    }
}

/// A task, as the inspector lists it.
#[derive(Debug)]
pub struct TaskRow {
    pub task_id: String,
    pub state: String,
    pub peer: String,
    pub opened_at_unix_seconds: u64,
    pub last_send_at_unix_seconds: Option<u64>,
    pub last_recv_at_unix_seconds: Option<u64>,
    pub terminal: bool,
    pub envelope_count: u64,
    pub last_transition_age_seconds: u64,
    pub orphan: bool,
}

pub open spec fn bool_word(b: bool) -> Seq<char> {
    if b { "true"@ } else { "false"@ }
}

fn bool_text(b: bool) -> (r: String)
    ensures
        r@ == bool_word(b),
{
    if b { owned("true") } else { owned("false") }
}

/// The columns of the task table.
pub open spec fn task_headers() -> Seq<Seq<char>> {
    seq!["TASK_ID"@, "STATE"@, "PEER"@, "OPENED"@, "LAST_TRANSITION_AGE"@, "ENVELOPES"@, "TERMINAL"@, "ORPHAN"@]
}

/// The cells of one task row.
pub open spec fn task_cells(row: TaskRow) -> Seq<Seq<char>> {
    seq![row.task_id@, row.state@, row.peer@, unix_text(row.opened_at_unix_seconds),
        decimal(row.last_transition_age_seconds as nat) + "s"@, decimal(row.envelope_count as nat),
        bool_word(row.terminal), bool_word(row.orphan)]
}

fn task_row_cells(row: &TaskRow) -> (r: Vec<String>)
    ensures
        views(r@) == task_cells(*row),
        r@.len() == 8,
{
    let mut v: Vec<String> = Vec::new();
    v.push(row.task_id.clone());
    v.push(row.state.clone());
    v.push(row.peer.clone());
    v.push(format_unix(row.opened_at_unix_seconds));
    let mut age = u64_to_decimal(row.last_transition_age_seconds);
    age.append("s");
    v.push(age);
    v.push(u64_to_decimal(row.envelope_count));
    v.push(bool_text(row.terminal));
    v.push(bool_text(row.orphan));
    proof {
        assert(views(v@) =~= task_cells(*row));
    }
    v
}

/// The rows the task table shows: every row, or only the orphans.
pub open spec fn shown_tasks(rows: Seq<TaskRow>, orphans_only: bool) -> Seq<TaskRow> {
    if orphans_only { rows.filter(|t: TaskRow| t.orphan) } else { rows }
}

/// The task table; with `orphans_only`, rows that are not orphans are left
/// out.
pub fn render_tasks(rows: &[TaskRow], orphans_only: bool) -> (r: String)
    ensures
        r@ == table_text(task_headers(), shown_tasks(rows@, orphans_only).map_values(|t: TaskRow| task_cells(t))),
{
    let headers = cells_of(&["TASK_ID", "STATE", "PEER", "OPENED", "LAST_TRANSITION_AGE", "ENVELOPES", "TERMINAL", "ORPHAN"]);
    proof {
        assert(views(headers@) =~= task_headers());
    }
    let ghost pred = |t: TaskRow| t.orphan;
    let mut table: Vec<Vec<String>> = Vec::new();
    let mut i: usize = 0;
    while i < rows.len()
        invariant
            i <= rows@.len(),
            pred == (|t: TaskRow| t.orphan),
            table@.len() == shown_tasks(rows@.take(i as int), orphans_only).len(),
            forall|k: int| 0 <= k < table@.len() ==> (#[trigger] table@[k])@.len() == 8,
            row_views(table@) == shown_tasks(rows@.take(i as int), orphans_only).map_values(|t: TaskRow| task_cells(t)),
        decreases rows@.len() - i,
    {
        proof {
            reveal(Seq::filter);
            assert(rows@.take(i as int + 1).drop_last() =~= rows@.take(i as int));
            assert(rows@.take(i as int + 1).last() == rows@[i as int]);
        }
        let ghost before = table@;
        let ghost shown0 = shown_tasks(rows@.take(i as int), orphans_only);
        if !orphans_only || rows[i].orphan {
            let cells = task_row_cells(&rows[i]);
            let ghost gc = cells;
            table.push(cells);
            proof {
                assert(shown_tasks(rows@.take(i as int + 1), orphans_only) == shown0.push(rows@[i as int]));
                assert forall|k: int| 0 <= k < table@.len() implies #[trigger] row_views(table@)[k]
                    == shown0.push(rows@[i as int]).map_values(|t: TaskRow| task_cells(t))[k] by {
                    if k < before.len() {
                        assert(table@[k] == before[k]);
                        assert(row_views(before)[k] == views(before[k]@));
                    }
                }
                assert(row_views(table@) =~= shown0.push(rows@[i as int]).map_values(|t: TaskRow| task_cells(t)));
            }
        } else {
            proof {
                assert(shown_tasks(rows@.take(i as int + 1), orphans_only) == shown0);
            }
        }
        i += 1;
    }
    proof {
        assert(rows@.take(rows@.len() as int) =~= rows@);
    }
    render_table(headers.as_slice(), &table)
}

/// One envelope of a task's history.
#[derive(Debug)]
pub struct EnvelopeRow {
    pub envelope_id: String,
    pub sender: String,
    pub recipient: String,
    pub fsm_transition: String,
    pub timestamp: String,
    pub sig_verified: bool,
}

pub open spec fn envelope_headers() -> Seq<Seq<char>> {
    seq!["ENVELOPE_ID"@, "SENDER"@, "RECIPIENT"@, "FSM_TRANSITION"@, "TIMESTAMP"@, "SIG_VERIFIED"@]
}

pub open spec fn envelope_cells(e: EnvelopeRow) -> Seq<Seq<char>> {
    seq![e.envelope_id@, e.sender@, e.recipient@, e.fsm_transition@, e.timestamp@, bool_word(e.sig_verified)]
}

fn envelope_row_cells(e: &EnvelopeRow) -> (r: Vec<String>)
    ensures
        views(r@) == envelope_cells(*e),
        r@.len() == 6,
{
    let mut v: Vec<String> = Vec::new();
    v.push(e.envelope_id.clone());
    v.push(e.sender.clone());
    v.push(e.recipient.clone());
    v.push(e.fsm_transition.clone());
    v.push(e.timestamp.clone());
    v.push(bool_text(e.sig_verified));
    proof {
        assert(views(v@) =~= envelope_cells(*e));
    }
    v
}

/// A task's envelope history: `task_id: <id>`, a blank line, the table.
pub fn render_task_detail(task_id: &str, envelopes: &[EnvelopeRow]) -> (r: String)
    ensures
        r@ == "task_id: "@ + task_id@ + "\n\n"@ + table_text(envelope_headers(), envelopes@.map_values(|e: EnvelopeRow| envelope_cells(e))),
{
    let headers = cells_of(&["ENVELOPE_ID", "SENDER", "RECIPIENT", "FSM_TRANSITION", "TIMESTAMP", "SIG_VERIFIED"]);
    proof {
        assert(views(headers@) =~= envelope_headers());
    }
    let mut table: Vec<Vec<String>> = Vec::new();
    let mut i: usize = 0;
    while i < envelopes.len()
        invariant
            i <= envelopes@.len(),
            table@.len() == i,
            forall|k: int| 0 <= k < i ==> (#[trigger] table@[k])@.len() == 6,
            row_views(table@) == envelopes@.take(i as int).map_values(|e: EnvelopeRow| envelope_cells(e)),
        decreases envelopes@.len() - i,
    {
        let cells = envelope_row_cells(&envelopes[i]);
        let ghost before = table@;
        let ghost gc = cells;
        table.push(cells);
        proof {
            assert(table@ == before.push(gc));
            assert forall|k: int| 0 <= k < i + 1 implies #[trigger] row_views(table@)[k]
                == envelopes@.take(i as int + 1).map_values(|e: EnvelopeRow| envelope_cells(e))[k] by {
                if k < i {
                    assert(table@[k] == before[k]);
                    assert(row_views(before)[k] == views(before[k]@));
                }
            }
            assert(row_views(table@) =~= envelopes@.take(i as int + 1).map_values(|e: EnvelopeRow| envelope_cells(e)));
        }
        i += 1;
    }
    proof {
        assert(envelopes@.take(envelopes@.len() as int) =~= envelopes@);
    }
    let mut out = owned("task_id: ");
    out.append(task_id);
    out.append("\n\n");
    let t = render_table(headers.as_slice(), &table);
    out.append(t.as_str());
    out
}

/// What the inspector answered to a tasks query (the full-detail reply is
/// printed as JSON by the caller).
#[derive(Debug)]
pub enum TasksReply {
    List(Vec<TaskRow>),
    Detail { task_id: String, envelopes: Vec<EnvelopeRow> },
    BudgetExceeded { elapsed_ms: u64 },
}

/// Renders a tasks reply; a spent budget is exit code 1.
pub fn render_tasks_reply(reply: &TasksReply, orphans_only: bool) -> (r: Result<String, InspectExit>)
    ensures
        match reply {
            TasksReply::List(rows) => r matches Ok(s)
                && s@ == table_text(task_headers(), shown_tasks(rows@, orphans_only).map_values(|t: TaskRow| task_cells(t))),
            TasksReply::Detail { task_id, envelopes } => r matches Ok(s)
                && s@ == "task_id: "@ + task_id@ + "\n\n"@ + table_text(envelope_headers(), envelopes@.map_values(|e: EnvelopeRow| envelope_cells(e))),
            TasksReply::BudgetExceeded { elapsed_ms } => r matches Err(e)
                && e.code == 1 && e.message@ == budget_message(*elapsed_ms),
        },
{
    match reply {
        TasksReply::List(rows) => Ok(render_tasks(rows.as_slice(), orphans_only)),
        TasksReply::Detail { task_id, envelopes } => Ok(render_task_detail(task_id.as_str(), envelopes.as_slice())),
        TasksReply::BudgetExceeded { elapsed_ms } => Err(budget_exceeded(*elapsed_ms)),
    }
}

/// A broker-side `await` parked on a mailbox.
#[derive(Debug)]
pub struct WaiterRow {
    pub name: String,
    pub mailbox: String,
    pub cursor: u64,
    pub deadline_ms: u64,
}

pub open spec fn waiter_headers() -> Seq<Seq<char>> {
    seq!["NAME"@, "MAILBOX"@, "CURSOR"@, "DEADLINE_MS"@]
}

pub open spec fn waiter_cells(w: WaiterRow) -> Seq<Seq<char>> {
    seq![w.name@, w.mailbox@, decimal(w.cursor as nat), decimal(w.deadline_ms as nat)]
}

/// The waiter listing: the table, or its header and `(no active waiters)`.
pub open spec fn waiters_text(rows: Seq<WaiterRow>) -> Seq<char> {
    if rows.len() == 0 {
        table_text(waiter_headers(), Seq::empty()) + "\n(no active waiters)"@
    } else {
        table_text(waiter_headers(), rows.map_values(|w: WaiterRow| waiter_cells(w)))
    }
}

/// Renders the active waiters.
pub fn render_waiters(rows: &[WaiterRow]) -> (r: String)
    ensures
        r@ == waiters_text(rows@),
{
    let headers = cells_of(&["NAME", "MAILBOX", "CURSOR", "DEADLINE_MS"]);
    proof {
        assert(views(headers@) =~= waiter_headers());
    }
    let mut table: Vec<Vec<String>> = Vec::new();
    let mut i: usize = 0;
    while i < rows.len()
        invariant
            i <= rows@.len(),
            table@.len() == i,
            forall|k: int| 0 <= k < i ==> (#[trigger] table@[k])@.len() == 4,
            row_views(table@) == rows@.take(i as int).map_values(|w: WaiterRow| waiter_cells(w)),
        decreases rows@.len() - i,
    {
        let mut cells: Vec<String> = Vec::new();
        cells.push(rows[i].name.clone());
        cells.push(rows[i].mailbox.clone());
        cells.push(u64_to_decimal(rows[i].cursor));
        cells.push(u64_to_decimal(rows[i].deadline_ms));
        proof {
            assert(views(cells@) =~= waiter_cells(rows@[i as int]));
        }
        let ghost before = table@;
        let ghost gc = cells;
        table.push(cells);
        proof {
            assert(table@ == before.push(gc));
            assert forall|k: int| 0 <= k < i + 1 implies #[trigger] row_views(table@)[k]
                == rows@.take(i as int + 1).map_values(|w: WaiterRow| waiter_cells(w))[k] by {
                if k < i {
                    assert(table@[k] == before[k]);
                    assert(row_views(before)[k] == views(before[k]@));
                }
            }
            assert(row_views(table@) =~= rows@.take(i as int + 1).map_values(|w: WaiterRow| waiter_cells(w)));
        }
        i += 1;
    }
    proof {
        assert(rows@.take(rows@.len() as int) =~= rows@);
    }
    let mut out = render_table(headers.as_slice(), &table);
    if rows.len() == 0 {
        proof {
            assert(row_views(table@) =~= Seq::<Seq<Seq<char>>>::empty());
        }
        out.append("\n(no active waiters)");
    }
    out
}

/// How the holder's pid of an unresponsive socket was found.
#[derive(Clone, Copy, Debug, PartialEq, Eq, Structural)]
pub enum PidSource {
    Peercred,
    Lsof,
    Unknown,
}

pub open spec fn pid_source_word(p: PidSource) -> Seq<char> {
    match p {
        PidSource::Peercred => "peercred"@,
        PidSource::Lsof => "lsof"@,
        PidSource::Unknown => "unknown"@,
    }
}

/// What probing the broker socket observed.
#[derive(Debug)]
pub enum BrokerObservation {
    /// The broker answered the inspection call.
    Answered { pid: u32, socket_path: String, started_at_unix_seconds: u64, build_version: String },
    /// The reply did not match the schema; the decoding error's message.
    SchemaMismatch(String),
    /// The inspection call failed; the error's message.
    CallFailed(String),
    /// No socket file.
    DownClean,
    /// A socket file that refuses connections.
    StaleSocket,
    /// Something holds the socket but rejected Hello; its summary.
    HelloRejected(String),
    /// Connecting was not permitted.
    PermissionDenied,
}

/// The broker's state, as `famp inspect broker` reports it.
#[derive(Debug)]
pub enum BrokerStateRender {
    Healthy { pid: u32, socket_path: String, started_at_unix_seconds: u64, build_version: String },
    DownClean { socket_path: String },
    StaleSocket { socket_path: String },
    OrphanHolder { socket_path: String, holder_pid: Option<u32>, pid_source: PidSource, evidence: String },
    PermissionDenied { socket_path: String },
}

/// The evidence an orphan holder is reported with.
pub open spec fn orphan_evidence(obs: BrokerObservation) -> Option<Seq<char>> {
    match obs {
        BrokerObservation::SchemaMismatch(e) => Some("schema_mismatch: "@ + e@),
        BrokerObservation::CallFailed(e) => Some("inspect_call_failed: "@ + e@),
        BrokerObservation::HelloRejected(e) => Some("hello_rejected: "@ + e@),
        _ => None,
    }
}

fn prefixed(p: &str, s: &str) -> (r: String)
    ensures
        r@ == p@ + s@,
{
    let mut out = owned(p);
    out.append(s);
    out
}

/// Classifies the probe of the socket at `socket`; `holder` is the pid of
/// the socket's holder and how it was found, for an orphan holder.
pub fn classify_broker(socket: &str, obs: BrokerObservation, holder: (Option<u32>, PidSource)) -> (r: BrokerStateRender)
    ensures
        match obs {
            BrokerObservation::Answered { pid, socket_path, started_at_unix_seconds, build_version } =>
                r == (BrokerStateRender::Healthy { pid, socket_path, started_at_unix_seconds, build_version }),
            BrokerObservation::DownClean => r matches BrokerStateRender::DownClean { socket_path } && socket_path@ == socket@,
            BrokerObservation::StaleSocket => r matches BrokerStateRender::StaleSocket { socket_path } && socket_path@ == socket@,
            BrokerObservation::PermissionDenied => r matches BrokerStateRender::PermissionDenied { socket_path } && socket_path@ == socket@,
            _ => r matches BrokerStateRender::OrphanHolder { socket_path, holder_pid, pid_source, evidence }
                && socket_path@ == socket@ && holder_pid == holder.0 && pid_source == holder.1
                && orphan_evidence(obs) == Some(evidence@),
        },
{
    match obs {
        BrokerObservation::Answered { pid, socket_path, started_at_unix_seconds, build_version } =>
            BrokerStateRender::Healthy { pid, socket_path, started_at_unix_seconds, build_version },
        BrokerObservation::DownClean => BrokerStateRender::DownClean { socket_path: owned(socket) },
        BrokerObservation::StaleSocket => BrokerStateRender::StaleSocket { socket_path: owned(socket) },
        BrokerObservation::PermissionDenied => BrokerStateRender::PermissionDenied { socket_path: owned(socket) },
        BrokerObservation::SchemaMismatch(e) => BrokerStateRender::OrphanHolder {
            socket_path: owned(socket), holder_pid: holder.0, pid_source: holder.1,
            evidence: prefixed("schema_mismatch: ", e.as_str()),
        },
        BrokerObservation::CallFailed(e) => BrokerStateRender::OrphanHolder {
            socket_path: owned(socket), holder_pid: holder.0, pid_source: holder.1,
            evidence: prefixed("inspect_call_failed: ", e.as_str()),
        },
        BrokerObservation::HelloRejected(e) => BrokerStateRender::OrphanHolder {
            socket_path: owned(socket), holder_pid: holder.0, pid_source: holder.1,
            evidence: prefixed("hello_rejected: ", e.as_str()),
        },
    }
}

/// `famp inspect broker` exits 0 only for a healthy broker.
pub open spec fn broker_exit(r: BrokerStateRender) -> i32 {
    if r is Healthy { 0 } else { 1 }
}

/// The exit code of `famp inspect broker`.
pub fn broker_exit_code(r: &BrokerStateRender) -> (c: i32)
    ensures
        c == broker_exit(*r),
{
    match r {
        BrokerStateRender::Healthy { .. } => 0,
        _ => 1,
    }
}

/// The one-line human rendering of the broker's state.
pub open spec fn broker_human(r: BrokerStateRender) -> Seq<char> {
    match r {
        BrokerStateRender::Healthy { pid, socket_path, started_at_unix_seconds, build_version } =>
            "state: HEALTHY pid="@ + decimal(pid as nat) + " socket="@ + socket_path@ + " started_at="@
                + broker_unix_text(started_at_unix_seconds) + " build="@ + build_version@,
        BrokerStateRender::DownClean { socket_path } =>
            "state: DOWN_CLEAN socket="@ + socket_path@ + " evidence=no_socket_file"@,
        BrokerStateRender::StaleSocket { socket_path } =>
            "state: STALE_SOCKET socket="@ + socket_path@ + " evidence=connect_econnrefused"@,
        BrokerStateRender::OrphanHolder { socket_path, holder_pid, pid_source, evidence } =>
            "state: ORPHAN_HOLDER socket="@ + socket_path@ + " holder_pid="@
                + (match holder_pid { Some(p) => decimal(p as nat), None => "unknown"@ })
                + " pid_source="@ + pid_source_word(pid_source) + " evidence="@ + evidence@,
        BrokerStateRender::PermissionDenied { socket_path } =>
            "state: PERMISSION_DENIED socket="@ + socket_path@ + " evidence=connect_eacces"@,
    }
}

/// Renders the broker's state for humans.
pub fn render_broker_human(r: &BrokerStateRender) -> (s: String)
    ensures
        s@ == broker_human(*r),
{
    match r {
        BrokerStateRender::Healthy { pid, socket_path, started_at_unix_seconds, build_version } => {
            let mut s = owned("state: HEALTHY pid=");
            let p = u64_to_decimal(*pid as u64);
            s.append(p.as_str());
            s.append(" socket=");
            s.append(socket_path.as_str());
            s.append(" started_at=");
            let t = format_broker_unix(*started_at_unix_seconds);
            s.append(t.as_str());
            s.append(" build=");
            s.append(build_version.as_str());
            s
        },
        BrokerStateRender::DownClean { socket_path } => {
            let mut s = owned("state: DOWN_CLEAN socket=");
            s.append(socket_path.as_str());
            s.append(" evidence=no_socket_file");
            s
        },
        BrokerStateRender::StaleSocket { socket_path } => {
            let mut s = owned("state: STALE_SOCKET socket=");
            s.append(socket_path.as_str());
            s.append(" evidence=connect_econnrefused");
            s
        },
        BrokerStateRender::OrphanHolder { socket_path, holder_pid, pid_source, evidence } => {
            let mut s = owned("state: ORPHAN_HOLDER socket=");
            s.append(socket_path.as_str());
            s.append(" holder_pid=");
            match holder_pid {
                Some(p) => {
                    let d = u64_to_decimal(*p as u64);
                    s.append(d.as_str());
                },
                None => s.append("unknown"),
            }
            s.append(" pid_source=");
            match pid_source {
                PidSource::Peercred => s.append("peercred"),
                PidSource::Lsof => s.append("lsof"),
                PidSource::Unknown => s.append("unknown"),
            }
            s.append(" evidence=");
            s.append(evidence.as_str());
            s
        },
        BrokerStateRender::PermissionDenied { socket_path } => {
            let mut s = owned("state: PERMISSION_DENIED socket=");
            s.append(socket_path.as_str());
            s.append(" evidence=connect_eacces");
            s
        },
    }
}

} // verus!
