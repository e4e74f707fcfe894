//! `famp await`: the line printed for an await's outcome, the diagnostic
//! of a timeout, and picking the envelope that answers a task.

use vstd::prelude::*;
use crate::hook::emit::{AwaitOutcome, Mailbox};
use crate::install::json_merge::lookup2;
use crate::json::{json_copy, json_eqv, member, str_of, JsonValue};
use crate::members::{lemma_find_key_bounds, lemma_with_member, set_member};
use crate::duration::{duration_millis, millis_of};
use crate::text::{opt_text, owned, str_eq};

verus! {

/// Sets the member `key` of an object's members; the other members read as
/// before.
pub fn put(m: &mut Vec<(String, JsonValue)>, key: &str, v: JsonValue)
    ensures
        member(JsonValue::Object(*final(m)), key@) == Some(v),
        forall|k: Seq<char>| k != key@ ==> #[trigger] member(JsonValue::Object(*final(m)), k) == member(JsonValue::Object(*old(m)), k),
{
    let k = owned(key);
    let ghost (gk, gv, m0, old_obj) = (k, v, m@, JsonValue::Object(*m));
    set_member(m, k, v);
    proof {
        lemma_with_member(m0, gk, gv, key@);
        lemma_find_key_bounds(m@, key@);
        assert forall|o: Seq<char>| o != key@ implies #[trigger] member(JsonValue::Object(*m), o) == member(old_obj, o) by {
            lemma_with_member(m0, gk, gv, o);
            lemma_find_key_bounds(m0, o);
            lemma_find_key_bounds(m@, o);
        }
    }
}

/// The task an envelope belongs to: a request opens the task its `id`
/// names; every other class refers back to it through `causality.ref`.
pub open spec fn task_id_of(v: JsonValue) -> Option<Seq<char>> {
    match str_of(member(v, "class"@)) {
        None => None,
        Some(c) => if c == "request"@ {
            str_of(member(v, "id"@))
        } else {
            str_of(lookup2(v, "causality"@, "ref"@))
        },
    }
}

/// The string member `key`, if it is a string.
fn str_member(v: &JsonValue, key: &str) -> (r: Option<String>)
    ensures
        match r {
            Some(s) => str_of(member(*v, key@)) == Some(s@),
            None => str_of(member(*v, key@)) is None,
        },
{
    match v.get(key) {
        Some(x) => match x.as_str() {
            Some(s) => Some(s.clone()),
            None => None,
        },
        None => None,
    }
}

/// Extracts the task id of an envelope.
pub fn extract_task_id(v: &JsonValue) -> (r: Option<String>)
    ensures
        match r {
            Some(s) => task_id_of(*v) == Some(s@),
            None => task_id_of(*v) is None,
        },
{
    let class = match str_member(v, "class") {
        Some(c) => c,
        None => return None,
    };
    if str_eq(class.as_str(), "request") {
        str_member(v, "id")
    } else {
        match v.get("causality") {
            Some(c) => str_member(c, "ref"),
            None => None,
        }
    }
}

/// An entry answers the filter: any entry without a filter; with one, a
/// reply (never the request itself) on that task.
pub open spec fn answers(v: JsonValue, filter: Option<Seq<char>>) -> bool {
    match filter {
        None => true,
        Some(f) => str_of(member(v, "class"@)) != Some("request"@) && task_id_of(v) == Some(f),
    }
}

/// A text member, or the empty text.
pub open spec fn text_or_empty(t: Option<Seq<char>>) -> Seq<char> {
    match t {
        Some(s) => s,
        None => Seq::empty(),
    }
}

/// `o` is the shaped form of the entry `v` ending at `offset`:
/// `{"body", "class", "from", "offset", "task_id"}`.
pub open spec fn is_shaped_entry(o: JsonValue, v: JsonValue, offset: u64) -> bool {
    &&& o is Object
    &&& member(o, "offset"@) == Some(JsonValue::UInt(offset))
    &&& str_of(member(o, "task_id"@)) == Some(text_or_empty(task_id_of(v)))
    &&& str_of(member(o, "from"@)) == Some(text_or_empty(str_of(member(v, "from"@))))
    &&& str_of(member(o, "class"@)) == Some(text_or_empty(str_of(member(v, "class"@))))
    &&& member(o, "body"@) matches Some(b) && json_eqv(match member(v, "body"@) { Some(x) => x, None => JsonValue::Null }, b)
}

fn text_or_empty_of(t: Option<String>) -> (r: String)
    ensures
        r@ == text_or_empty(match t { Some(s) => Some(s@), None => None }),
{
    match t {
        Some(s) => s,
        None => String::new(),
    }
}

/// Shapes one entry.
fn shape_entry(v: &JsonValue, offset: u64) -> (r: JsonValue)
    ensures
        is_shaped_entry(r, *v, offset),
{
    proof {
        reveal_strlit("offset");
        reveal_strlit("task_id");
        reveal_strlit("from");
        reveal_strlit("class");
        reveal_strlit("body");
    }
    let task = text_or_empty_of(extract_task_id(v));
    let from = text_or_empty_of(str_member(v, "from"));
    let class = text_or_empty_of(str_member(v, "class"));
    let body = match v.get("body") {
        Some(b) => json_copy(b),
        None => JsonValue::Null,
    };
    let ghost gb = body;
    let mut m: Vec<(String, JsonValue)> = Vec::new();
    put(&mut m, "offset", JsonValue::UInt(offset));
    put(&mut m, "task_id", JsonValue::Str(task));
    put(&mut m, "from", JsonValue::Str(from));
    put(&mut m, "class", JsonValue::Str(class));
    put(&mut m, "body", body);
    proof {
        assert("from"@[0] != "body"@[0]);
        assert("offset"@[0] != "body"@[0]);
        assert("class"@[0] != "body"@[0]);
        assert("task_id"@[0] != "body"@[0]);
        assert("offset"@[0] != "class"@[0]);
        assert("task_id"@[0] != "class"@[0]);
        assert("from"@[0] != "class"@[0]);
        assert("offset"@[0] != "from"@[0]);
        assert("task_id"@[0] != "from"@[0]);
        assert("offset"@[0] != "task_id"@[0]);
        if member(*v, "body"@) is None {
            assert(json_eqv(JsonValue::Null, gb));
        }
    }
    JsonValue::Object(m)
}

/// The index of the first entry that answers the filter.
pub open spec fn first_answer(entries: Seq<(JsonValue, u64)>, filter: Option<Seq<char>>, i: int) -> bool {
    &&& 0 <= i < entries.len()
    &&& answers(entries[i].0, filter)
    &&& forall|k: int| 0 <= k < i ==> !answers(#[trigger] entries[k].0, filter)
}

fn answers_filter(v: &JsonValue, filter: Option<&str>) -> (r: bool)
    ensures
        r == answers(*v, opt_text(filter)),
{
    match filter {
        None => true,
        Some(f) => {
            let is_request = match str_member(v, "class") {
                Some(c) => str_eq(c.as_str(), "request"),
                None => false,
            };
            if is_request {
                proof {
                    reveal_strlit("request");
                }
                return false;
            }
            match extract_task_id(v) {
                Some(t) => str_eq(t.as_str(), f),
                None => false,
            }
        },
    }
}

/// The first entry that answers the filter, shaped, and the offset to
/// advance to when it is consumed. Requests are skipped under a filter: a
/// task's originator waits for replies, not for its own request.
pub fn find_match(entries: &[(JsonValue, u64)], task_filter: Option<&str>) -> (r: Option<(JsonValue, u64)>)
    ensures
        match r {
            Some((o, off)) => exists|i: int| #[trigger] first_answer(entries@, opt_text(task_filter), i)
                && off == entries@[i].1 && is_shaped_entry(o, entries@[i].0, off),
            None => forall|k: int| 0 <= k < entries@.len() ==> !answers(#[trigger] entries@[k].0, opt_text(task_filter)),
        },
{
    let ghost filter = opt_text(task_filter);
    let mut i: usize = 0;
    while i < entries.len()
        invariant
            i <= entries@.len(),
            filter == (opt_text(task_filter)),
            forall|k: int| 0 <= k < i ==> !answers(#[trigger] entries@[k].0, filter),
        decreases entries@.len() - i,
    {
        if answers_filter(&entries[i].0, task_filter) {
            let o = shape_entry(&entries[i].0, entries[i].1);
            proof {
                assert(first_answer(entries@, filter, i as int));
            }
            return Some((o, entries[i].1));
        }
        i += 1;
    }
    None
}

/// `o` is the line for an await outcome, each object holding exactly the
/// listed members, keys in sorted order: `{"aborted": true}` when
/// cancelled; `{"diagnostic"?, "timeout": true}` on a timeout (the
/// diagnostic when there is one); otherwise the envelopes, the mailbox and
/// the resume offset.
pub open spec fn is_outcome_json(o: JsonValue, a: AwaitOutcome) -> bool {
    match o {
        JsonValue::Object(m) => if a.aborted {
            m@.len() == 1 && m@[0].0@ == "aborted"@ && m@[0].1 == JsonValue::Bool(true)
        } else if a.timed_out {
            match a.diagnostic {
                Some(d) => m@.len() == 2 && m@[0].0@ == "diagnostic"@ && str_of(Some(m@[0].1)) == Some(d@)
                    && m@[1].0@ == "timeout"@ && m@[1].1 == JsonValue::Bool(true),
                None => m@.len() == 1 && m@[0].0@ == "timeout"@ && m@[0].1 == JsonValue::Bool(true),
            }
        } else {
            &&& m@.len() == 3
            &&& m@[0].0@ == "envelopes"@
            &&& m@[0].1 matches JsonValue::Array(es) && es@.len() == a.envelopes@.len()
                && forall|k: int| 0 <= k < es@.len() ==> json_eqv(a.envelopes@[k], #[trigger] es@[k])
            &&& m@[1].0@ == "mailbox"@
            &&& is_mailbox_json(m@[1].1, a.mailbox)
            &&& m@[2].0@ == "next_offset"@
            &&& m@[2].1 == (match a.next_offset { Some(n) => JsonValue::UInt(n), None => JsonValue::Null })
        },
        _ => false,
    }
}

/// The mailbox member: `null`, or exactly `{"kind", "name"}`.
pub open spec fn is_mailbox_json(x: JsonValue, mb: Option<Mailbox>) -> bool {
    match mb {
        None => x == JsonValue::Null,
        Some(mb) => {
            let (kind, name) = match mb {
                Mailbox::Channel(n) => ("channel"@, n@),
                Mailbox::Agent(n) => ("agent"@, n@),
            };
            x matches JsonValue::Object(f) && f@.len() == 2
                && f@[0].0@ == "kind"@ && str_of(Some(f@[0].1)) == Some(kind)
                && f@[1].0@ == "name"@ && str_of(Some(f@[1].1)) == Some(name)
        },
    }
}

fn mailbox_json(kind: &str, name: &str) -> (r: JsonValue)
    ensures
        r matches JsonValue::Object(f) && f@.len() == 2
            && f@[0].0@ == "kind"@ && str_of(Some(f@[0].1)) == Some(kind@)
            && f@[1].0@ == "name"@ && str_of(Some(f@[1].1)) == Some(name@),
{
    let mut m: Vec<(String, JsonValue)> = Vec::new();
    m.push((owned("kind"), JsonValue::Str(owned(kind))));
    m.push((owned("name"), JsonValue::Str(owned(name))));
    JsonValue::Object(m)
}

/// Shapes an await outcome into the JSON line `famp await` prints.
pub fn outcome_json(a: &AwaitOutcome) -> (r: JsonValue)
    ensures
        is_outcome_json(r, *a),
{
    let mut m: Vec<(String, JsonValue)> = Vec::new();
    if a.aborted {
        m.push((owned("aborted"), JsonValue::Bool(true)));
        return JsonValue::Object(m);
    }
    if a.timed_out {
        match &a.diagnostic {
            Some(d) => m.push((owned("diagnostic"), JsonValue::Str(d.clone()))),
            None => {},
        }
        m.push((owned("timeout"), JsonValue::Bool(true)));
        return JsonValue::Object(m);
    }
    let mut es: Vec<JsonValue> = Vec::new();
    let mut i: usize = 0;
    while i < a.envelopes.len()
        invariant
            i <= a.envelopes@.len(),
            es@.len() == i,
            forall|k: int| 0 <= k < i ==> json_eqv(a.envelopes@[k], #[trigger] es@[k]),
        decreases a.envelopes@.len() - i,
    {
        es.push(json_copy(&a.envelopes[i]));
        i += 1;
    }
    m.push((owned("envelopes"), JsonValue::Array(es)));
    let mb = match &a.mailbox {
        None => JsonValue::Null,
        Some(Mailbox::Channel(n)) => mailbox_json("channel", n.as_str()),
        Some(Mailbox::Agent(n)) => mailbox_json("agent", n.as_str()),
    };
    m.push((owned("mailbox"), mb));
    let next = match a.next_offset {
        Some(n) => JsonValue::UInt(n),
        None => JsonValue::Null,
    };
    m.push((owned("next_offset"), next));
    JsonValue::Object(m)
}

/// The diagnostic printed with an await timeout, pointing at the inbox
/// and at `wait-reply`; with a task, it says whether a matching reply is
/// already in the inbox.
pub open spec fn timeout_text(identity: Seq<char>, task: Option<Seq<char>>, reply_present: bool) -> Seq<char> {
    let base = match task {
        None => "await timed out waiting for a new message"@,
        Some(t) => "await timed out waiting for new messages on task "@ + t,
    };
    let hint = "Run `famp inbox list --as "@ + identity + " --include-terminal` to inspect already-delivered messages, or use `famp wait-reply --as "@
        + identity + " --task <task_id>` for reply waits that check the inbox before blocking."@;
    if task is Some && reply_present {
        base + "; a matching reply is already present in the inbox but was not new past the await cursor. "@ + hint
    } else {
        base + ". "@ + hint
    }
}

/// Builds the timeout diagnostic.
pub fn timeout_diagnostic(identity: &str, task: Option<&str>, reply_present: bool) -> (r: String)
    ensures
        r@ == timeout_text(identity@, opt_text(task), reply_present),
{
    let mut s = match task {
        None => owned("await timed out waiting for a new message"),
        Some(t) => {
            let mut b = owned("await timed out waiting for new messages on task ");
            b.append(t);
            b
        },
    };
    match task {
        Some(_) => {
            if reply_present {
                s.append("; a matching reply is already present in the inbox but was not new past the await cursor. ");
            } else {
                s.append(". ");
            }
        },
        None => s.append(". "),
    }
    s.append("Run `famp inbox list --as ");
    s.append(identity);
    s.append(" --include-terminal` to inspect already-delivered messages, or use `famp wait-reply --as ");
    s.append(identity);
    s.append(" --task <task_id>` for reply waits that check the inbox before blocking.");
    s
}

/// The await timeout as the whole milliseconds sent to the broker,
/// saturating at `u64::MAX`.
pub fn timeout_millis(secs: u64, nanos: u32) -> (r: u64)
    ensures
        r == millis_of(secs, nanos),
{
    duration_millis(secs, nanos)
}

/// What ended an await round-trip: the broker's reply, or the caller's
/// abort signal winning the race against it.
#[derive(Debug)]
pub enum AwaitReply {
    /// `AwaitOk`: the delivered envelopes, their mailbox and the offset
    /// to resume from.
    Delivered { envelopes: Vec<JsonValue>, mailbox: Mailbox, next_offset: u64 },
    /// `AwaitTimeout`: nothing arrived in time.
    Timeout,
    /// The abort signal fired first.
    Aborted,
    /// An error reply of kind `NotRegistered`.
    NotRegistered,
    /// An error reply of any other kind (its kind's name and message).
    Failed { kind: String, message: String },
    /// A reply of an unexpected variant (as debug text).
    Unexpected(String),
}

/// Why an await failed.
#[derive(Debug)]
pub enum AwaitError {
    /// No live `famp register` holds the identity.
    NotRegisteredHint { name: String },
    /// The broker answered with an error.
    BusError { kind: String, message: String },
    /// The broker's reply made no sense for an await.
    BusClient { detail: String },
}

pub open spec fn await_error_message(e: AwaitError) -> Seq<char> {
    match e {
        AwaitError::NotRegisteredHint { name } => name@ + " is not registered — start \"famp register "@ + name@ + "\" in another terminal first"@,
        AwaitError::BusError { kind, message } => "bus error: "@ + kind@ + ": "@ + message@,
        AwaitError::BusClient { detail } => "bus client error: "@ + detail@,
    }
}

impl AwaitError {
    /// The error's message.
    pub fn message(&self) -> (r: String)
        ensures
            r@ == await_error_message(*self),
    {
        match self {
            AwaitError::NotRegisteredHint { name } => {
                let mut s = name.clone();
                s.append(" is not registered — start \"famp register ");
                s.append(name.as_str());
                s.append("\" in another terminal first");
                s
            },
            AwaitError::BusError { kind, message } => {
                let mut s = owned("bus error: ");
                s.append(kind.as_str());
                s.append(": ");
                s.append(message.as_str());
                s
            },
            AwaitError::BusClient { detail } => {
                let mut s = owned("bus client error: ");
                s.append(detail.as_str());
                s
            },
        }
    }
}

/// What an await gives for each way its round-trip ended: an outcome for
/// envelopes, a timeout (with its diagnostic, not an error) or an abort;
/// an error for everything else.
pub open spec fn await_result_of(reply: AwaitReply, identity: Seq<char>, diagnostic: Option<String>, r: Result<AwaitOutcome, AwaitError>) -> bool {
    match reply {
        AwaitReply::Delivered { envelopes, mailbox, next_offset } => r == Ok::<AwaitOutcome, AwaitError>(AwaitOutcome {
            envelopes,
            mailbox: Some(mailbox),
            next_offset: Some(next_offset),
            timed_out: false,
            diagnostic: None,
            aborted: false,
        }),
        AwaitReply::Timeout => r matches Ok(o) && o.envelopes@.len() == 0 && o.mailbox is None && o.next_offset is None
            && o.timed_out && o.diagnostic == diagnostic && !o.aborted,
        AwaitReply::Aborted => r matches Ok(o) && o.envelopes@.len() == 0 && o.mailbox is None && o.next_offset is None
            && !o.timed_out && o.diagnostic is None && o.aborted,
        AwaitReply::NotRegistered => r matches Err(AwaitError::NotRegisteredHint { name }) && name@ == identity,
        AwaitReply::Failed { kind, message } => r == Err::<AwaitOutcome, AwaitError>(AwaitError::BusError { kind, message }),
        AwaitReply::Unexpected(d) => r matches Err(AwaitError::BusClient { detail }) && detail@ == "unexpected reply to Await: "@ + d@,
    }
}

/// Maps the end of an await round-trip to its outcome or error.
pub fn await_result(reply: AwaitReply, identity: &str, diagnostic: Option<String>) -> (r: Result<AwaitOutcome, AwaitError>)
    ensures
        await_result_of(reply, identity@, diagnostic, r),
{
    match reply {
        AwaitReply::Delivered { envelopes, mailbox, next_offset } => Ok(AwaitOutcome {
            envelopes,
            mailbox: Some(mailbox),
            next_offset: Some(next_offset),
            timed_out: false,
            diagnostic: None,
            aborted: false,
        }),
        AwaitReply::Timeout => Ok(AwaitOutcome {
            envelopes: Vec::new(),
            mailbox: None,
            next_offset: None,
            timed_out: true,
            diagnostic,
            aborted: false,
        }),
        AwaitReply::Aborted => Ok(AwaitOutcome {
            envelopes: Vec::new(),
            mailbox: None,
            next_offset: None,
            timed_out: false,
            diagnostic: None,
            aborted: true,
        }),
        AwaitReply::NotRegistered => Err(AwaitError::NotRegisteredHint { name: owned(identity) }),
        AwaitReply::Failed { kind, message } => Err(AwaitError::BusError { kind, message }),
        AwaitReply::Unexpected(d) => {
            let mut detail = owned("unexpected reply to Await: ");
            detail.append(d.as_str());
            Err(AwaitError::BusClient { detail })
        },
    }
}

/// A timed-out await is an outcome, never an error.
pub proof fn law_timeout_is_not_an_error(identity: Seq<char>, diagnostic: Option<String>, r: Result<AwaitOutcome, AwaitError>)
    requires
        await_result_of(AwaitReply::Timeout, identity, diagnostic, r),
    ensures
        r matches Ok(o) && o.timed_out && !o.aborted,
{
}

} // verus!
