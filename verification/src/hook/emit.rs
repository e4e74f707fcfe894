//! Shaping the wake notification and the Stop hook's block decision.

use vstd::prelude::*;
use crate::hook::transcript::{valid_sender, validate_sender};
use crate::json::{json_compact, member, render_json_compact, str_of, JsonValue};
use crate::text::{decimal, owned, str_eq, u64_to_decimal};

verus! {

/// The mailbox an await was parked on.
#[derive(Debug)]
pub enum Mailbox {
    Channel(String),
    Agent(String),
}

/// What an await returned.
#[derive(Debug)]
pub struct AwaitOutcome {
    pub envelopes: Vec<JsonValue>,
    pub mailbox: Option<Mailbox>,
    pub next_offset: Option<u64>,
    pub timed_out: bool,
    pub diagnostic: Option<String>,
    pub aborted: bool,
}

/// An envelope that only marks the await's timeout.
pub open spec fn is_timeout_marker(e: JsonValue) -> bool {
    member(e, "timeout"@) == Some(JsonValue::Bool(true))
}

/// The sender an envelope names: `from`, else `sender`, as a string.
pub open spec fn envelope_sender(e: JsonValue) -> Option<Seq<char>> {
    match member(e, "from"@) {
        Some(x) => str_of(Some(x)),
        None => str_of(member(e, "sender"@)),
    }
}

/// How many real envelopes there are, and the sender of the last one that
/// names one (`unknown` when none does).
pub open spec fn envelope_meta(es: Seq<JsonValue>) -> (nat, Seq<char>)
    decreases es.len(),
{
    if es.len() == 0 {
        (0, "unknown"@)
    } else {
        let (n, s) = envelope_meta(es.drop_last());
        let e = es.last();
        if is_timeout_marker(e) {
            (n, s)
        } else {
            (n + 1, match envelope_sender(e) { Some(x) => x, None => s })
        }
    }
}

/// Adding an envelope to a batch: a timeout marker changes nothing; a
/// real envelope adds one to the count, and becomes the reported sender
/// when it names one (the sender reported is the latest).
pub proof fn law_latest_sender_wins(es: Seq<JsonValue>, e: JsonValue)
    ensures
        is_timeout_marker(e) ==> envelope_meta(es.push(e)) == envelope_meta(es),
        !is_timeout_marker(e) ==> envelope_meta(es.push(e)).0 == envelope_meta(es).0 + 1,
        (!is_timeout_marker(e) && envelope_sender(e) is Some) ==> envelope_meta(es.push(e)).1 == envelope_sender(e).unwrap(),
        !is_timeout_marker(e) && envelope_sender(e) is None ==> envelope_meta(es.push(e)).1 == envelope_meta(es).1,
{
    assert(es.push(e).drop_last() =~= es);
}

pub open spec fn mailbox_kind_of(m: Option<Mailbox>) -> Seq<char> {
    match m {
        Some(Mailbox::Channel(_)) => "channel"@,
        _ => "agent"@,
    }
}

pub open spec fn mailbox_name_of(m: Option<Mailbox>) -> Seq<char> {
    match m {
        Some(Mailbox::Channel(n)) => n@,
        Some(Mailbox::Agent(n)) => n@,
        None => Seq::empty(),
    }
}

fn sender_of(e: &JsonValue) -> (r: Option<String>)
    ensures
        match r { Some(s) => envelope_sender(*e) == Some(s@), None => envelope_sender(*e) is None },
{
    let v = match e.get("from") {
        Some(x) => Some(x),
        None => e.get("sender"),
    };
    match v {
        Some(x) => match x.as_str() {
            Some(s) => Some(s.clone()),
            None => None,
        },
        None => None,
    }
}

/// (envelope count, last sender, mailbox kind, mailbox name) of an await.
pub fn meta_from_outcome(outcome: &AwaitOutcome) -> (r: (u64, String, String, String))
    ensures
        r.0 == envelope_meta(outcome.envelopes@).0,
        r.1@ == envelope_meta(outcome.envelopes@).1,
        r.2@ == mailbox_kind_of(outcome.mailbox),
        r.3@ == mailbox_name_of(outcome.mailbox),
{
    let mut count: u64 = 0;
    let mut sender = owned("unknown");
    let (kind, name) = match &outcome.mailbox {
        Some(Mailbox::Channel(n)) => (owned("channel"), n.clone()),
        Some(Mailbox::Agent(n)) => (owned("agent"), n.clone()),
        None => (owned("agent"), String::new()),
    };
    let es = &outcome.envelopes;
    let total: usize = es.len();
    proof {
        assert(total as int <= u64::MAX);
    }
    let mut i: usize = 0;
    while i < es.len()
        invariant
            i <= es@.len(),
            total == es@.len(),
            total <= u64::MAX,
            count <= i,
            count == envelope_meta(es@.take(i as int)).0,
            sender@ == envelope_meta(es@.take(i as int)).1,
        decreases es@.len() - i,
    {
        proof {
            assert(es@.take(i as int + 1).drop_last() =~= es@.take(i as int));
            assert(es@.take(i as int + 1).last() == es@[i as int]);
        }
        let e = &es[i];
        let marker = match e.get("timeout") {
            Some(t) => t.is_true(),
            None => false,
        };
        if !marker {
            count += 1;
            match sender_of(e) {
                Some(s) => sender = s,
                None => {},
            }
        }
        i += 1;
    }
    proof {
        assert(es@.take(es@.len() as int) =~= es@);
    }
    (count, sender, kind, name)
}

/// The notification text for a wake.
pub open spec fn reason_text(count: u64, sender: Seq<char>, kind: Seq<char>, name: Seq<char>) -> Seq<char> {
    if kind == "channel"@ {
        let chan = if name.len() > 0 && name[0] == '#' { name } else { seq!['#'] + name };
        if count > 1 {
            "[FAMP listen mode] "@ + decimal(count as nat) + " new FAMP messages in channel "@ + chan + ", latest from "@ + sender
                + ". Call famp_channel_log({channel: '"@ + chan + "'}) to read them."@
        } else {
            "[FAMP listen mode] New FAMP message in channel "@ + chan + " from "@ + sender
                + ". Call famp_channel_log({channel: '"@ + chan + "'}) to read it."@
        }
    } else if count > 1 {
        "[FAMP listen mode] "@ + decimal(count as nat) + " new FAMP messages, latest from "@ + sender + ". Call famp_inbox to read them."@
    } else {
        "[FAMP listen mode] New FAMP message from "@ + sender + ". Call famp_inbox to read it."@
    }
}

/// The wake notification: who wrote, how many, and the tool that reads
/// them (the channel log for a channel, the inbox otherwise).
pub fn build_reason(count: u64, sender: &str, mailbox_kind: &str, mailbox_name: &str) -> (r: String)
    ensures
        r@ == reason_text(count, sender@, mailbox_kind@, mailbox_name@),
{
    if str_eq(mailbox_kind, "channel") {
        let name = crate::text::chars_of(mailbox_name);
        let chan = if name.len() > 0 && name[0] == '#' {
            owned(mailbox_name)
        } else {
            let mut c = owned("#");
            c.append(mailbox_name);
            proof {
                reveal_strlit("#");
                assert(c@ =~= seq!['#'] + mailbox_name@);
            }
            c
        };
        if count > 1 {
            let mut s = owned("[FAMP listen mode] ");
            let d = u64_to_decimal(count);
            s.append(d.as_str());
            s.append(" new FAMP messages in channel ");
            s.append(chan.as_str());
            s.append(", latest from ");
            s.append(sender);
            s.append(". Call famp_channel_log({channel: '");
            s.append(chan.as_str());
            s.append("'}) to read them.");
            s
        } else {
            let mut s = owned("[FAMP listen mode] New FAMP message in channel ");
            s.append(chan.as_str());
            s.append(" from ");
            s.append(sender);
            s.append(". Call famp_channel_log({channel: '");
            s.append(chan.as_str());
            s.append("'}) to read it.");
            s
        }
    } else if count > 1 {
        let mut s = owned("[FAMP listen mode] ");
        let d = u64_to_decimal(count);
        s.append(d.as_str());
        s.append(" new FAMP messages, latest from ");
        s.append(sender);
        s.append(". Call famp_inbox to read them.");
        s
    } else {
        let mut s = owned("[FAMP listen mode] New FAMP message from ");
        s.append(sender);
        s.append(". Call famp_inbox to read it.");
        s
    }
}

/// The disk-ack unread count and last sender that the broker reports for
/// `identity`, from its identity rows (name, unread, last sender); a last
/// sender of `(none)` reads as `unknown`.
pub fn unread_for(rows: &[(String, u64, String)], identity: &str) -> (r: Option<(u64, String)>)
    ensures
        match r {
            Some((n, s)) => exists|i: int| 0 <= i < rows@.len() && #[trigger] rows@[i].0@ == identity@
                && (forall|k: int| 0 <= k < i ==> rows@[k].0@ != identity@)
                && n == rows@[i].1
                && s@ == (if rows@[i].2@ == "(none)"@ { "unknown"@ } else { rows@[i].2@ }),
            None => forall|i: int| 0 <= i < rows@.len() ==> rows@[i].0@ != identity@,
        },
{
    let mut i: usize = 0;
    while i < rows.len()
        invariant
            i <= rows@.len(),
            forall|k: int| 0 <= k < i ==> rows@[k].0@ != identity@,
        decreases rows@.len() - i,
    {
        if str_eq(rows[i].0.as_str(), identity) {
            let sender = if str_eq(rows[i].2.as_str(), "(none)") { owned("unknown") } else { rows[i].2.clone() };
            return Some((rows[i].1, sender));
        }
        i += 1;
    }
    None
}

/// The await has something to wake the host for.
pub open spec fn wakes(outcome: AwaitOutcome) -> bool {
    !outcome.aborted && !outcome.timed_out && outcome.envelopes@.len() > 0 && envelope_meta(outcome.envelopes@).0 >= 1
}

/// The notification for an await (`None`: no block decision). For an agent
/// mailbox, the broker's disk-ack unread count (when it answered) replaces
/// the batch count, and zero unread means nothing actionable. A sender that
/// fails validation is reported as `unknown`.
pub open spec fn wake_reason(outcome: AwaitOutcome, unread: Option<(u64, Seq<char>)>) -> Option<Seq<char>> {
    if !wakes(outcome) {
        None
    } else {
        let (n, s) = envelope_meta(outcome.envelopes@);
        let kind = mailbox_kind_of(outcome.mailbox);
        let name = mailbox_name_of(outcome.mailbox);
        let (count, sender, silent) = if kind != "channel"@ {
            match unread {
                Some((u, ls)) => if u == 0 { (n, s, true) } else { (u as nat, if ls.len() > 0 { ls } else { s }, false) },
                None => (n, s, false),
            }
        } else {
            (n, s, false)
        };
        if silent {
            None
        } else {
            let who = if valid_sender(sender) { sender } else { "unknown"@ };
            Some(reason_text(count as u64, who, kind, name))
        }
    }
}

/// Decides the block decision's reason text.
pub fn block_reason(outcome: &AwaitOutcome, unread: Option<(u64, String)>) -> (r: Option<String>)
    ensures
        opt_text_of(r) == wake_reason(*outcome, match unread { Some((u, s)) => Some((u, s@)), None => None }),
{
    if outcome.aborted || outcome.timed_out || outcome.envelopes.len() == 0 {
        return None;
    }
    let (n, s, kind, name) = meta_from_outcome(outcome);
    if n < 1 {
        return None;
    }
    let mut count = n;
    let mut sender = s;
    if !str_eq(kind.as_str(), "channel") {
        match unread {
            Some((u, ls)) => {
                if u == 0 {
                    return None;
                }
                count = u;
                if !ls.as_str().is_empty() {
                    sender = ls;
                }
            },
            None => {},
        }
    }
    if !validate_sender(sender.as_str()) {
        sender = owned("unknown");
    }
    Some(build_reason(count, sender.as_str(), kind.as_str(), name.as_str()))
}

pub open spec fn opt_text_of(o: Option<String>) -> Option<Seq<char>> {
    match o {
        Some(s) => Some(s@),
        None => None,
    }
}

/// `{"decision": "block", "reason": reason}`: exactly these two members,
/// in this order.
pub open spec fn is_block_decision(v: JsonValue, reason: Seq<char>) -> bool {
    match v {
        JsonValue::Object(m) => {
            &&& m@.len() == 2
            &&& m@[0].0@ == "decision"@
            &&& str_of(Some(m@[0].1)) == Some("block"@)
            &&& m@[1].0@ == "reason"@
            &&& str_of(Some(m@[1].1)) == Some(reason)
        },
        _ => false,
    }
}

/// The block decision as a JSON value.
pub fn block_decision(reason: &str) -> (r: JsonValue)
    ensures
        is_block_decision(r, reason@),
{
    let mut m: Vec<(String, JsonValue)> = Vec::new();
    m.push((owned("decision"), JsonValue::Str(owned("block"))));
    m.push((owned("reason"), JsonValue::Str(owned(reason))));
    JsonValue::Object(m)
}

/// The line the Stop hook writes for a wake: the block decision as compact
/// JSON.
pub fn block_decision_line(reason: &str) -> (r: String)
    ensures
        exists|v: JsonValue| is_block_decision(v, reason@) && r@ == #[trigger] json_compact(v),
{
    let v = block_decision(reason);
    render_json_compact(&v)
}

} // verus!
