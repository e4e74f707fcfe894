//! The host's Stop-hook JSON payload.

use vstd::prelude::*;
use crate::json::{json_parse, member, parse_json, str_of, JsonValue};

verus! {

/// Fields extracted from a Stop-hook stdin payload.
#[derive(Debug, PartialEq, Eq)]
pub struct StopHookInput {
    pub transcript_path: Option<String>,
    pub session_id: Option<String>,
    /// Host-provided stop reason (`end_turn`, `channel_closed`, …).
    pub reason: Option<String>,
}

impl StopHookInput {
    /// No fields.
    pub fn empty() -> (r: StopHookInput)
        ensures
            r.transcript_path is None && r.session_id is None && r.reason is None,
    {
        StopHookInput { transcript_path: None, session_id: None, reason: None }
    }
}

/// A non-empty string field of `obj`, under its snake-case name or, when
/// that is absent, its camel-case one.
pub open spec fn str_field_of(obj: JsonValue, snake: Seq<char>, camel: Seq<char>) -> Option<Seq<char>> {
    let v = match member(obj, snake) {
        Some(x) => Some(x),
        None => member(obj, camel),
    };
    match str_of(v) {
        Some(s) => if s.len() > 0 { Some(s) } else { None },
        None => None,
    }
}

pub open spec fn opt_view(o: Option<String>) -> Option<Seq<char>> {
    match o {
        Some(s) => Some(s@),
        None => None,
    }
}

fn str_field(obj: &JsonValue, snake: &str, camel: &str) -> (r: Option<String>)
    ensures
        opt_view(r) == str_field_of(*obj, snake@, camel@),
{
    let v = match obj.get(snake) {
        Some(x) => Some(x),
        None => obj.get(camel),
    };
    match v {
        Some(x) => match x.as_str() {
            Some(s) => if s.as_str().is_empty() { None } else { Some(s.clone()) },
            None => None,
        },
        None => None,
    }
}

/// Parses a Stop-hook payload. Fail-open: anything that is not a JSON
/// object gives no fields.
pub fn parse_stop_hook_json(raw: &str) -> (r: StopHookInput)
    ensures
        match json_parse(raw@) {
            Some(obj) => if obj is Object {
                opt_view(r.transcript_path) == str_field_of(obj, "transcript_path"@, "transcriptPath"@)
                && opt_view(r.session_id) == str_field_of(obj, "session_id"@, "sessionId"@)
                && opt_view(r.reason) == str_field_of(obj, "reason"@, "reason"@)
            } else {
                r.transcript_path is None && r.session_id is None && r.reason is None
            },
            None => r.transcript_path is None && r.session_id is None && r.reason is None,
        },
{
    let v = match parse_json(raw) {
        Some(v) => v,
        None => return StopHookInput::empty(),
    };
    if !v.is_object() {
        return StopHookInput::empty();
    }
    StopHookInput {
        transcript_path: str_field(&v, "transcript_path", "transcriptPath"),
        session_id: str_field(&v, "session_id", "sessionId"),
        reason: str_field(&v, "reason", "reason"),
    }
}

} // verus!
