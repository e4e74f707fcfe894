//! The broker's on-disk mailboxes: one JSONL file per mailbox under
//! `<bus_dir>/mailboxes/`, a cursor file beside it, and draining the
//! complete lines that follow a byte offset.

use vstd::prelude::*;
use crate::text::{decimal, joined, join_path, owned, u64_to_decimal};

verus! {

/// `<bus_dir>/mailboxes/<name>.jsonl`; channel names keep their `#`.
pub open spec fn mailbox_file_of(bus_dir: Seq<char>, display_name: Seq<char>) -> Seq<char> {
    joined(joined(bus_dir, "mailboxes"@), display_name + ".jsonl"@)
}

/// The JSONL file of a mailbox.
pub fn mailbox_file(bus_dir: &str, display_name: &str) -> (r: String)
    ensures
        r@ == mailbox_file_of(bus_dir@, display_name@),
{
    let dir = join_path(bus_dir, "mailboxes");
    let mut name = owned(display_name);
    name.append(".jsonl");
    join_path(dir.as_str(), name.as_str())
}

/// `<bus_dir>/mailboxes/.<name>.cursor`.
pub open spec fn cursor_file_of(bus_dir: Seq<char>, display_name: Seq<char>) -> Seq<char> {
    joined(joined(bus_dir, "mailboxes"@), "."@ + display_name + ".cursor"@)
}

/// The cursor file of a mailbox.
pub fn cursor_file(bus_dir: &str, display_name: &str) -> (r: String)
    ensures
        r@ == cursor_file_of(bus_dir@, display_name@),
{
    let dir = join_path(bus_dir, "mailboxes");
    let mut name = owned(".");
    name.append(display_name);
    name.append(".cursor");
    join_path(dir.as_str(), name.as_str())
}

/// What a cursor file holds: the offset and a newline.
pub fn cursor_body(offset: u64) -> (r: String)
    ensures
        r@ == decimal(offset as nat) + "\n"@,
{
    let mut s = u64_to_decimal(offset);
    s.append("\n");
    s
}

/// `{"elapsed_ms": n, "kind": "budget_exceeded"}`, exactly these members:
/// what the broker answers an inspection that ran out of time.
pub open spec fn is_budget_payload(v: crate::json::JsonValue, elapsed_ms: u64) -> bool {
    match v {
        crate::json::JsonValue::Object(m) => {
            &&& m@.len() == 2
            &&& m@[0].0@ == "elapsed_ms"@
            &&& m@[0].1 == crate::json::JsonValue::UInt(elapsed_ms)
            &&& m@[1].0@ == "kind"@
            &&& crate::json::str_of(Some(m@[1].1)) == Some("budget_exceeded"@)
        },
        _ => false,
    }
}

/// The inspection payload for a spent budget.
pub fn budget_exceeded_payload(elapsed_ms: u64) -> (r: crate::json::JsonValue)
    ensures
        is_budget_payload(r, elapsed_ms),
{
    let mut m: Vec<(String, crate::json::JsonValue)> = Vec::new();
    m.push((owned("elapsed_ms"), crate::json::JsonValue::UInt(elapsed_ms)));
    m.push((owned("kind"), crate::json::JsonValue::Str(owned("budget_exceeded"))));
    crate::json::JsonValue::Object(m)
}

/// The position of the first newline of `b`.
pub open spec fn first_newline(b: Seq<u8>) -> Option<int>
    decreases b.len(),
{
    if b.len() == 0 {
        None
    } else if b[0] == 10u8 {
        Some(0)
    } else {
        match first_newline(b.drop_first()) {
            Some(i) => Some(i + 1),
            None => None,
        }
    }
}

pub proof fn lemma_first_newline(b: Seq<u8>)
    ensures
        first_newline(b) matches Some(i) ==> 0 <= i < b.len() && b[i] == 10u8 && forall|k: int| 0 <= k < i ==> b[k] != 10u8,
        first_newline(b) is None ==> forall|k: int| 0 <= k < b.len() ==> b[k] != 10u8,
    decreases b.len(),
{
    if b.len() > 0 && b[0] != 10u8 {
        lemma_first_newline(b.drop_first());
        assert forall|k: int| 1 <= k < b.len() implies b[k] == b.drop_first()[k - 1] by {}
    }
}

/// The complete lines of `b` (each without its newline), and how many
/// bytes they take with their newlines; a final unterminated part is left
/// out.
pub open spec fn complete_lines(b: Seq<u8>) -> (Seq<Seq<u8>>, nat)
    decreases b.len(),
{
    match first_newline(b) {
        None => (Seq::empty(), 0),
        Some(i) => {
            proof {
                lemma_first_newline(b);
            }
            let (ls, n) = complete_lines(b.skip(i + 1));
            (seq![b.take(i)] + ls, n + (i + 1) as nat)
        },
    }
}

/// The complete lines end at a newline, and no newline follows them.
pub proof fn lemma_complete_lines_end(x: Seq<u8>)
    ensures
        complete_lines(x).1 <= x.len(),
        first_newline(x.skip(complete_lines(x).1 as int)) is None,
        complete_lines(x).1 > 0 ==> x[complete_lines(x).1 - 1] == 10u8,
    decreases x.len(),
{
    lemma_first_newline(x);
    match first_newline(x) {
        None => {
            assert(x.skip(0) =~= x);
        },
        Some(i) => {
            let y = x.skip(i + 1);
            lemma_complete_lines_end(y);
            let ny = complete_lines(y).1;
            assert(x.skip(i + 1 + ny) =~= y.skip(ny as int));
            if ny > 0 {
                assert(y[ny - 1] == x[i + 1 + ny - 1]);
            }
        },
    }
}

/// Where draining starts: at `since` when it begins a line, else just past
/// the next newline (`None`: no further line starts).
pub open spec fn line_start(b: Seq<u8>, since: int) -> Option<int> {
    if since == 0 || b[since - 1] == 10u8 {
        Some(since)
    } else {
        match first_newline(b.skip(since)) {
            Some(off) => Some(since + off + 1),
            None => None,
        }
    }
}

/// What draining a mailbox file from byte `since` gives: the complete lines
/// from the first line start at or after `since`, and the offset just past
/// the last of them (the file's length when there is nothing to read).
pub open spec fn drained(b: Seq<u8>, since: u64) -> (Seq<Seq<u8>>, u64) {
    if since >= b.len() {
        (Seq::empty(), b.len() as u64)
    } else {
        match line_start(b, since as int) {
            None => (Seq::empty(), b.len() as u64),
            Some(s) => if s >= b.len() {
                (Seq::empty(), b.len() as u64)
            } else {
                let (ls, n) = complete_lines(b.skip(s));
                (ls, (s + n) as u64)
            },
        }
    }
}

/// The first newline at or after `from`.
fn find_newline(b: &[u8], from: usize) -> (r: Option<usize>)
    requires
        from <= b@.len(),
    ensures
        match first_newline(b@.skip(from as int)) {
            Some(i) => r == Some((from + i) as usize),
            None => r is None,
        },
{
    let mut k: usize = from;
    while k < b.len()
        invariant
            from <= k <= b@.len(),
            forall|j: int| from <= j < k ==> b@[j] != 10u8,
        decreases b@.len() - k,
    {
        if b[k] == 10u8 {
            proof {
                lemma_first_newline(b@.skip(from as int));
                let s = b@.skip(from as int);
                match first_newline(s) {
                    Some(i) => {
                        if i < k - from {
                            assert(s[i] == b@[from + i]);
                        } else if i > k - from {
                            assert(s[k - from] == b@[k as int]);
                        }
                    },
                    None => {
                        assert(s[k - from] == b@[k as int]);
                    },
                }
            }
            return Some(k);
        }
        k += 1;
    }
    proof {
        lemma_first_newline(b@.skip(from as int));
        let s = b@.skip(from as int);
        match first_newline(s) {
            Some(i) => {
                assert(s[i] == b@[from + i]);
            },
            None => {},
        }
    }
    None
}

/// The bytes `b[from..to]`.
fn copy_range(b: &[u8], from: usize, to: usize) -> (r: Vec<u8>)
    requires
        from <= to <= b@.len(),
    ensures
        r@ == b@.subrange(from as int, to as int),
{
    let mut out: Vec<u8> = Vec::new();
    let mut k: usize = from;
    while k < to
        invariant
            from <= k <= to <= b@.len(),
            out@ == b@.subrange(from as int, k as int),
        decreases to - k,
    {
        out.push(b[k]);
        proof {
            assert(out@ =~= b@.subrange(from as int, k + 1));
        }
        k += 1;
    }
    out
}

/// Drains a mailbox file's bytes from offset `since`. A start in the middle
/// of a line snaps forward to the next line; a partial trailing line is
/// not returned and not consumed.
pub fn drain_from_bytes(b: &[u8], since: u64) -> (r: (Vec<Vec<u8>>, u64))
    ensures
        r.0@.map_values(|l: Vec<u8>| l@) == drained(b@, since).0,
        r.1 == drained(b@, since).1,
{
    let len = b.len();
    if since >= len as u64 {
        return (Vec::new(), len as u64);
    }
    let start = since as usize;
    proof {
        lemma_first_newline(b@.skip(start as int));
    }
    let snapped = if start == 0 || b[start - 1] == 10u8 {
        start
    } else {
        match find_newline(b, start) {
            Some(p) => p + 1,
            None => return (Vec::new(), len as u64),
        }
    };
    if snapped >= len {
        return (Vec::new(), len as u64);
    }
    let ghost all = complete_lines(b@.skip(snapped as int));
    let mut lines: Vec<Vec<u8>> = Vec::new();
    let mut cursor: usize = snapped;
    let mut done = false;
    proof {
        assert(lines@.map_values(|l: Vec<u8>| l@) + complete_lines(b@.skip(cursor as int)).0 =~= all.0);
    }
    while cursor < len && !done
        invariant
            len == b@.len(),
            snapped <= cursor <= len,
            snapped < len,
            all == complete_lines(b@.skip(snapped as int)),
            !done ==> lines@.map_values(|l: Vec<u8>| l@) + complete_lines(b@.skip(cursor as int)).0 == all.0,
            !done ==> cursor + complete_lines(b@.skip(cursor as int)).1 == snapped + all.1,
            done ==> lines@.map_values(|l: Vec<u8>| l@) == all.0 && cursor == snapped + all.1,
        decreases len - cursor + (if done { 0int } else { 1int }),
    {
        match find_newline(b, cursor) {
            None => {
                proof {
                    assert(complete_lines(b@.skip(cursor as int)).0 =~= Seq::<Seq<u8>>::empty());
                    assert(lines@.map_values(|l: Vec<u8>| l@) + Seq::<Seq<u8>>::empty() =~= lines@.map_values(|l: Vec<u8>| l@));
                }
                done = true;
            },
            Some(end) => {
                let ghost rest = b@.skip(cursor as int);
                let ghost before = lines@;
                proof {
                    lemma_first_newline(rest);
                }
                let line = copy_range(b, cursor, end);
                proof {
                    assert(line@ =~= rest.take(end - cursor));
                    assert(rest.skip(end - cursor + 1) =~= b@.skip(end + 1));
                }
                let ghost gl = line;
                lines.push(line);
                proof {
                    assert(lines@.map_values(|l: Vec<u8>| l@) =~= before.map_values(|l: Vec<u8>| l@).push(gl@));
                    assert(before.map_values(|l: Vec<u8>| l@).push(gl@) + complete_lines(b@.skip(end + 1)).0
                        =~= before.map_values(|l: Vec<u8>| l@) + complete_lines(rest).0);
                }
                cursor = end + 1;
            },
        }
    }
    proof {
        if !done {
            assert(b@.skip(cursor as int) =~= Seq::<u8>::empty());
            assert(lines@.map_values(|l: Vec<u8>| l@) + Seq::<Seq<u8>>::empty() =~= lines@.map_values(|l: Vec<u8>| l@));
        }
    }
    (lines, cursor as u64)
}

/// Draining again from the offset a drain returned delivers nothing more
/// from the same bytes: no line is delivered twice, and the offset never
/// passes the end of the file.
pub proof fn law_drain_resumes_without_redelivery(b: Seq<u8>, since: u64)
    requires
        b.len() <= u64::MAX,
    ensures
        drained(b, since).1 <= b.len(),
        drained(b, drained(b, since).1).0.len() == 0,
{
    let n = drained(b, since).1;
    if since < b.len() {
        lemma_first_newline(b.skip(since as int));
        match line_start(b, since as int) {
            Some(s) => {
                if s < b.len() {
                    let x = b.skip(s);
                    lemma_complete_lines_end(x);
                    let k = complete_lines(x).1;
                    assert(x.len() == b.len() - s);
                    assert(s + k <= b.len());
                    assert(n == s + k);
                    if n < b.len() {
                        if k > 0 {
                            assert(b[n - 1] == x[k - 1]);
                        }
                        assert(b.skip(n as int) =~= x.skip(k as int));
                        assert(line_start(b, n as int) == Some(n as int));
                    }
                }
            },
            None => {},
        }
    }
}

} // verus!
