//! Locating a Codex rollout from a `session_id` when the host gave no
//! transcript path: the Codex state database first (only for paths inside
//! `CODEX_HOME/sessions`), then the newest matching rollout file.

use vstd::prelude::*;
use crate::text::{chars_of, join_path, joined, owned, seq_ends_with, seq_starts_with, ends_with, starts_with, str_eq};

verus! {

/// `CODEX_HOME` (else `$HOME/.codex`, else nothing) and `CODEX_SQLITE_HOME`
/// (else `CODEX_HOME`), from the environment; `None` when there is no
/// session id or no Codex home.
pub open spec fn codex_homes(session_id: Seq<char>, home: Option<Seq<char>>, codex_home: Option<Seq<char>>, sqlite_home: Option<Seq<char>>) -> Option<(Seq<char>, Seq<char>)> {
    let h = match home { Some(h) => h, None => Seq::empty() };
    let ch = match codex_home {
        Some(c) => c,
        None => if h.len() == 0 { Seq::empty() } else { joined(h, ".codex"@) },
    };
    if session_id.len() == 0 || ch.len() == 0 {
        None
    } else {
        Some((ch, match sqlite_home { Some(s) => s, None => ch }))
    }
}

pub open spec fn text_of(o: Option<&str>) -> Option<Seq<char>> {
    match o {
        Some(s) => Some(s@),
        None => None,
    }
}

/// Resolves the Codex home and the state-database home from the environment.
pub fn resolve_codex_homes(session_id: &str, home: Option<&str>, codex_home: Option<&str>, sqlite_home: Option<&str>) -> (r: Option<(String, String)>)
    ensures
        match r {
            Some((c, s)) => codex_homes(session_id@, text_of(home), text_of(codex_home), text_of(sqlite_home)) == Some((c@, s@)),
            None => codex_homes(session_id@, text_of(home), text_of(codex_home), text_of(sqlite_home)) is None,
        },
{
    if session_id.is_empty() {
        return None;
    }
    let ch = match codex_home {
        Some(c) => owned(c),
        None => match home {
            Some(h) => if h.is_empty() { String::new() } else { join_path(h, ".codex") },
            None => String::new(),
        },
    };
    if ch.as_str().is_empty() {
        return None;
    }
    let sh = match sqlite_home {
        Some(s) => owned(s),
        None => ch.clone(),
    };
    Some((ch, sh))
}

/// The state databases to consult, in order: under the sqlite home, then
/// under the Codex home.
pub fn state_databases(codex_home: &str, sqlite_home: &str) -> (r: Vec<String>)
    ensures
        r@.len() == 2,
        r@[0]@ == joined(sqlite_home@, "state_5.sqlite"@),
        r@[1]@ == joined(codex_home@, "state_5.sqlite"@),
{
    let mut v: Vec<String> = Vec::new();
    v.push(join_path(sqlite_home, "state_5.sqlite"));
    v.push(join_path(codex_home, "state_5.sqlite"));
    v
}

/// `CODEX_HOME/sessions`.
pub fn sessions_root(codex_home: &str) -> (r: String)
    ensures
        r@ == joined(codex_home@, "sessions"@),
{
    join_path(codex_home, "sessions")
}

/// A rollout file of this session: `rollout-*<session_id>.jsonl`.
pub open spec fn rollout_name(name: Seq<char>, session_id: Seq<char>) -> bool {
    seq_starts_with(name, "rollout-"@) && seq_ends_with(name, session_id + ".jsonl"@)
}

/// Whether a file name is a rollout of `session_id`.
pub fn is_rollout_file_name(name: &str, session_id: &str) -> (r: bool)
    ensures
        r == rollout_name(name@, session_id@),
{
    let mut suffix = owned(session_id);
    suffix.append(".jsonl");
    starts_with(name, "rollout-") && ends_with(name, suffix.as_str())
}

/// The `/`-separated components of a path, empty ones dropped.
pub open spec fn components(p: Seq<char>) -> Seq<Seq<char>>
    decreases p.len(),
{
    crate::text::words_by(p, '/')
}

/// `Path::starts_with` on two canonical paths: `root`'s components are a
/// prefix of `path`'s, and both are absolute or both relative.
pub open spec fn path_within(path: Seq<char>, root: Seq<char>) -> bool {
    (path.len() > 0 && path[0] == '/') == (root.len() > 0 && root[0] == '/')
        && components(root).len() <= components(path).len()
        && components(path).take(components(root).len() as int) == components(root)
}

/// Whether the canonical `path` lies under the canonical `root`.
pub fn is_path_within(path: &str, root: &str) -> (r: bool)
    ensures
        r == path_within(path@, root@),
{
    let p = crate::text::split_by(path, '/');
    let q = crate::text::split_by(root, '/');
    let pv = chars_of(path);
    let qv = chars_of(root);
    let pa = pv.len() > 0 && pv[0] == '/';
    let qa = qv.len() > 0 && qv[0] == '/';
    if pa != qa || q.len() > p.len() {
        return false;
    }
    let mut i: usize = 0;
    while i < q.len()
        invariant
            i <= q@.len() <= p@.len(),
            p@.len() == components(path@).len(),
            q@.len() == components(root@).len(),
            forall|k: int| 0 <= k < p@.len() ==> #[trigger] p@[k]@ == components(path@)[k],
            forall|k: int| 0 <= k < q@.len() ==> #[trigger] q@[k]@ == components(root@)[k],
            forall|k: int| 0 <= k < i ==> components(path@)[k] == components(root@)[k],
        decreases q@.len() - i,
    {
        if !str_eq(p[i].as_str(), q[i].as_str()) {
            proof {
                assert(p@[i as int]@ == components(path@)[i as int]);
                assert(q@[i as int]@ == components(root@)[i as int]);
                assert(components(path@).take(components(root@).len() as int)[i as int] == components(path@)[i as int]);
            }
            return false;
        }
        proof {
            assert(p@[i as int]@ == components(path@)[i as int]);
            assert(q@[i as int]@ == components(root@)[i as int]);
        }
        i += 1;
    }
    proof {
        assert(components(path@).take(components(root@).len() as int) =~= components(root@));
    }
    true
}

/// The first database hit whose rollout path lies inside the sessions
/// root. Each hit is the path a database recorded and whether it is an
/// existing file inside the root (`None`: no usable database or row).
pub fn first_allowed_hit(hits: &[Option<(String, bool)>]) -> (r: Option<String>)
    ensures
        match r {
            Some(p) => exists|i: int| 0 <= i < hits@.len() && (#[trigger] hits@[i] matches Some((q, true)) && q@ == p@)
                && forall|k: int| 0 <= k < i ==> !(#[trigger] hits@[k] matches Some((_, true))),
            None => forall|k: int| 0 <= k < hits@.len() ==> !(#[trigger] hits@[k] matches Some((_, true))),
        },
{
    let mut i: usize = 0;
    while i < hits.len()
        invariant
            i <= hits@.len(),
            forall|k: int| 0 <= k < i ==> !(#[trigger] hits@[k] matches Some((_, true))),
        decreases hits@.len() - i,
    {
        match &hits[i] {
            Some((p, true)) => return Some(p.clone()),
            _ => {},
        }
        i += 1;
    }
    None
}

/// Of the rollout files found (modification time as seconds and
/// nanoseconds, path), the newest; among equally new ones, the first found.
pub fn newest_rollout(found: &[((u64, u32), String)]) -> (r: Option<String>)
    ensures
        found@.len() == 0 ==> r is None,
        found@.len() > 0 ==> exists|i: int| 0 <= i < found@.len() && (r matches Some(p) && p@ == (#[trigger] found@[i]).1@)
            && (forall|k: int| 0 <= k < found@.len() ==> !newer(found@[k].0, found@[i].0))
            && (forall|k: int| 0 <= k < i ==> newer(found@[i].0, found@[k].0)),
{
    if found.len() == 0 {
        return None;
    }
    let mut best: usize = 0;
    let mut i: usize = 1;
    while i < found.len()
        invariant
            1 <= i <= found@.len(),
            best < i,
            forall|k: int| 0 <= k < i ==> !newer(found@[k].0, found@[best as int].0),
            forall|k: int| 0 <= k < best ==> newer(found@[best as int].0, found@[k].0),
        decreases found@.len() - i,
    {
        let (a, b) = found[i].0;
        let (c, d) = found[best].0;
        if a > c || (a == c && b > d) {
            best = i;
        }
        i += 1;
    }
    Some(found[best].1.clone())
}

/// `a` is strictly later than `b`.
pub open spec fn newer(a: (u64, u32), b: (u64, u32)) -> bool {
    a.0 > b.0 || (a.0 == b.0 && a.1 > b.1)
}

/// The rollout for a session: nothing without a session id or Codex home;
/// otherwise the first database hit inside the sessions root, else the
/// newest matching file found under it.
pub fn resolve_rollout_path_with_home(session_id: &str, codex_home: &str, hits: &[Option<(String, bool)>], newest_match: Option<String>) -> (r: Option<String>)
    ensures
        (session_id@.len() == 0 || codex_home@.len() == 0) ==> r is None,
        (session_id@.len() > 0 && codex_home@.len() > 0) ==> match r {
            Some(p) => (exists|i: int| 0 <= i < hits@.len() && (#[trigger] hits@[i] matches Some((q, true)) && q@ == p@))
                || (newest_match == Some(p) && forall|k: int| 0 <= k < hits@.len() ==> !(#[trigger] hits@[k] matches Some((_, true)))),
            None => newest_match is None && forall|k: int| 0 <= k < hits@.len() ==> !(#[trigger] hits@[k] matches Some((_, true))),
        },
{
    if session_id.is_empty() || codex_home.is_empty() {
        return None;
    }
    match first_allowed_hit(hits) {
        Some(p) => Some(p),
        None => newest_match,
    }
}

} // verus!
