//! The local bus: where its socket lives and how starting its broker fails.

use vstd::prelude::*;
use crate::executable::last_component;
use crate::text::{chars_of, owned, string_of_range};

verus! {

/// `s` without its trailing `/` characters.
pub open spec fn strip_trailing_slashes(s: Seq<char>) -> Seq<char>
    decreases s.len(),
{
    if s.len() > 0 && s.last() == '/' { strip_trailing_slashes(s.drop_last()) } else { s }
}

/// `Path::parent` on text: the path without its last component and the
/// separators before it; the root and the empty path have none.
pub open spec fn parent_of(p: Seq<char>) -> Option<Seq<char>> {
    let t = strip_trailing_slashes(p);
    if t.len() == 0 {
        None
    } else {
        let pre = t.take(t.len() - last_component(t).len());
        if pre.len() == 0 {
            Some(Seq::empty())
        } else {
            let q = strip_trailing_slashes(pre);
            if q.len() == 0 { Some(seq!['/']) } else { Some(q) }
        }
    }
}

proof fn lemma_last_component_suffix(s: Seq<char>)
    ensures
        last_component(s).len() <= s.len(),
        last_component(s) == s.skip(s.len() - last_component(s).len()),
        last_component(s).len() < s.len() ==> s[s.len() - last_component(s).len() - 1] == '/',
        forall|i: int| s.len() - last_component(s).len() <= i < s.len() ==> s[i] != '/',
    decreases s.len(),
{
    if s.len() > 0 {
        lemma_last_component_suffix(s.drop_last());
        if s.last() == '/' {
            assert(s.skip(s.len() as int) =~= Seq::<char>::empty());
        } else {
            assert(s.skip(s.len() - last_component(s).len()) =~= s.drop_last().skip(s.drop_last().len() - last_component(s.drop_last()).len()).push(s.last()));
            assert forall|i: int| s.len() - last_component(s).len() <= i < s.len() implies s[i] != '/' by {
                if i < s.len() - 1 {
                    assert(s[i] == s.drop_last()[i]);
                }
            }
        }
    }
}

/// Index just past the last non-`/` character of `v[..end]`.
fn strip_end(v: &Vec<char>, end: usize) -> (r: usize)
    requires
        end <= v@.len(),
    ensures
        r <= end,
        v@.take(r as int) == strip_trailing_slashes(v@.take(end as int)),
{
    let mut e = end;
    while e > 0 && v[e - 1] == '/'
        invariant
            e <= end <= v@.len(),
            strip_trailing_slashes(v@.take(e as int)) == strip_trailing_slashes(v@.take(end as int)),
        decreases e,
    {
        proof {
            assert(v@.take(e as int).drop_last() =~= v@.take(e as int - 1));
        }
        e -= 1;
    }
    proof {
        if e > 0 {
            assert(v@.take(e as int).last() != '/');
        }
    }
    e
}

/// `Path::parent` on text.
pub fn path_parent(p: &str) -> (r: Option<String>)
    ensures
        match r {
            Some(s) => parent_of(p@) == Some(s@),
            None => parent_of(p@) is None,
        },
{
    let v = chars_of(p);
    proof {
        assert(v@.take(v@.len() as int) =~= v@);
    }
    let t = strip_end(&v, v.len());
    if t == 0 {
        return None;
    }
    let ghost ts = v@.take(t as int);
    let mut start = t;
    while start > 0 && v[start - 1] != '/'
        invariant
            start <= t <= v@.len(),
            ts == v@.take(t as int),
            forall|i: int| start <= i < t ==> v@[i] != '/',
        decreases start,
    {
        start -= 1;
    }
    proof {
        lemma_last_component_suffix(ts);
        let lc = last_component(ts).len();
        assert(t - lc == start) by {
            if t - lc < start {
                assert(ts[start - 1] != '/');
                if start > 0 {
                    assert(v@[start - 1] == '/');
                }
            } else if t - lc > start {
                assert(ts[t - lc - 1] == '/');
                assert(v@[t - lc - 1] != '/');
            }
        }
        assert(ts.take(t - lc) =~= v@.take(start as int));
    }
    if start == 0 {
        return Some(String::new());
    }
    let q = strip_end(&v, start);
    if q == 0 {
        let mut s = String::new();
        crate::text::push_char(&mut s, '/');
        proof {
            assert(s@ =~= seq!['/']);
        }
        return Some(s);
    }
    proof {
        assert(v@.subrange(0, q as int) =~= v@.take(q as int));
    }
    Some(string_of_range(&v, 0, q))
}

/// The bus directory: the socket path's parent. A socket path with no
/// parent (the root, or the empty path) is outside the domain.
pub fn bus_dir(sock_path: &str) -> (r: String)
    requires
        parent_of(sock_path@) is Some,
    ensures
        parent_of(sock_path@) == Some(r@),
{
    match path_parent(sock_path) {
        Some(d) => d,
        None => owned(""),
    }
}

/// Why spawning the broker failed.
#[derive(Debug)]
pub enum SpawnError {
    /// I/O error spawning the broker; the error's message.
    Io(String),
    /// The current executable could not be located; the error's message.
    CurrentExe(String),
    BrokerDidNotStart,
    SocketPathNotUtf8,
}

pub open spec fn spawn_error_message(e: SpawnError) -> Seq<char> {
    match e {
        SpawnError::Io(_) => "io error spawning broker"@,
        SpawnError::CurrentExe(_) => "failed to locate current executable"@,
        SpawnError::BrokerDidNotStart => "broker did not start within 2s"@,
        SpawnError::SocketPathNotUtf8 => "socket path is not valid utf-8"@,
    }
}

impl SpawnError {
    /// The error's message (its cause is reported separately).
    pub fn message(&self) -> (r: String)
        ensures
            r@ == spawn_error_message(*self),
    {
        match self {
            SpawnError::Io(_) => owned("io error spawning broker"),
            SpawnError::CurrentExe(_) => owned("failed to locate current executable"),
            SpawnError::BrokerDidNotStart => owned("broker did not start within 2s"),
            SpawnError::SocketPathNotUtf8 => owned("socket path is not valid utf-8"),
        }
    }
}

/// Linux's `NFS_SUPER_MAGIC` filesystem type.
pub const NFS_SUPER_MAGIC: i64 = 0x6969;

/// Whether `statfs` reported an NFS filesystem (`None`: `statfs` failed,
/// which counts as not NFS: the warning is best-effort).
pub fn is_nfs(filesystem_type: Option<i64>) -> (r: bool)
    ensures
        r == (filesystem_type == Some(NFS_SUPER_MAGIC)),
{
    match filesystem_type {
        Some(t) => t == NFS_SUPER_MAGIC,
        None => false,
    }
}

/// Whether a BSD filesystem type name (`f_fstypename`) is an NFS variant
/// (`nfs`, `nfs3`, `nfs4`, …).
pub fn is_nfs_type_name(name: Option<&str>) -> (r: bool)
    ensures
        r == (name matches Some(n) && crate::text::seq_starts_with(n@, "nfs"@)),
{
    match name {
        Some(n) => crate::text::starts_with(n, "nfs"),
        None => false,
    }
}

/// The largest frame payload the bus accepts: 16 MiB.
pub const MAX_FRAME_BYTES: u32 = 16_777_216;

/// Why a frame header is refused.
#[derive(Clone, Copy, Debug, PartialEq, Eq, Structural)]
pub enum FrameError {
    /// A zero-length payload.
    EmptyFrame,
    /// A payload over [`MAX_FRAME_BYTES`]; its announced length.
    FrameTooLarge(u32),
}

/// A 4-byte big-endian unsigned integer.
pub open spec fn be_u32(p: [u8; 4]) -> int {
    p[0] as int * 16777216 + p[1] as int * 65536 + p[2] as int * 256 + p[3] as int
}

/// Reads a frame's length prefix: 1 to [`MAX_FRAME_BYTES`] bytes of
/// payload follow it.
pub fn frame_len(prefix: [u8; 4]) -> (r: Result<u32, FrameError>)
    ensures
        be_u32(prefix) == 0 ==> r == Err::<u32, FrameError>(FrameError::EmptyFrame),
        be_u32(prefix) > MAX_FRAME_BYTES ==> r == Err::<u32, FrameError>(FrameError::FrameTooLarge(be_u32(prefix) as u32)),
        0 < be_u32(prefix) <= MAX_FRAME_BYTES ==> r == Ok::<u32, FrameError>(be_u32(prefix) as u32),
{
    let len: u32 = (prefix[0] as u32) * 16777216 + (prefix[1] as u32) * 65536 + (prefix[2] as u32) * 256 + (prefix[3] as u32);
    if len == 0 {
        Err(FrameError::EmptyFrame)
    } else if len > MAX_FRAME_BYTES {
        Err(FrameError::FrameTooLarge(len))
    } else {
        Ok(len)
    }
}

} // verus!
