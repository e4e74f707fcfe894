//! Which local identity a command acts as: the `--as` flag, then
//! `$FAMP_LOCAL_IDENTITY`, then the identity that `~/.famp-local/wires.tsv`
//! binds to the working directory; failing all three, a one-line hint.

use vstd::prelude::*;
use crate::text::{chars_of, lines, opt_text, owned, split_lines, string_of_range};

verus! {

/// No identity could be resolved.
#[derive(Debug)]
pub enum IdentityError {
    NoIdentityBound { reason: String },
}

/// The hint that names the three ways to bind an identity.
pub open spec fn no_identity_hint() -> Seq<char> {
    "no identity bound — pass --as, set $FAMP_LOCAL_IDENTITY, or run `famp-local wire <dir>` first"@
}

/// The view of an optional owned string.
pub open spec fn opt_owned(s: Option<String>) -> Option<Seq<char>> {
    match s {
        Some(t) => Some(t@),
        None => None,
    }
}

/// The first tier that names a non-empty identity: the flag, then the
/// environment, then the working directory's binding.
pub open spec fn resolved_identity(as_flag: Option<Seq<char>>, env: Option<Seq<char>>, wired: Option<Seq<char>>) -> Option<Seq<char>> {
    if as_flag matches Some(n) && n.len() > 0 {
        as_flag
    } else if env matches Some(n) && n.len() > 0 {
        env
    } else {
        wired
    }
}

/// Resolves the active identity. `env_identity` is `$FAMP_LOCAL_IDENTITY`
/// when set; `wired` is the identity bound to the working directory, when
/// one is. An empty flag or variable counts as not given.
pub fn resolve_identity(as_flag: Option<&str>, env_identity: Option<&str>, wired: Option<String>) -> (r: Result<String, IdentityError>)
    ensures
        match resolved_identity(opt_text(as_flag), opt_text(env_identity), opt_owned(wired)) {
            Some(n) => r matches Ok(s) && s@ == n,
            None => r matches Err(IdentityError::NoIdentityBound { reason }) && reason@ == no_identity_hint(),
        },
{
    match as_flag {
        Some(name) => {
            if !name.is_empty() {
                return Ok(owned(name));
            }
        },
        None => {},
    }
    match env_identity {
        Some(name) => {
            if !name.is_empty() {
                return Ok(owned(name));
            }
        },
        None => {},
    }
    match wired {
        Some(name) => Ok(name),
        None => Err(IdentityError::NoIdentityBound {
            reason: owned("no identity bound — pass --as, set $FAMP_LOCAL_IDENTITY, or run `famp-local wire <dir>` first"),
        }),
    }
}

/// The first tab of `line` is at `i`.
pub open spec fn first_tab_at(line: Seq<char>, i: int) -> bool {
    0 <= i < line.len() && line[i] == '\t' && forall|j: int| 0 <= j < i ==> line[j] != '\t'
}

/// A `wires.tsv` row: the directory before the first tab and the identity
/// after it, both non-empty.
pub open spec fn wires_row(line: Seq<char>) -> Option<(Seq<char>, Seq<char>)> {
    if exists|i: int| #[trigger] first_tab_at(line, i) {
        let i = choose|i: int| #[trigger] first_tab_at(line, i);
        if i > 0 && i + 1 < line.len() {
            Some((line.take(i), line.skip(i + 1)))
        } else {
            None
        }
    } else {
        None
    }
}

proof fn lemma_first_tab_unique(line: Seq<char>, i: int, j: int)
    requires
        first_tab_at(line, i),
        first_tab_at(line, j),
    ensures
        i == j,
{
    if i < j {
        assert(line[i] != '\t');
    } else if j < i {
        assert(line[j] != '\t');
    }
}

/// Splits one `wires.tsv` line.
pub fn parse_wires_line(line: &str) -> (r: Option<(String, String)>)
    ensures
        match wires_row(line@) {
            Some((d, n)) => r matches Some((a, b)) && a@ == d && b@ == n,
            None => r is None,
        },
{
    let v = chars_of(line);
    let mut i: usize = 0;
    while i < v.len()
        invariant
            i <= v@.len(),
            v@ == line@,
            forall|j: int| 0 <= j < i ==> v@[j] != '\t',
        decreases v@.len() - i,
    {
        if v[i] == '\t' {
            proof {
                assert(first_tab_at(line@, i as int));
                let c = choose|c: int| #[trigger] first_tab_at(line@, c);
                lemma_first_tab_unique(line@, c, i as int);
            }
            if i == 0 || i + 1 >= v.len() {
                return None;
            }
            let d = string_of_range(&v, 0, i);
            let n = string_of_range(&v, i + 1, v.len());
            proof {
                assert(d@ =~= line@.take(i as int));
                assert(n@ =~= line@.skip(i as int + 1));
            }
            return Some((d, n));
        }
        i += 1;
    }
    proof {
        assert forall|c: int| !#[trigger] first_tab_at(line@, c) by {
            if first_tab_at(line@, c) {
                assert(v@[c] == '\t');
            }
        }
    }
    None
}

/// The rows of a `wires.tsv` file, in order, skipping malformed lines.
pub open spec fn wires_rows(content: Seq<char>) -> Seq<(Seq<char>, Seq<char>)> {
    lines(content).filter_map(|l: Seq<char>| wires_row(l))
}

/// Reads the rows of a `wires.tsv` file.
pub fn parse_wires(content: &str) -> (r: Vec<(String, String)>)
    ensures
        r@.map_values(|p: (String, String)| (p.0@, p.1@)) == wires_rows(content@),
{
    let ls = split_lines(content);
    let ghost all = lines(content@);
    let ghost f = |l: Seq<char>| wires_row(l);
    let ghost view_of = |p: (String, String)| (p.0@, p.1@);
    let mut out: Vec<(String, String)> = Vec::new();
    let mut i: usize = 0;
    while i < ls.len()
        invariant
            i <= ls@.len(),
            ls@.len() == all.len(),
            all == lines(content@),
            forall|k: int| 0 <= k < ls@.len() ==> #[trigger] ls@[k]@ == all[k],
            f == (|l: Seq<char>| wires_row(l)),
            view_of == (|p: (String, String)| (p.0@, p.1@)),
            out@.map_values(view_of) == all.take(i as int).filter_map(f),
        decreases ls@.len() - i,
    {
        let ghost before = out@;
        proof {
            assert(all.take(i as int + 1).drop_last() =~= all.take(i as int));
            assert(all.take(i as int + 1).last() == all[i as int]);
        }
        match parse_wires_line(ls[i].as_str()) {
            Some(p) => {
                let ghost gp = p;
                out.push(p);
                proof {
                    assert(out@.map_values(view_of) =~= before.map_values(view_of) + seq![view_of(gp)]);
                }
            },
            None => {
                proof {
                    assert(out@ == before);
                }
            },
        }
        i += 1;
    }
    proof {
        assert(all.take(all.len() as int) =~= all);
    }
    out
}

} // verus!
