//! `famp init` and the identity checks other commands start with: the FAMP
//! home must be absolute and hold every identity file.

use vstd::prelude::*;
use crate::text::{chars_of, owned};

verus! {

/// Why the FAMP home cannot be used or initialized.
#[derive(Debug)]
pub enum InitError {
    /// Neither `FAMP_HOME` nor `$HOME` is set.
    HomeNotSet,
    HomeNotAbsolute { path: String },
    HomeHasNoParent { path: String },
    /// The home already holds identity files; `--force` replaces them.
    AlreadyInitialized { existing_files: Vec<String> },
    /// An identity file is missing.
    IdentityIncomplete { missing: String },
}

/// What an init error says.
pub open spec fn init_error_message(e: InitError) -> Seq<char> {
    match e {
        InitError::HomeNotSet => "FAMP_HOME is not set and $HOME is not set"@,
        InitError::HomeNotAbsolute { path } => "FAMP_HOME must be an absolute path, got: "@ + path@,
        InitError::HomeHasNoParent { path } => "FAMP_HOME parent directory does not exist: "@ + path@,
        InitError::AlreadyInitialized { existing_files } => "FAMP_HOME already initialized ("@
            + crate::text::decimal(existing_files@.len()) + " existing files); pass --force to overwrite"@,
        InitError::IdentityIncomplete { missing } => "FAMP_HOME identity incomplete: missing "@ + missing@,
    }
}

impl InitError {
    /// The error's message.
    pub fn message(&self) -> (r: String)
        ensures
            r@ == init_error_message(*self),
    {
        match self {
            InitError::HomeNotSet => owned("FAMP_HOME is not set and $HOME is not set"),
            InitError::HomeNotAbsolute { path } => {
                let mut s = owned("FAMP_HOME must be an absolute path, got: ");
                s.append(path.as_str());
                s
            },
            InitError::HomeHasNoParent { path } => {
                let mut s = owned("FAMP_HOME parent directory does not exist: ");
                s.append(path.as_str());
                s
            },
            InitError::AlreadyInitialized { existing_files } => {
                let mut s = owned("FAMP_HOME already initialized (");
                let n = crate::text::u64_to_decimal(existing_files.len() as u64);
                s.append(n.as_str());
                s.append(" existing files); pass --force to overwrite");
                s
            },
            InitError::IdentityIncomplete { missing } => {
                let mut s = owned("FAMP_HOME identity incomplete: missing ");
                s.append(missing.as_str());
                s
            },
        }
    }
}

/// A successful `famp init`.
#[derive(Debug)]
pub struct InitOutcome {
    /// base64url-unpadded public key.
    pub pubkey_b64url: String,
    /// The initialized FAMP home.
    pub home: String,
}

/// Resolves the FAMP home. This build has no environment source for it:
/// the answer is always that it is not set.
pub fn resolve_famp_home() -> (r: Result<String, InitError>)
    ensures
        r matches Err(InitError::HomeNotSet),
{
    Err(InitError::HomeNotSet)
}

/// An absolute path starts at the root.
pub open spec fn absolute(p: Seq<char>) -> bool {
    p.len() > 0 && p[0] == '/'
}

/// Whether `path` is absolute.
pub fn is_absolute(path: &str) -> (r: bool)
    ensures
        r == absolute(path@),
{
    let v = chars_of(path);
    v.len() > 0 && v[0] == '/'
}

/// The identity files that exist, in layout order, from the layout's
/// entries (path, exists).
pub fn probe_existing(entries: &[(String, bool)]) -> (r: Vec<String>)
    ensures
        r@.map_values(|s: String| s@) == entries@.filter(|e: (String, bool)| e.1).map_values(|e: (String, bool)| e.0@),
{
    let ghost pred = |e: (String, bool)| e.1;
    let mut out: Vec<String> = Vec::new();
    let mut i: usize = 0;
    while i < entries.len()
        invariant
            i <= entries@.len(),
            pred == (|e: (String, bool)| e.1),
            out@.map_values(|s: String| s@) == entries@.take(i as int).filter(pred).map_values(|e: (String, bool)| e.0@),
        decreases entries@.len() - i,
    {
        proof {
            reveal(Seq::filter);
            assert(entries@.take(i as int + 1).drop_last() =~= entries@.take(i as int));
        }
        if entries[i].1 {
            let ghost before = out@;
            out.push(entries[i].0.clone());
            proof {
                assert(out@.map_values(|s: String| s@) =~= before.map_values(|s: String| s@).push(entries@[i as int].0@));
                assert(entries@.take(i as int + 1).filter(pred) == entries@.take(i as int).filter(pred).push(entries@[i as int]));
                assert(entries@.take(i as int + 1).filter(pred).map_values(|e: (String, bool)| e.0@)
                    =~= entries@.take(i as int).filter(pred).map_values(|e: (String, bool)| e.0@).push(entries@[i as int].0@));
            }
        }
        i += 1;
    }
    proof {
        assert(entries@.take(entries@.len() as int) =~= entries@);
    }
    out
}

/// Checks that the home is absolute and that every identity file exists;
/// the first missing file (in layout order) is reported.
pub fn load_identity(home: &str, entries: &[(String, bool)]) -> (r: Result<(), InitError>)
    ensures
        !absolute(home@) ==> (r matches Err(InitError::HomeNotAbsolute { path }) && path@ == home@),
        absolute(home@) ==> match r {
            Ok(()) => forall|i: int| 0 <= i < entries@.len() ==> #[trigger] entries@[i].1,
            Err(InitError::IdentityIncomplete { missing }) => exists|i: int| 0 <= i < entries@.len() && !(#[trigger] entries@[i]).1
                && entries@[i].0@ == missing@ && forall|k: int| 0 <= k < i ==> entries@[k].1,
            _ => false,
        },
{
    if !is_absolute(home) {
        return Err(InitError::HomeNotAbsolute { path: owned(home) });
    }
    let mut i: usize = 0;
    while i < entries.len()
        invariant
            i <= entries@.len(),
            absolute(home@),
            forall|k: int| 0 <= k < i ==> entries@[k].1,
        decreases entries@.len() - i,
    {
        if !entries[i].1 {
            return Err(InitError::IdentityIncomplete { missing: entries[i].0.clone() });
        }
        i += 1;
    }
    Ok(())
}

/// How `famp init` proceeds.
#[derive(Clone, Copy, Debug, PartialEq, Eq, Structural)]
pub enum InitMode {
    /// `--force` over an initialized home: build a new one beside it and
    /// swap it in atomically.
    ReplaceAtomically,
    /// An empty or missing home: create the identity in place.
    CreateInPlace,
}

/// Decides how to initialize `home`, from whether it exists, the identity
/// files it already holds, `--force`, and whether its parent directory
/// exists (`None`: it has no parent).
pub fn init_mode(home: &str, home_exists: bool, existing: Vec<String>, force: bool, parent_exists: Option<bool>) -> (r: Result<InitMode, InitError>)
    ensures
        !absolute(home@) ==> (r matches Err(InitError::HomeNotAbsolute { path }) && path@ == home@),
        absolute(home@) && home_exists && existing@.len() > 0 && !force
            ==> r == Err::<InitMode, InitError>(InitError::AlreadyInitialized { existing_files: existing }),
        absolute(home@) && home_exists && existing@.len() > 0 && force ==> if parent_exists == Some(true) {
            r == Ok::<InitMode, InitError>(InitMode::ReplaceAtomically)
        } else {
            r matches Err(InitError::HomeHasNoParent { path }) && path@ == home@
        },
        absolute(home@) && home_exists && existing@.len() == 0 ==> r == Ok::<InitMode, InitError>(InitMode::CreateInPlace),
        absolute(home@) && !home_exists ==> if parent_exists == Some(true) {
            r == Ok::<InitMode, InitError>(InitMode::CreateInPlace)
        } else {
            r matches Err(InitError::HomeHasNoParent { path }) && path@ == home@
        },
{
    if !is_absolute(home) {
        return Err(InitError::HomeNotAbsolute { path: owned(home) });
    }
    if home_exists && existing.len() > 0 {
        if !force {
            return Err(InitError::AlreadyInitialized { existing_files: existing });
        }
        return match parent_exists {
            Some(true) => Ok(InitMode::ReplaceAtomically),
            _ => Err(InitError::HomeHasNoParent { path: owned(home) }),
        };
    }
    if home_exists {
        return Ok(InitMode::CreateInPlace);
    }
    match parent_exists {
        Some(true) => Ok(InitMode::CreateInPlace),
        _ => Err(InitError::HomeHasNoParent { path: owned(home) }),
    }
}

/// What `famp init` prints: the public key on stdout, the home on stderr.
pub fn emit_output(outcome: &InitOutcome) -> (r: (String, String))
    ensures
        r.0@ == outcome.pubkey_b64url@,
        r.1@ == "initialized FAMP home at "@ + outcome.home@,
{
    let mut e = owned("initialized FAMP home at ");
    e.append(outcome.home.as_str());
    (outcome.pubkey_b64url.clone(), e)
}

} // verus!
