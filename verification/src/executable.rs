//! Resolution and validation of the FAMP executable that generated
//! configuration embeds, and quoting of paths for POSIX shells.

use vstd::prelude::*;
use crate::text::{chars_of, is_ws, join_path, joined, replace_char, replace_char_with, str_eq, trim_ws, trim};

verus! {

/// A filesystem path as text: `text` is the path rendered losslessly when
/// `utf8` holds, and with replacement characters otherwise.
#[derive(Debug)]
pub struct PathText {
    pub text: String,
    pub utf8: bool,
}

/// What the filesystem reports for a candidate path (following symlinks).
#[derive(Debug)]
pub struct FileFacts {
    pub is_file: bool,
    /// The permission bits.
    pub mode: u32,
}

/// The validated FAMP executable: an absolute, UTF-8, regular, executable file.
#[derive(Debug)]
pub struct FampExecutable {
    path: String,
}

impl FampExecutable {
    pub closed spec fn view_path(&self) -> Seq<char> {
        self.path@
    }

    /// The executable's path.
    pub fn path(&self) -> (r: &str)
        ensures
            r@ == self.view_path(),
    {
        self.path.as_str()
    }

    /// The executable's path as UTF-8 text (the same text as [`Self::path`]).
    pub fn utf8(&self) -> (r: &str)
        ensures
            r@ == self.view_path(),
    {
        self.path.as_str()
    }

    /// Validates `path` as an explicitly chosen executable, given what the
    /// filesystem reports for it.
    pub fn validate(path: PathText, meta: Result<FileFacts, String>) -> (r: Result<FampExecutable, FampExecutableError>)
        ensures
            validated(path, CandidateSource::Explicit, meta, r),
    {
        validate_candidate(path, CandidateSource::Explicit, meta)
    }
}

/// Where a candidate executable came from.
#[derive(Clone, Copy, Debug, PartialEq, Eq, Structural)]
pub enum CandidateSource {
    Explicit,
    CurrentExe,
    Path,
}

pub open spec fn source_label(s: CandidateSource) -> Seq<char> {
    match s {
        CandidateSource::Explicit => "explicit"@,
        CandidateSource::CurrentExe => "current"@,
        CandidateSource::Path => "PATH-discovered"@,
    }
}

impl CandidateSource {
    /// How error messages name the source.
    pub fn label(self) -> (r: &'static str)
        ensures
            r@ == source_label(self),
    {
        proof {
            reveal_strlit("explicit");
            reveal_strlit("current");
            reveal_strlit("PATH-discovered");
        }
        match self {
            CandidateSource::Explicit => "explicit",
            CandidateSource::CurrentExe => "current",
            CandidateSource::Path => "PATH-discovered",
        }
    }
}

#[derive(Debug)]
pub enum FampExecutableError {
    /// `FAMP_INSTALL_FAMP_BIN` is set but empty or whitespace-only.
    EmptyExplicit,
    NonUtf8 { origin: CandidateSource, path: String },
    /// The path does not exist or cannot be inspected; `error` is the
    /// underlying I/O error's message.
    Metadata { origin: CandidateSource, path: String, error: String },
    NotAFile { origin: CandidateSource, path: String },
    NotExecutable { origin: CandidateSource, path: String },
    NotFound,
    /// The working directory needed to make a relative path absolute could
    /// not be read.
    Absolute { origin: CandidateSource, path: String, error: String },
}

/// What an executable error says.
pub open spec fn executable_error_message(e: FampExecutableError) -> Seq<char> {
    match e {
        FampExecutableError::EmptyExplicit =>
            "FAMP_INSTALL_FAMP_BIN is set but empty or whitespace-only; set it to an executable FAMP file or unset it"@,
        FampExecutableError::NonUtf8 { origin, path } =>
            source_label(origin) + " FAMP executable path is not valid UTF-8: \""@ + path@ + "\""@,
        FampExecutableError::Metadata { origin, path, error } =>
            source_label(origin) + " FAMP executable path does not exist or cannot be inspected: "@ + path@,
        FampExecutableError::NotAFile { origin, path } =>
            source_label(origin) + " FAMP executable path is not a regular file: "@ + path@,
        FampExecutableError::NotExecutable { origin, path } =>
            source_label(origin) + " FAMP executable path is not executable: "@ + path@,
        FampExecutableError::NotFound =>
            "could not resolve the FAMP executable for generated configuration; run the installer with the `famp` binary on PATH or set FAMP_INSTALL_FAMP_BIN to its absolute path"@,
        FampExecutableError::Absolute { origin, path, error } =>
            "could not make "@ + source_label(origin) + " FAMP executable path absolute: "@ + path@,
    }
}

impl FampExecutableError {
    /// The error's message (its cause, where it has one, is reported
    /// separately).
    pub fn message(&self) -> (r: String)
        ensures
            r@ == executable_error_message(*self),
    {
        match self {
            FampExecutableError::EmptyExplicit => String::from_str(
                "FAMP_INSTALL_FAMP_BIN is set but empty or whitespace-only; set it to an executable FAMP file or unset it"),
            FampExecutableError::NonUtf8 { origin, path } => {
                let mut s = String::from_str(origin.label());
                s.append(" FAMP executable path is not valid UTF-8: \"");
                s.append(path.as_str());
                s.append("\"");
                s
            },
            FampExecutableError::Metadata { origin, path, .. } => {
                let mut s = String::from_str(origin.label());
                s.append(" FAMP executable path does not exist or cannot be inspected: ");
                s.append(path.as_str());
                s
            },
            FampExecutableError::NotAFile { origin, path } => {
                let mut s = String::from_str(origin.label());
                s.append(" FAMP executable path is not a regular file: ");
                s.append(path.as_str());
                s
            },
            FampExecutableError::NotExecutable { origin, path } => {
                let mut s = String::from_str(origin.label());
                s.append(" FAMP executable path is not executable: ");
                s.append(path.as_str());
                s
            },
            FampExecutableError::NotFound => String::from_str(
                "could not resolve the FAMP executable for generated configuration; run the installer with the `famp` binary on PATH or set FAMP_INSTALL_FAMP_BIN to its absolute path"),
            FampExecutableError::Absolute { origin, path, .. } => {
                let mut s = String::from_str("could not make ");
                s.append(origin.label());
                s.append(" FAMP executable path absolute: ");
                s.append(path.as_str());
                s
            },
        }
    }
}

/// Filename convention that decides whether a file name names the FAMP
/// executable.
#[derive(Clone, Copy, Debug, PartialEq, Eq, Structural)]
pub enum NameConvention {
    /// Exactly `famp`.
    Unix,
    /// Exactly `famp.exe`, compared ASCII-case-insensitively.
    Windows,
}

/// The code of `c` with ASCII upper case folded to lower case.
pub open spec fn ascii_lower(c: char) -> u32 {
    if 'A' <= c <= 'Z' { ((c as u32) + 32) as u32 } else { c as u32 }
}

pub open spec fn famp_executable_name(name: Seq<char>, convention: NameConvention) -> bool {
    match convention {
        NameConvention::Unix => name == "famp"@,
        NameConvention::Windows => name.len() == 8 && forall|i: int| 0 <= i < 8 ==> #[trigger] ascii_lower(name[i]) == "famp.exe"@[i] as u32,
    }
}

fn lower_ascii(c: char) -> (r: u32)
    ensures
        r == ascii_lower(c),
{
    if 'A' <= c && c <= 'Z' {
        (c as u32) + 32
    } else {
        c as u32
    }
}

/// True when `file_name` is an accepted FAMP executable file name under
/// `convention`: `famp.bak`, `famp.1`, `famp-old` and the like never are.
pub fn is_famp_executable_name_for(file_name: &str, convention: NameConvention) -> (r: bool)
    ensures
        r == famp_executable_name(file_name@, convention),
{
    match convention {
        NameConvention::Unix => str_eq(file_name, "famp"),
        NameConvention::Windows => {
            proof {
                reveal_strlit("famp.exe");
            }
            let v = chars_of(file_name);
            let want = chars_of("famp.exe");
            if v.len() != 8 {
                return false;
            }
            let mut i: usize = 0;
            while i < 8
                invariant
                    i <= 8,
                    convention == NameConvention::Windows,
                    v@ == file_name@,
                    v@.len() == 8,
                    want@ == "famp.exe"@,
                    want@.len() == 8,
                    forall|k: int| 0 <= k < i ==> #[trigger] ascii_lower(v@[k]) == "famp.exe"@[k] as u32,
                decreases 8 - i,
            {
                if lower_ascii(v[i]) != want[i] as u32 {
                    assert(ascii_lower(file_name@[i as int]) != "famp.exe"@[i as int] as u32);
                    return false;
                }
                i += 1;
            }
            true
        },
    }
}

/// The last `/`-separated component of `path`.
pub open spec fn last_component(path: Seq<char>) -> Seq<char>
    decreases path.len(),
{
    if path.len() == 0 {
        path
    } else if path.last() == '/' {
        Seq::empty()
    } else {
        last_component(path.drop_last()).push(path.last())
    }
}

/// The text after the last `/` of `s` (all of `s` when it has none):
/// `s.rsplit('/').next()`.
pub fn after_last_slash(s: &str) -> (r: String)
    ensures
        r@ == last_component(s@),
{
    let v = chars_of(s);
    let end = v.len();
    let mut start: usize = end;
    proof {
        assert(v@.take(end as int) =~= v@);
    }
    while start > 0 && v[start - 1] != '/'
        invariant
            start <= end == v@.len(),
            last_component(v@) == last_component(v@.take(start as int)) + v@.subrange(start as int, end as int),
        decreases start,
    {
        proof {
            assert(v@.take(start as int).drop_last() =~= v@.take(start as int - 1));
            assert(last_component(v@.take(start as int)) == last_component(v@.take(start as int - 1)).push(v@[start - 1]));
            assert(last_component(v@.take(start as int - 1)).push(v@[start - 1]) + v@.subrange(start as int, end as int)
                =~= last_component(v@.take(start as int - 1)) + v@.subrange(start as int - 1, end as int));
        }
        start -= 1;
    }
    proof {
        assert(last_component(v@.take(start as int)) =~= Seq::<char>::empty()) by {
            if start > 0 {
                assert(v@.take(start as int).last() == '/');
            }
        }
        assert(Seq::<char>::empty() + v@.subrange(start as int, end as int) =~= v@.subrange(start as int, end as int));
    }
    crate::text::string_of_range(&v, start, end)
}

/// The file name of `path`: its last component, trailing `/`s ignored.
pub open spec fn file_name_of(path: Seq<char>) -> Seq<char>
    decreases path.len(),
{
    if path.len() > 0 && path.last() == '/' {
        file_name_of(path.drop_last())
    } else {
        last_component(path)
    }
}

pub fn file_name(path: &str) -> (r: String)
    ensures
        r@ == file_name_of(path@),
{
    let v = chars_of(path);
    let mut end: usize = v.len();
    proof {
        assert(v@.take(end as int) =~= v@);
    }
    while end > 0 && v[end - 1] == '/'
        invariant
            end <= v@.len(),
            v@ == path@,
            file_name_of(v@.take(end as int)) == file_name_of(path@),
        decreases end,
    {
        proof {
            assert(v@.take(end as int).drop_last() =~= v@.take(end as int - 1));
        }
        end -= 1;
    }
    let mut start: usize = end;
    while start > 0 && v[start - 1] != '/'
        invariant
            start <= end <= v@.len(),
            v@ == path@,
            end == 0 || v@[end - 1] != '/',
            file_name_of(v@.take(end as int)) == last_component(v@.take(end as int)),
            last_component(v@.take(end as int)) == last_component(v@.take(start as int)) + v@.subrange(start as int, end as int),
        decreases start,
    {
        proof {
            assert(v@.take(start as int).drop_last() =~= v@.take(start as int - 1));
            assert(v@.subrange(start as int - 1, end as int) =~= seq![v@[start - 1]] + v@.subrange(start as int, end as int));
            assert(last_component(v@.take(start as int)) == last_component(v@.take(start as int - 1)).push(v@[start - 1]));
            assert(last_component(v@.take(start as int - 1)).push(v@[start - 1]) + v@.subrange(start as int, end as int)
                =~= last_component(v@.take(start as int - 1)) + v@.subrange(start as int - 1, end as int));
        }
        start -= 1;
    }
    proof {
        if end > 0 {
            assert(file_name_of(v@.take(end as int)) == last_component(v@.take(end as int)));
        }
        assert(last_component(v@.take(start as int)) =~= Seq::<char>::empty()) by {
            if start > 0 {
                assert(v@.take(start as int).last() == '/');
            }
        }
        assert(Seq::<char>::empty() + v@.subrange(start as int, end as int) =~= v@.subrange(start as int, end as int));
    }
    crate::text::string_of_range(&v, start, end)
}


/// `r` is what validating candidate `path` from `source` gives, checked in
/// this order: UTF-8, then that it exists, is a regular file and has an
/// execute bit.
pub open spec fn validated(path: PathText, source: CandidateSource, meta: Result<FileFacts, String>, r: Result<FampExecutable, FampExecutableError>) -> bool {
    if !path.utf8 {
        r == Err::<FampExecutable, FampExecutableError>(FampExecutableError::NonUtf8 { origin: source, path: path.text })
    } else {
        match meta {
            Err(e) => r == Err::<FampExecutable, FampExecutableError>(FampExecutableError::Metadata { origin: source, path: path.text, error: e }),
            Ok(f) => if !f.is_file {
                r == Err::<FampExecutable, FampExecutableError>(FampExecutableError::NotAFile { origin: source, path: path.text })
            } else if f.mode & 0o111u32 == 0 {
                r == Err::<FampExecutable, FampExecutableError>(FampExecutableError::NotExecutable { origin: source, path: path.text })
            } else {
                r matches Ok(x) && x.view_path() == path.text@
            },
        }
    }
}

/// Validates a candidate, given what the filesystem reports for its path.
pub fn validate_candidate(path: PathText, source: CandidateSource, meta: Result<FileFacts, String>) -> (r: Result<FampExecutable, FampExecutableError>)
    ensures
        validated(path, source, meta, r),
{
    if !path.utf8 {
        return Err(FampExecutableError::NonUtf8 { origin: source, path: path.text });
    }
    match meta {
        Err(e) => Err(FampExecutableError::Metadata { origin: source, path: path.text, error: e }),
        Ok(f) => {
            if !f.is_file {
                Err(FampExecutableError::NotAFile { origin: source, path: path.text })
            } else if f.mode & 0o111u32 == 0 {
                Err(FampExecutableError::NotExecutable { origin: source, path: path.text })
            } else {
                Ok(FampExecutable { path: path.text })
            }
        },
    }
}

/// What the process environment offers as candidates, in precedence
/// order, and the working directory that relative candidates resolve against.
#[derive(Debug)]
pub struct LocatorFacts {
    /// `FAMP_INSTALL_FAMP_BIN`, when set.
    pub explicit: Option<PathText>,
    /// The running executable.
    pub current_exe: Option<PathText>,
    /// `famp` as found on `PATH`.
    pub path_lookup: Option<PathText>,
    /// The working directory, or the message of the error reading it.
    pub current_dir: Result<PathText, String>,
}

/// The candidate that precedence selects: an explicit setting always wins
/// (and is never skipped), then the running executable when its file name
/// is exactly the FAMP executable's, then the `PATH` lookup.
pub open spec fn chosen(facts: LocatorFacts, convention: NameConvention) -> Option<(PathText, CandidateSource)> {
    match facts.explicit {
        Some(p) => Some((p, CandidateSource::Explicit)),
        None => match facts.current_exe {
            Some(p) if famp_executable_name(file_name_of(p.text@), convention) => Some((p, CandidateSource::CurrentExe)),
            _ => match facts.path_lookup {
                Some(p) => Some((p, CandidateSource::Path)),
                None => None,
            },
        },
    }
}

/// Resolves the candidate executable path for generated configuration
/// (absolute, not yet validated) and where it came from.
pub fn resolve_with(facts: &LocatorFacts, convention: NameConvention) -> (r: Result<(PathText, CandidateSource), FampExecutableError>)
    ensures
        facts.explicit matches Some(raw) && trim_ws(raw.text@).len() == 0 ==> r == Err::<(PathText, CandidateSource), FampExecutableError>(FampExecutableError::EmptyExplicit),
        !(facts.explicit matches Some(raw) && trim_ws(raw.text@).len() == 0) ==> match chosen(*facts, convention) {
            None => r == Err::<(PathText, CandidateSource), FampExecutableError>(FampExecutableError::NotFound),
            Some((p, source)) => if p.text@.len() > 0 && p.text@[0] == '/' {
                r == Ok::<(PathText, CandidateSource), FampExecutableError>((p, source))
            } else {
                match facts.current_dir {
                    Err(e) => r == Err::<(PathText, CandidateSource), FampExecutableError>(FampExecutableError::Absolute { origin: source, path: p.text, error: e }),
                    Ok(cwd) => r matches Ok((q, s)) && s == source && q.text@ == joined(cwd.text@, p.text@) && q.utf8 == (cwd.utf8 && p.utf8),
                }
            },
        },
{
    let (p, source) = match &facts.explicit {
        Some(raw) => {
            if trim(raw.text.as_str()).as_str().is_empty() {
                return Err(FampExecutableError::EmptyExplicit);
            }
            (raw, CandidateSource::Explicit)
        },
        None => {
            let from_current = match &facts.current_exe {
                Some(p) => {
                    let name = file_name(p.text.as_str());
                    if is_famp_executable_name_for(name.as_str(), convention) { Some(p) } else { None }
                },
                None => None,
            };
            match from_current {
                Some(p) => (p, CandidateSource::CurrentExe),
                None => match &facts.path_lookup {
                    Some(p) => (p, CandidateSource::Path),
                    None => return Err(FampExecutableError::NotFound),
                },
            }
        },
    };
    let v = chars_of(p.text.as_str());
    if v.len() > 0 && v[0] == '/' {
        return Ok((PathText { text: p.text.clone(), utf8: p.utf8 }, source));
    }
    match &facts.current_dir {
        Err(e) => Err(FampExecutableError::Absolute { origin: source, path: p.text.clone(), error: e.clone() }),
        Ok(cwd) => {
            let text = join_path(cwd.text.as_str(), p.text.as_str());
            Ok((PathText { text, utf8: cwd.utf8 && p.utf8 }, source))
        },
    }
}

/// Flattens an error message and the messages of its chain of causes into
/// one line, joined by `": "`.
pub fn flatten_error_chain(messages: &[String]) -> (r: String)
    ensures
        messages@.len() == 0 ==> r@.len() == 0,
        messages@.len() > 0 ==> r@ == joined_chain(messages@),
{
    let mut out = String::new();
    let mut i: usize = 0;
    while i < messages.len()
        invariant
            i <= messages@.len(),
            i == 0 ==> out@.len() == 0,
            i > 0 ==> out@ == joined_chain(messages@.take(i as int)),
        decreases messages@.len() - i,
    {
        proof {
            assert(messages@.take(i as int + 1).drop_last() =~= messages@.take(i as int));
        }
        if i > 0 {
            out.append(": ");
        }
        out.append(messages[i].as_str());
        i += 1;
    }
    proof {
        assert(messages@.take(messages@.len() as int) =~= messages@);
    }
    out
}

/// The messages of a non-empty chain, joined by `": "`.
pub open spec fn joined_chain(ms: Seq<String>) -> Seq<char>
    decreases ms.len(),
{
    if ms.len() <= 1 {
        if ms.len() == 1 { ms[0]@ } else { Seq::empty() }
    } else {
        joined_chain(ms.drop_last()) + ": "@ + ms.last()@
    }
}

/// `raw` as one single-quoted POSIX shell word: each `'` becomes `'\''`.
pub open spec fn shell_literal(raw: Seq<char>) -> Seq<char> {
    seq!['\''] + replace_char(raw, '\'', "'\\''"@) + seq!['\'']
}

/// Quote arbitrary UTF-8 text as one POSIX shell word.
pub fn posix_shell_literal(raw: &str) -> (r: String)
    ensures
        r@ == shell_literal(raw@),
{
    let mut out = String::new();
    crate::text::push_char(&mut out, '\'');
    let body = replace_char_with(raw, '\'', "'\\''");
    out.append(body.as_str());
    crate::text::push_char(&mut out, '\'');
    proof {
        reveal_strlit("'\\''");
    }
    out
}

/// Where a POSIX shell word reader stands: outside quotes, inside single
/// quotes, or just after an unquoted backslash.
#[derive(Debug)]
pub enum QuoteState {
    Bare,
    Single,
    Escaped,
}

/// The reader after `s`: the word's characters so far, its state, and
/// whether the text stayed one word (no unquoted whitespace).
pub open spec fn read_word(s: Seq<char>) -> (Seq<char>, QuoteState, bool)
    decreases s.len(),
{
    if s.len() == 0 {
        (Seq::empty(), QuoteState::Bare, true)
    } else {
        let (w, st, ok) = read_word(s.drop_last());
        let c = s.last();
        match st {
            QuoteState::Bare => if c == '\'' {
                (w, QuoteState::Single, ok)
            } else if c == '\\' {
                (w, QuoteState::Escaped, ok)
            } else if is_ws(c) {
                (w, QuoteState::Bare, false)
            } else {
                (w.push(c), QuoteState::Bare, ok)
            },
            QuoteState::Single => if c == '\'' { (w, QuoteState::Bare, ok) } else { (w.push(c), QuoteState::Single, ok) },
            QuoteState::Escaped => (w.push(c), QuoteState::Bare, ok),
        }
    }
}

/// The single word a POSIX shell reads from `s`, if `s` is one complete word.
pub open spec fn shell_word(s: Seq<char>) -> Option<Seq<char>> {
    let (w, st, ok) = read_word(s);
    if ok && st is Bare && s.len() > 0 { Some(w) } else { None }
}

proof fn lemma_literal_body(raw: Seq<char>)
    ensures
        read_word(seq!['\''] + replace_char(raw, '\'', "'\\''"@)) == (raw, QuoteState::Single, true),
    decreases raw.len(),
{
    reveal_strlit("'\\''");
    let q = "'\\''"@;
    if raw.len() == 0 {
        assert(seq!['\''] + replace_char(raw, '\'', q) =~= seq!['\'']);
        assert(seq!['\''].drop_last() =~= Seq::<char>::empty());
        assert(seq!['\''].last() == '\'');
        assert(read_word(Seq::<char>::empty()) == (Seq::<char>::empty(), QuoteState::Bare, true));
        assert(read_word(seq!['\'']) == (Seq::<char>::empty(), QuoteState::Single, true));
        assert(raw =~= Seq::<char>::empty());
    } else {
        lemma_literal_body(raw.drop_last());
        let pre = seq!['\''] + replace_char(raw.drop_last(), '\'', q);
        let c = raw.last();
        let w0 = raw.drop_last();
        if c == '\'' {
            let s1 = pre.push('\'');
            let s2 = s1.push('\\');
            let s3 = s2.push('\'');
            let s4 = s3.push('\'');
            assert(s1.drop_last() =~= pre);
            assert(s2.drop_last() =~= s1);
            assert(s3.drop_last() =~= s2);
            assert(s4.drop_last() =~= s3);
            assert(read_word(s1) == (w0, QuoteState::Bare, true));
            assert(read_word(s2) == (w0, QuoteState::Escaped, true));
            assert(read_word(s3) == (w0.push('\''), QuoteState::Bare, true));
            assert(read_word(s4) == (w0.push('\''), QuoteState::Single, true));
            assert(seq!['\''] + replace_char(raw, '\'', q) =~= s4);
            assert(w0.push('\'') =~= raw);
        } else {
            assert(pre.push(c).drop_last() =~= pre);
            assert(read_word(pre.push(c)) == (w0.push(c), QuoteState::Single, true));
            assert(seq!['\''] + replace_char(raw, '\'', q) =~= pre.push(c));
            assert(w0.push(c) =~= raw);
        }
    }
}

/// The shell reads back exactly the text that was quoted: the literal is
/// one word, whatever `raw` holds.
pub proof fn law_shell_literal_round_trip(raw: Seq<char>)
    ensures
        shell_word(shell_literal(raw)) == Some(raw),
{
    lemma_literal_body(raw);
    let body = seq!['\''] + replace_char(raw, '\'', "'\\''"@);
    assert(shell_literal(raw) =~= body.push('\''));
    assert(body.push('\'').drop_last() =~= body);
}

} // verus!
