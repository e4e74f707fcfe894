//! `famp daemon install`: the service file contents and the decisions
//! around writing and loading them.

use vstd::prelude::*;
use crate::executable::{FampExecutable, PathText};
use crate::install::shim::replace_all;
use crate::text::{decimal, has_whitespace, i64_to_decimal, is_ws, join_path, joined, owned, replace_char, replace_char_with, signed_decimal, str_eq, u64_to_decimal};

verus! {

/// Errors of the daemon install/uninstall/status/restart lifecycle.
#[derive(Debug)]
pub enum DaemonError {
    /// Resolving the `famp` binary to embed in the service file failed; the
    /// resolver's message, verbatim.
    FampExecutable(String),
    /// The daemon log path under `home` is not valid UTF-8.
    LogPathNonUtf8 { home: String },
    /// I/O error at `path`; `error` is the underlying message.
    Io { path: String, error: String },
    /// Install was attempted from inside a sandboxed shell.
    SandboxedShell,
    /// `launchctl` failed with this exit code.
    LaunchctlFailed(i32),
    /// `systemctl` is not present.
    SystemctlAbsent,
    /// `systemctl --user` failed with this exit code.
    SystemctlFailed(i32),
    /// Neither macOS nor Linux.
    UnsupportedPlatform,
    /// The service is not registered with the service manager.
    NotInstalled,
    /// The broker never answered Hello within the readiness budget.
    RestartTimedOut { waited_ms: u64, socket: String },
    /// A broker that is not daemon-managed holds the socket.
    OrphanBrokerHoldsSocket { pid: u32, socket: String },
    /// A path for the systemd `ExecStart` line contains whitespace.
    UnitPathHasWhitespace(String),
}

/// The message of a daemon lifecycle error.
pub open spec fn daemon_error_message(e: DaemonError) -> Seq<char> {
    match e {
        DaemonError::FampExecutable(m) => m@,
        DaemonError::LogPathNonUtf8 { home } => "daemon log path is not valid UTF-8 under "@ + home@,
        DaemonError::Io { path, .. } => "io error at "@ + path@,
        DaemonError::SandboxedShell => "cannot install daemon service inside a sandbox; run `famp daemon install` from a normal shell"@,
        DaemonError::LaunchctlFailed(c) => "launchctl failed with exit code "@ + signed_decimal(c as int),
        DaemonError::SystemctlAbsent => "systemctl not found; start broker manually with `famp broker --no-idle-exit`"@,
        DaemonError::SystemctlFailed(c) => "systemctl failed with exit code "@ + signed_decimal(c as int),
        DaemonError::UnsupportedPlatform => "unsupported platform: daemon install only supports macOS (launchd) and Linux (systemd --user); start broker manually with `famp broker --no-idle-exit`"@,
        DaemonError::NotInstalled => "daemon service is not installed; run `famp daemon install` first"@,
        DaemonError::RestartTimedOut { waited_ms, socket } => "daemon restart timed out after "@ + decimal(waited_ms as nat)
            + "ms waiting for broker Hello at "@ + socket@
            + "; check `famp inspect broker` and `~/.famp/broker.log` (on macOS an EX_CONFIG crash loop after `just install` needs a full bootout+bootstrap, which restart now performs — if this still fails, try `famp daemon uninstall` then `famp daemon install`)"@,
        DaemonError::OrphanBrokerHoldsSocket { pid, socket } => "daemon restart found a healthy broker at "@ + socket@ + " (pid="@
            + decimal(pid as nat) + ") that is not daemon-managed (missing --no-idle-exit in argv); kill pid "@ + decimal(pid as nat)
            + " or free the socket, then re-run `famp daemon restart`"@,
        DaemonError::UnitPathHasWhitespace(p) => "cannot install daemon service: path contains whitespace which systemd ExecStart cannot represent: "@
            + p@ + "; start broker manually with `famp broker --no-idle-exit`"@,
    }
}

impl DaemonError {
    /// The error's message, as the command line prints it.
    pub fn message(&self) -> (r: String)
        ensures
            r@ == daemon_error_message(*self),
    {
        match self {
            DaemonError::FampExecutable(m) => m.clone(),
            DaemonError::LogPathNonUtf8 { home } => {
                let mut s = owned("daemon log path is not valid UTF-8 under ");
                s.append(home.as_str());
                s
            },
            DaemonError::Io { path, .. } => {
                let mut s = owned("io error at ");
                s.append(path.as_str());
                s
            },
            DaemonError::SandboxedShell => owned("cannot install daemon service inside a sandbox; run `famp daemon install` from a normal shell"),
            DaemonError::LaunchctlFailed(c) => {
                let mut s = owned("launchctl failed with exit code ");
                let d = i64_to_decimal(*c as i64);
                s.append(d.as_str());
                s
            },
            DaemonError::SystemctlAbsent => owned("systemctl not found; start broker manually with `famp broker --no-idle-exit`"),
            DaemonError::SystemctlFailed(c) => {
                let mut s = owned("systemctl failed with exit code ");
                let d = i64_to_decimal(*c as i64);
                s.append(d.as_str());
                s
            },
            DaemonError::UnsupportedPlatform => owned("unsupported platform: daemon install only supports macOS (launchd) and Linux (systemd --user); start broker manually with `famp broker --no-idle-exit`"),
            DaemonError::NotInstalled => owned("daemon service is not installed; run `famp daemon install` first"),
            DaemonError::RestartTimedOut { waited_ms, socket } => {
                let mut s = owned("daemon restart timed out after ");
                let d = u64_to_decimal(*waited_ms);
                s.append(d.as_str());
                s.append("ms waiting for broker Hello at ");
                s.append(socket.as_str());
                s.append("; check `famp inspect broker` and `~/.famp/broker.log` (on macOS an EX_CONFIG crash loop after `just install` needs a full bootout+bootstrap, which restart now performs — if this still fails, try `famp daemon uninstall` then `famp daemon install`)");
                s
            },
            DaemonError::OrphanBrokerHoldsSocket { pid, socket } => {
                let mut s = owned("daemon restart found a healthy broker at ");
                s.append(socket.as_str());
                s.append(" (pid=");
                let d = u64_to_decimal(*pid as u64);
                s.append(d.as_str());
                s.append(") that is not daemon-managed (missing --no-idle-exit in argv); kill pid ");
                s.append(d.as_str());
                s.append(" or free the socket, then re-run `famp daemon restart`");
                s
            },
            DaemonError::UnitPathHasWhitespace(p) => {
                let mut s = owned("cannot install daemon service: path contains whitespace which systemd ExecStart cannot represent: ");
                s.append(p.as_str());
                s.append("; start broker manually with `famp broker --no-idle-exit`");
                s
            },
        }
    }
}

/// `s` with `&`, `<`, `>` escaped for an XML text node (`&` first, so the
/// entities introduced for `<` and `>` are not escaped again).
pub open spec fn xml_escaped(s: Seq<char>) -> Seq<char> {
    replace_char(replace_char(replace_char(s, '&', "&amp;"@), '<', "&lt;"@), '>', "&gt;"@)
}

/// Escapes the XML metacharacters that are illegal inside a `<string>`.
pub fn xml_escape(s: &str) -> (r: String)
    ensures
        r@ == xml_escaped(s@),
{
    let a = replace_char_with(s, '&', "&amp;");
    let b = replace_char_with(a.as_str(), '<', "&lt;");
    replace_char_with(b.as_str(), '>', "&gt;")
}

/// The escape of one character.
pub open spec fn xml_escape_char(c: char) -> Seq<char> {
    if c == '&' {
        "&amp;"@
    } else if c == '<' {
        "&lt;"@
    } else if c == '>' {
        "&gt;"@
    } else {
        seq![c]
    }
}

/// Reads escaped text back: `&amp;`, `&lt;` and `&gt;` become the
/// character they stand for; every other character stands for itself.
pub open spec fn xml_unescaped(t: Seq<char>) -> Seq<char>
    decreases t.len(),
{
    if t.len() == 0 {
        Seq::empty()
    } else if t.len() >= 5 && t.take(5) == "&amp;"@ {
        seq!['&'] + xml_unescaped(t.skip(5))
    } else if t.len() >= 4 && t.take(4) == "&lt;"@ {
        seq!['<'] + xml_unescaped(t.skip(4))
    } else if t.len() >= 4 && t.take(4) == "&gt;"@ {
        seq!['>'] + xml_unescaped(t.skip(4))
    } else {
        seq![t[0]] + xml_unescaped(t.skip(1))
    }
}

proof fn lemma_replace_char_concat(a: Seq<char>, b: Seq<char>, from: char, to: Seq<char>)
    ensures
        replace_char(a + b, from, to) == replace_char(a, from, to) + replace_char(b, from, to),
    decreases b.len(),
{
    if b.len() == 0 {
        assert(a + b =~= a);
        assert(replace_char(a, from, to) + Seq::<char>::empty() =~= replace_char(a, from, to));
    } else {
        assert((a + b).drop_last() =~= a + b.drop_last());
        assert((a + b).last() == b.last());
        lemma_replace_char_concat(a, b.drop_last(), from, to);
        if b.last() == from {
            assert(replace_char(a, from, to) + replace_char(b.drop_last(), from, to) + to
                =~= replace_char(a, from, to) + (replace_char(b.drop_last(), from, to) + to));
        } else {
            assert((replace_char(a, from, to) + replace_char(b.drop_last(), from, to)).push(b.last())
                =~= replace_char(a, from, to) + replace_char(b.drop_last(), from, to).push(b.last()));
        }
    }
}

proof fn lemma_replace_char_absent(t: Seq<char>, from: char, to: Seq<char>)
    requires
        forall|i: int| 0 <= i < t.len() ==> t[i] != from,
    ensures
        replace_char(t, from, to) == t,
    decreases t.len(),
{
    if t.len() > 0 {
        lemma_replace_char_absent(t.drop_last(), from, to);
        assert(t.drop_last().push(t.last()) =~= t);
    }
}

proof fn lemma_replace_char_single(c: char, from: char, to: Seq<char>)
    ensures
        replace_char(seq![c], from, to) == (if c == from { to } else { seq![c] }),
{
    let s1 = seq![c];
    assert(s1.drop_last() =~= Seq::<char>::empty());
    assert(s1.last() == c);
    assert(replace_char(Seq::<char>::empty(), from, to) == Seq::<char>::empty());
    assert(Seq::<char>::empty() + to =~= to);
    assert(Seq::<char>::empty().push(c) =~= s1);
    assert(replace_char(s1, from, to) == (if s1.last() == from {
        replace_char(s1.drop_last(), from, to) + to
    } else {
        replace_char(s1.drop_last(), from, to).push(s1.last())
    }));
}

proof fn lemma_xml_escaped_char(c: char)
    ensures
        xml_escaped(seq![c]) == xml_escape_char(c),
{
    reveal_strlit("&amp;");
    reveal_strlit("&lt;");
    reveal_strlit("&gt;");
    lemma_replace_char_single(c, '&', "&amp;"@);
    if c == '&' {
        lemma_replace_char_absent("&amp;"@, '<', "&lt;"@);
        lemma_replace_char_absent("&amp;"@, '>', "&gt;"@);
    } else if c == '<' {
        lemma_replace_char_single(c, '<', "&lt;"@);
        lemma_replace_char_absent("&lt;"@, '>', "&gt;"@);
    } else {
        lemma_replace_char_single(c, '<', "&lt;"@);
        lemma_replace_char_single(c, '>', "&gt;"@);
    }
}

proof fn lemma_xml_escaped_cons(s: Seq<char>)
    requires
        s.len() > 0,
    ensures
        xml_escaped(s) == xml_escape_char(s[0]) + xml_escaped(s.skip(1)),
{
    let head = seq![s[0]];
    let rest = s.skip(1);
    assert(s =~= head + rest);
    lemma_replace_char_concat(head, rest, '&', "&amp;"@);
    let a1 = replace_char(head, '&', "&amp;"@);
    let b1 = replace_char(rest, '&', "&amp;"@);
    lemma_replace_char_concat(a1, b1, '<', "&lt;"@);
    let a2 = replace_char(a1, '<', "&lt;"@);
    let b2 = replace_char(b1, '<', "&lt;"@);
    lemma_replace_char_concat(a2, b2, '>', "&gt;"@);
    lemma_xml_escaped_char(s[0]);
}

/// Escaping leaves no `<` or `>`, and reading the escaped text back gives
/// the original text (`&` is escaped first, so nothing is escaped twice).
pub proof fn law_xml_escape_round_trip(s: Seq<char>)
    ensures
        forall|i: int| 0 <= i < xml_escaped(s).len() ==> xml_escaped(s)[i] != '<' && xml_escaped(s)[i] != '>',
        xml_unescaped(xml_escaped(s)) == s,
    decreases s.len(),
{
    reveal_strlit("&amp;");
    reveal_strlit("&lt;");
    reveal_strlit("&gt;");
    if s.len() == 0 {
        assert(xml_escaped(s) =~= Seq::<char>::empty());
    } else {
        lemma_xml_escaped_cons(s);
        law_xml_escape_round_trip(s.skip(1));
        let e = xml_escape_char(s[0]);
        let r = xml_escaped(s.skip(1));
        let t = e + r;
        assert forall|i: int| 0 <= i < t.len() implies t[i] != '<' && t[i] != '>' by {
            if i < e.len() {
                assert(t[i] == e[i]);
            } else {
                assert(t[i] == r[i - e.len()]);
            }
        }
        let c = s[0];
        if c == '&' {
            assert(t.take(5) =~= "&amp;"@);
            assert(t.skip(5) =~= r);
        } else if c == '<' {
            assert(t.take(4) =~= "&lt;"@);
            assert(t.skip(4) =~= r);
            assert(t[1] != "&amp;"@[1]);
            assert(!(t.len() >= 5 && t.take(5) == "&amp;"@)) by {
                if t.len() >= 5 && t.take(5) == "&amp;"@ {
                    assert(t.take(5)[1] == t[1]);
                }
            }
        } else if c == '>' {
            assert(t.take(4) =~= "&gt;"@);
            assert(t.skip(4) =~= r);
            assert(!(t.len() >= 5 && t.take(5) == "&amp;"@)) by {
                if t.len() >= 5 && t.take(5) == "&amp;"@ {
                    assert(t.take(5)[1] == t[1]);
                }
            }
            assert(!(t.len() >= 4 && t.take(4) == "&lt;"@)) by {
                if t.len() >= 4 && t.take(4) == "&lt;"@ {
                    assert(t.take(4)[1] == t[1]);
                }
            }
        } else {
            assert(t[0] == c);
            assert(!(t.len() >= 5 && t.take(5) == "&amp;"@)) by {
                if t.len() >= 5 && t.take(5) == "&amp;"@ {
                    assert(t.take(5)[0] == t[0]);
                }
            }
            assert(!(t.len() >= 4 && t.take(4) == "&lt;"@)) by {
                if t.len() >= 4 && t.take(4) == "&lt;"@ {
                    assert(t.take(4)[0] == t[0]);
                }
            }
            assert(!(t.len() >= 4 && t.take(4) == "&gt;"@)) by {
                if t.len() >= 4 && t.take(4) == "&gt;"@ {
                    assert(t.take(4)[0] == t[0]);
                }
            }
            assert(t.skip(1) =~= r);
        }
        assert(seq![c] + s.skip(1) =~= s);
    }
}

/// A block that a replacement of `tok` passes over unchanged: it does not
/// start an occurrence of `tok`, and `tok`'s first character appears in it
/// at most at its start.
proof fn lemma_block_passes(b: Seq<char>, x: Seq<char>, tok: Seq<char>, rep: Seq<char>)
    requires
        tok.len() >= 2,
        b.len() >= 1,
        forall|i: int| 1 <= i < b.len() ==> b[i] != tok[0],
        b[0] != tok[0] || (b.len() >= 2 && b[1] != tok[1]),
    ensures
        replace_all(b + x, tok, rep) == b + replace_all(x, tok, rep),
    decreases b.len(),
{
    let t = b + x;
    if t.len() < tok.len() {
        assert(replace_all(x, tok, rep) == x);
    } else {
        assert(t.take(tok.len() as int) != tok) by {
            if b[0] != tok[0] {
                assert(t.take(tok.len() as int)[0] == t[0]);
            } else {
                assert(t.take(tok.len() as int)[1] == t[1]);
            }
        }
        assert(t.skip(1) =~= b.skip(1) + x);
        if b.len() == 1 {
            assert(b.skip(1) + x =~= x);
            assert(seq![t[0]] + replace_all(x, tok, rep) =~= b + replace_all(x, tok, rep));
        } else {
            lemma_block_passes(b.skip(1), x, tok, rep);
            assert(seq![t[0]] + (b.skip(1) + replace_all(x, tok, rep)) =~= b + replace_all(x, tok, rep));
        }
    }
}

/// An occurrence of `tok` at the front is replaced.
proof fn lemma_block_replaced(x: Seq<char>, tok: Seq<char>, rep: Seq<char>)
    requires
        tok.len() > 0,
    ensures
        replace_all(tok + x, tok, rep) == rep + replace_all(x, tok, rep),
{
    let t = tok + x;
    assert(t.take(tok.len() as int) =~= tok);
    assert(t.skip(tok.len() as int) =~= x);
}

/// The escaped text, built from the front.
pub open spec fn escaped_front(s: Seq<char>) -> Seq<char>
    decreases s.len(),
{
    if s.len() == 0 { Seq::empty() } else { xml_escape_char(s[0]) + escaped_front(s.skip(1)) }
}

/// The escaped text after `&lt;` was read back as `<`.
pub open spec fn lt_restored(s: Seq<char>) -> Seq<char>
    decreases s.len(),
{
    if s.len() == 0 { Seq::empty() } else {
        (if s[0] == '<' { seq!['<'] } else { xml_escape_char(s[0]) }) + lt_restored(s.skip(1))
    }
}

/// The escaped text after `&lt;` and `&gt;` were read back.
pub open spec fn angles_restored(s: Seq<char>) -> Seq<char>
    decreases s.len(),
{
    if s.len() == 0 { Seq::empty() } else {
        (if s[0] == '<' || s[0] == '>' { seq![s[0]] } else { xml_escape_char(s[0]) }) + angles_restored(s.skip(1))
    }
}

proof fn lemma_escaped_front(s: Seq<char>)
    ensures
        xml_escaped(s) == escaped_front(s),
    decreases s.len(),
{
    if s.len() == 0 {
        assert(xml_escaped(s) =~= Seq::<char>::empty());
    } else {
        lemma_xml_escaped_cons(s);
        lemma_escaped_front(s.skip(1));
    }
}

proof fn lemma_restore_lt(s: Seq<char>)
    ensures
        replace_all(escaped_front(s), "&lt;"@, "<"@) == lt_restored(s),
    decreases s.len(),
{
    reveal_strlit("&lt;");
    reveal_strlit("&amp;");
    reveal_strlit("&gt;");
    reveal_strlit("<");
    if s.len() > 0 {
        lemma_restore_lt(s.skip(1));
        let x = escaped_front(s.skip(1));
        let c = s[0];
        if c == '<' {
            lemma_block_replaced(x, "&lt;"@, "<"@);
        } else {
            lemma_block_passes(xml_escape_char(c), x, "&lt;"@, "<"@);
        }
    }
}

proof fn lemma_restore_gt(s: Seq<char>)
    ensures
        replace_all(lt_restored(s), "&gt;"@, ">"@) == angles_restored(s),
    decreases s.len(),
{
    reveal_strlit("&lt;");
    reveal_strlit("&amp;");
    reveal_strlit("&gt;");
    reveal_strlit(">");
    if s.len() > 0 {
        lemma_restore_gt(s.skip(1));
        let x = lt_restored(s.skip(1));
        let c = s[0];
        if c == '>' {
            lemma_block_replaced(x, "&gt;"@, ">"@);
        } else if c == '<' {
            lemma_block_passes(seq!['<'], x, "&gt;"@, ">"@);
        } else {
            lemma_block_passes(xml_escape_char(c), x, "&gt;"@, ">"@);
        }
    }
}

proof fn lemma_restore_amp(s: Seq<char>)
    ensures
        replace_all(angles_restored(s), "&amp;"@, "&"@) == s,
    decreases s.len(),
{
    reveal_strlit("&amp;");
    reveal_strlit("&");
    if s.len() == 0 {
        assert(angles_restored(s) =~= Seq::<char>::empty());
        assert(s =~= Seq::<char>::empty());
    } else {
        lemma_restore_amp(s.skip(1));
        let x = angles_restored(s.skip(1));
        let c = s[0];
        if c == '&' {
            lemma_block_replaced(x, "&amp;"@, "&"@);
        } else {
            lemma_block_passes(seq![c], x, "&amp;"@, "&"@);
        }
        assert(seq![c] + s.skip(1) =~= s);
    }
}

/// Reading escaped text back with the three replacements `&lt;` → `<`,
/// `&gt;` → `>`, then `&amp;` → `&` gives the original text: `&` is
/// escaped first, so no entity is escaped twice.
pub proof fn law_xml_escape_replacements_round_trip(s: Seq<char>)
    ensures
        replace_all(replace_all(replace_all(xml_escaped(s), "&lt;"@, "<"@), "&gt;"@, ">"@), "&amp;"@, "&"@) == s,
{
    lemma_escaped_front(s);
    lemma_restore_lt(s);
    lemma_restore_gt(s);
    lemma_restore_amp(s);
}

/// `{home}/.famp/broker.log`.
pub open spec fn log_path_of(home: Seq<char>) -> Seq<char> {
    joined(joined(home, ".famp"@), "broker.log"@)
}

/// `{home}/.famp/broker.log`.
pub fn daemon_log_path(home: &str) -> (r: String)
    ensures
        r@ == log_path_of(home@),
{
    let famp_dir = join_path(home, ".famp");
    join_path(famp_dir.as_str(), "broker.log")
}

/// The LaunchAgent plist for the broker service, given the (escaped)
/// binary and log paths.
pub open spec fn plist_text(bin: Seq<char>, log: Seq<char>) -> Seq<char> {
    "<?xml version=\"1.0\" encoding=\"UTF-8\"?>\n<!DOCTYPE plist PUBLIC \"-//Apple//DTD PLIST 1.0//EN\" \"http://www.apple.com/DTDs/PropertyList-1.0.dtd\">\n<plist version=\"1.0\">\n<dict>\n    <key>Label</key>\n    <string>com.famp.broker</string>\n    <key>ProgramArguments</key>\n    <array>\n        <string>"@
        + bin
        + "</string>\n        <string>broker</string>\n        <string>--no-idle-exit</string>\n    </array>\n    <key>RunAtLoad</key>\n    <true/>\n    <key>KeepAlive</key>\n    <true/>\n    <key>ProcessType</key>\n    <string>Background</string>\n    <key>StandardOutPath</key>\n    <string>"@
        + log
        + "</string>\n    <key>StandardErrorPath</key>\n    <string>"@
        + log
        + "</string>\n</dict>\n</plist>\n"@
}

/// The macOS LaunchAgent plist: label `com.famp.broker`, program arguments
/// `[<famp binary>, broker, --no-idle-exit]`, run at load, kept alive, a
/// background process, both output streams appended to
/// `{home}/.famp/broker.log`. Paths are XML-escaped.
pub fn generate_plist(home: &str, executable: &FampExecutable) -> (r: Result<String, DaemonError>)
    ensures
        r matches Ok(x) && x@ == plist_text(xml_escaped(executable.view_path()), xml_escaped(log_path_of(home@))),
{
    let bin = xml_escape(executable.path());
    let log_raw = daemon_log_path(home);
    let log = xml_escape(log_raw.as_str());
    let mut x = owned("<?xml version=\"1.0\" encoding=\"UTF-8\"?>\n<!DOCTYPE plist PUBLIC \"-//Apple//DTD PLIST 1.0//EN\" \"http://www.apple.com/DTDs/PropertyList-1.0.dtd\">\n<plist version=\"1.0\">\n<dict>\n    <key>Label</key>\n    <string>com.famp.broker</string>\n    <key>ProgramArguments</key>\n    <array>\n        <string>");
    x.append(bin.as_str());
    x.append("</string>\n        <string>broker</string>\n        <string>--no-idle-exit</string>\n    </array>\n    <key>RunAtLoad</key>\n    <true/>\n    <key>KeepAlive</key>\n    <true/>\n    <key>ProcessType</key>\n    <string>Background</string>\n    <key>StandardOutPath</key>\n    <string>");
    x.append(log.as_str());
    x.append("</string>\n    <key>StandardErrorPath</key>\n    <string>");
    x.append(log.as_str());
    x.append("</string>\n</dict>\n</plist>\n");
    Ok(x)
}

/// What writing the generated service file does to the copy on disk.
#[derive(Clone, Copy, Debug, PartialEq, Eq, Structural)]
pub enum ServiceFileOutcome {
    /// No file was there before.
    Created,
    /// Identical to what was already there.
    Unchanged,
    /// Different content.
    Updated,
}

/// Classifies a service-file write without performing it.
pub fn service_file_outcome(existing: Option<&str>, generated: &str) -> (r: ServiceFileOutcome)
    ensures
        r == match existing {
            None => ServiceFileOutcome::Created,
            Some(prev) => if prev@ == generated@ { ServiceFileOutcome::Unchanged } else { ServiceFileOutcome::Updated },
        },
{
    match existing {
        None => ServiceFileOutcome::Created,
        Some(prev) => if str_eq(prev, generated) { ServiceFileOutcome::Unchanged } else { ServiceFileOutcome::Updated },
    }
}

/// True when the on-disk plist and the loaded launchd job have diverged:
/// launchd keeps the arguments it was bootstrapped with, so only a content
/// change under an already-loaded job needs an explicit reload.
pub fn needs_reload_advisory(outcome: ServiceFileOutcome, already_loaded: bool) -> (r: bool)
    ensures
        r == (already_loaded && outcome == ServiceFileOutcome::Updated),
{
    already_loaded && outcome == ServiceFileOutcome::Updated
}

/// The systemd user unit for the broker.
pub open spec fn unit_text(bin: Seq<char>, log: Seq<char>) -> Seq<char> {
    "[Unit]\nDescription=FAMP Local Bus Broker\nAfter=default.target\nStartLimitIntervalSec=1h\nStartLimitBurst=20\n\n[Service]\nExecStart="@
        + bin
        + " broker --no-idle-exit\nRestart=always\nRestartSec=5\nRestartSteps=5\nRestartMaxDelaySec=5min\nMemoryMax=256M\nStandardOutput=append:"@
        + log
        + "\nStandardError=append:"@
        + log
        + "\n\n[Install]\nWantedBy=default.target\n"@
}

pub open spec fn has_ws(s: Seq<char>) -> bool {
    exists|i: int| 0 <= i < s.len() && is_ws(#[trigger] s[i])
}

/// The systemd `--user` unit: `ExecStart=<famp binary> broker --no-idle-exit`,
/// restart with backoff, a start limit and a memory cap, output appended to
/// `{home}/.famp/broker.log`. systemd splits `ExecStart` on whitespace, so a
/// binary or log path containing whitespace is refused, as is a log path
/// that is not UTF-8.
pub fn generate_systemd_unit(home: &PathText, executable: &FampExecutable) -> (r: Result<String, DaemonError>)
    ensures
        !home.utf8 ==> r == Err::<String, DaemonError>(DaemonError::LogPathNonUtf8 { home: home.text }),
        home.utf8 && has_ws(executable.view_path()) ==> (r matches Err(DaemonError::UnitPathHasWhitespace(p)) && p@ == executable.view_path()),
        home.utf8 && !has_ws(executable.view_path()) && has_ws(log_path_of(home.text@))
            ==> (r matches Err(DaemonError::UnitPathHasWhitespace(p)) && p@ == log_path_of(home.text@)),
        home.utf8 && !has_ws(executable.view_path()) && !has_ws(log_path_of(home.text@))
            ==> (r matches Ok(x) && x@ == unit_text(executable.view_path(), log_path_of(home.text@))),
{
    let famp_bin = executable.utf8();
    if !home.utf8 {
        return Err(DaemonError::LogPathNonUtf8 { home: home.text.clone() });
    }
    let log = daemon_log_path(home.text.as_str());
    if has_whitespace(famp_bin) {
        return Err(DaemonError::UnitPathHasWhitespace(owned(famp_bin)));
    }
    if has_whitespace(log.as_str()) {
        return Err(DaemonError::UnitPathHasWhitespace(log));
    }
    let mut x = owned("[Unit]\nDescription=FAMP Local Bus Broker\nAfter=default.target\nStartLimitIntervalSec=1h\nStartLimitBurst=20\n\n[Service]\nExecStart=");
    x.append(famp_bin);
    x.append(" broker --no-idle-exit\nRestart=always\nRestartSec=5\nRestartSteps=5\nRestartMaxDelaySec=5min\nMemoryMax=256M\nStandardOutput=append:");
    x.append(log.as_str());
    x.append("\nStandardError=append:");
    x.append(log.as_str());
    x.append("\n\n[Install]\nWantedBy=default.target\n");
    Ok(x)
}

/// `{home}/Library/LaunchAgents/com.famp.broker.plist`.
pub open spec fn plist_path_of(home: Seq<char>) -> Seq<char> {
    joined(joined(joined(home, "Library"@), "LaunchAgents"@), "com.famp.broker.plist"@)
}

/// Where the LaunchAgent plist lives.
pub fn plist_path(home: &str) -> (r: String)
    ensures
        r@ == plist_path_of(home@),
{
    let a = join_path(home, "Library");
    let b = join_path(a.as_str(), "LaunchAgents");
    join_path(b.as_str(), "com.famp.broker.plist")
}

/// `{home}/.config/systemd/user/famp-broker.service`.
pub open spec fn unit_path_of(home: Seq<char>) -> Seq<char> {
    joined(joined(joined(joined(home, ".config"@), "systemd"@), "user"@), "famp-broker.service"@)
}

/// Where the systemd user unit lives.
pub fn unit_path(home: &str) -> (r: String)
    ensures
        r@ == unit_path_of(home@),
{
    let a = join_path(home, ".config");
    let b = join_path(a.as_str(), "systemd");
    let c = join_path(b.as_str(), "user");
    join_path(c.as_str(), "famp-broker.service")
}

/// The outcome of a `systemctl --user` step, from its exit status.
pub fn systemctl_step(success: bool, code: Option<i32>) -> (r: Result<(), DaemonError>)
    ensures
        success ==> r is Ok,
        !success ==> r == Err::<(), DaemonError>(DaemonError::SystemctlFailed(match code { Some(c) => c, None => -1i32 })),
{
    if success {
        Ok(())
    } else {
        Err(DaemonError::SystemctlFailed(match code { Some(c) => c, None => -1 }))
    }
}

/// The note printed after a Linux install when linger is off; nothing when
/// it is on. The command to enable it is printed, never run.
pub fn linger_note(user: &str, linger_enabled: bool) -> (r: Vec<String>)
    ensures
        linger_enabled ==> r@.len() == 0,
        !linger_enabled ==> r@.len() == 4
            && r@[0]@ == "\nNote: linger is not enabled for user '"@ + user@ + "'."@
            && r@[1]@ == "The broker will stop when you log out. To keep it running across logouts, run:"@
            && r@[2]@ == "  loginctl enable-linger "@ + user@
            && r@[3]@ == "(This changes a system policy and is intentionally not run automatically.)"@,
{
    let mut out: Vec<String> = Vec::new();
    if !linger_enabled {
        let mut a = owned("\nNote: linger is not enabled for user '");
        a.append(user);
        a.append("'.");
        out.push(a);
        out.push(owned("The broker will stop when you log out. To keep it running across logouts, run:"));
        let mut c = owned("  loginctl enable-linger ");
        c.append(user);
        out.push(c);
        out.push(owned("(This changes a system policy and is intentionally not run automatically.)"));
    }
    out
}

} // verus!
