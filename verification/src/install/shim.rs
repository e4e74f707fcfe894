//! The hook scripts' single template token: `@FAMP_BIN@` is replaced by the
//! resolved FAMP executable, quoted as one POSIX shell word.

use vstd::prelude::*;
use crate::executable::{posix_shell_literal, shell_literal};
use crate::text::{chars_of, matches_at, occurs_at, push_char};

verus! {

/// `s` with every occurrence of `tok`, left to right and not overlapping,
/// replaced by `rep` (`str::replace`).
pub open spec fn replace_all(s: Seq<char>, tok: Seq<char>, rep: Seq<char>) -> Seq<char>
    decreases s.len(),
{
    if tok.len() == 0 || s.len() < tok.len() {
        s
    } else if s.take(tok.len() as int) == tok {
        rep + replace_all(s.skip(tok.len() as int), tok, rep)
    } else {
        seq![s[0]] + replace_all(s.skip(1), tok, rep)
    }
}

/// The token the hook templates carry.
pub open spec fn famp_bin_token() -> Seq<char> {
    "@FAMP_BIN@"@
}

/// Replaces every occurrence of `tok` in `s` by `rep`.
pub fn replace_text(s: &str, tok: &str, rep: &str) -> (r: String)
    requires
        tok@.len() > 0,
    ensures
        r@ == replace_all(s@, tok@, rep@),
{
    let v = chars_of(s);
    let t = chars_of(tok);
    let ghost sv = s@;
    let mut out = String::new();
    let mut i: usize = 0;
    proof {
        assert(sv.skip(0) =~= sv);
        assert(out@ + replace_all(sv, t@, rep@) =~= replace_all(sv, t@, rep@));
    }
    while i < v.len()
        invariant
            v@ == sv,
            t@ == tok@,
            t@.len() > 0,
            i <= v@.len(),
            out@ + replace_all(sv.skip(i as int), t@, rep@) == replace_all(sv, t@, rep@),
        decreases v@.len() - i,
    {
        let ghost rest = sv.skip(i as int);
        if matches_at(&v, &t, i) {
            proof {
                assert(rest.take(t@.len() as int) =~= sv.subrange(i as int, i + t@.len()));
                assert(rest.skip(t@.len() as int) =~= sv.skip(i + t@.len()));
                assert(out@ + rep@ + replace_all(sv.skip(i + t@.len()), t@, rep@) =~= out@ + replace_all(rest, t@, rep@));
            }
            out.append(rep);
            i = i + t.len();
        } else {
            proof {
                if rest.len() >= t@.len() {
                    assert(rest.take(t@.len() as int) =~= sv.subrange(i as int, i + t@.len()));
                    assert(!occurs_at(sv, t@, i as int));
                    assert(rest.take(t@.len() as int) != t@);
                    assert(rest.skip(1) =~= sv.skip(i + 1));
                    assert(out@.push(v@[i as int]) + replace_all(sv.skip(i + 1), t@, rep@) =~= out@ + replace_all(rest, t@, rep@));
                } else {
                    assert(replace_all(rest, t@, rep@) == rest);
                    assert(rest.skip(1) =~= sv.skip(i + 1));
                    assert(replace_all(sv.skip(i + 1), t@, rep@) == sv.skip(i + 1));
                    assert(rest =~= seq![v@[i as int]] + sv.skip(i + 1));
                    assert(out@.push(v@[i as int]) + sv.skip(i + 1) =~= out@ + rest);
                }
            }
            push_char(&mut out, v[i]);
            i += 1;
        }
    }
    proof {
        assert(sv.skip(v@.len() as int) =~= Seq::<char>::empty());
        assert(out@ + Seq::<char>::empty() =~= out@);
    }
    out
}

/// A hook template with the FAMP executable filled in, quoted so that no
/// character of the path is interpreted by the shell.
pub fn render_hook_template(template: &str, famp_bin: &str) -> (r: String)
    ensures
        r@ == replace_all(template@, famp_bin_token(), shell_literal(famp_bin@)),
{
    let quoted = posix_shell_literal(famp_bin);
    proof {
        reveal_strlit("@FAMP_BIN@");
    }
    replace_text(template, "@FAMP_BIN@", quoted.as_str())
}

} // verus!
