//! Verified character-level helpers over `str`/`String` that the rest of the
//! library builds on: trimming, tokenizing, line splitting, substring search
//! and decimal rendering, each specified over `Seq<char>`.

use vstd::prelude::*;

verus! {

/// Appends one character to a `String` (`String::push`).
#[verifier::external_body]
pub(crate) fn push_char(s: &mut String, c: char)
    ensures
        final(s)@ == old(s)@.push(c),
{
    s.push(c);
}

/// The characters of `s`, in order.
pub fn chars_of(s: &str) -> (v: Vec<char>)
    ensures
        v@ == s@,
{
    let mut v: Vec<char> = Vec::new();
    for c in it: s.chars()
        invariant
            it.seq() == s@,
            v@ == s@.take(it.index() as int),
    {
        v.push(c);
        proof {
            assert(s@.take(it.index() as int + 1) =~= s@.take(it.index() as int).push(c));
        }
    }
    proof {
        assert(s@.take(s@.len() as int) =~= s@);
    }
    v
}

/// Builds a `String` holding exactly the characters `v[from..to]`.
pub fn string_of_range(v: &Vec<char>, from: usize, to: usize) -> (s: String)
    requires
        from <= to <= v@.len(),
    ensures
        s@ == v@.subrange(from as int, to as int),
{
    let mut s = String::new();
    let mut i = from;
    while i < to
        invariant
            from <= i <= to <= v@.len(),
            s@ == v@.subrange(from as int, i as int),
        decreases to - i,
    {
        push_char(&mut s, v[i]);
        proof {
            assert(v@.subrange(from as int, i as int + 1) =~= v@.subrange(from as int, i as int).push(v@[i as int]));
        }
        i += 1;
    }
    s
}

/// Builds a `String` holding exactly the characters of `v`.
pub fn string_of(v: &Vec<char>) -> (s: String)
    ensures
        s@ == v@,
{
    let s = string_of_range(v, 0, v.len());
    proof {
        assert(v@.subrange(0, v@.len() as int) =~= v@);
    }
    s
}

/// Copies a string slice into an owned `String`.
pub fn owned(s: &str) -> (r: String)
    ensures
        r@ == s@,
{
    String::from_str(s)
}

/// String equality by content.
pub fn str_eq(a: &str, b: &str) -> (r: bool)
    ensures
        r == (a@ == b@),
{
    let x = chars_of(a);
    let y = chars_of(b);
    if x.len() != y.len() {
        return false;
    }
    let mut i: usize = 0;
    while i < x.len()
        invariant
            i <= x@.len(),
            x@.len() == y@.len(),
            x@ == a@,
            y@ == b@,
            forall|k: int| 0 <= k < i ==> x@[k] == y@[k],
        decreases x@.len() - i,
    {
        if x[i] != y[i] {
            return false;
        }
        i += 1;
    }
    proof {
        assert(x@ =~= y@);
    }
    true
}

/// `s` begins with `p`.
pub open spec fn seq_starts_with(s: Seq<char>, p: Seq<char>) -> bool {
    p.len() <= s.len() && s.subrange(0, p.len() as int) == p
}

/// `s` ends with `p`.
pub open spec fn seq_ends_with(s: Seq<char>, p: Seq<char>) -> bool {
    p.len() <= s.len() && s.subrange(s.len() - p.len(), s.len() as int) == p
}

/// `sub` occurs in `s` starting at position `i`.
pub open spec fn occurs_at(s: Seq<char>, sub: Seq<char>, i: int) -> bool {
    0 <= i && i + sub.len() <= s.len() && s.subrange(i, i + sub.len()) == sub
}

/// `sub` occurs somewhere in `s`.
pub open spec fn seq_contains(s: Seq<char>, sub: Seq<char>) -> bool {
    exists|i: int| occurs_at(s, sub, i)
}

/// `v[at..]` begins with `p`.
pub(crate) fn matches_at(v: &Vec<char>, p: &Vec<char>, at: usize) -> (r: bool)
    requires
        at <= v@.len(),
    ensures
        r == occurs_at(v@, p@, at as int),
{
    let vl = v.len();
    if p.len() > vl - at {
        return false;
    }
    let mut k: usize = 0;
    while k < p.len()
        invariant
            k <= p@.len(),
            at <= v@.len(),
            vl == v@.len(),
            at + p@.len() <= v@.len(),
            forall|j: int| 0 <= j < k ==> v@[at + j] == p@[j],
        decreases p@.len() - k,
    {
        if v[at + k] != p[k] {
            proof {
                assert(v@.subrange(at as int, at + p@.len())[k as int] != p@[k as int]);
            }
            return false;
        }
        k += 1;
    }
    proof {
        assert(v@.subrange(at as int, at + p@.len()) =~= p@);
    }
    true
}

/// `s.starts_with(p)`.
pub fn starts_with(s: &str, p: &str) -> (r: bool)
    ensures
        r == seq_starts_with(s@, p@),
{
    let v = chars_of(s);
    let q = chars_of(p);
    matches_at(&v, &q, 0)
}

/// `s.ends_with(p)`.
pub fn ends_with(s: &str, p: &str) -> (r: bool)
    ensures
        r == seq_ends_with(s@, p@),
{
    let v = chars_of(s);
    let q = chars_of(p);
    if q.len() > v.len() {
        return false;
    }
    matches_at(&v, &q, v.len() - q.len())
}

/// `s.contains(sub)`.
pub fn contains(s: &str, sub: &str) -> (r: bool)
    ensures
        r == seq_contains(s@, sub@),
{
    let v = chars_of(s);
    let q = chars_of(sub);
    if q.len() > v.len() {
        return false;
    }
    let last = v.len() - q.len();
    let mut i: usize = 0;
    loop
        invariant
            q@.len() <= v@.len(),
            last == v@.len() - q@.len(),
            i <= last,
            v@ == s@,
            q@ == sub@,
            forall|j: int| 0 <= j < i ==> !occurs_at(s@, sub@, j),
        decreases last - i,
    {
        if matches_at(&v, &q, i) {
            return true;
        }
        if i == last {
            proof {
                assert forall|j: int| !occurs_at(s@, sub@, j) by {
                    if 0 <= j < i {
                    } else if j == i {
                    } else {
                    }
                }
            }
            return false;
        }
        i += 1;
    }
}

/// Unicode `White_Space`, exactly the set `char::is_whitespace` accepts.
pub open spec fn is_ws(c: char) -> bool {
    ||| c == '\t'
    ||| c == '\n'
    ||| c == '\u{0B}'
    ||| c == '\u{0C}'
    ||| c == '\r'
    ||| c == ' '
    ||| c == '\u{85}'
    ||| c == '\u{A0}'
    ||| c == '\u{1680}'
    ||| ('\u{2000}' <= c && c <= '\u{200A}')
    ||| c == '\u{2028}'
    ||| c == '\u{2029}'
    ||| c == '\u{202F}'
    ||| c == '\u{205F}'
    ||| c == '\u{3000}'
}

/// `char::is_whitespace`.
pub fn char_is_ws(c: char) -> (r: bool)
    ensures
        r == is_ws(c),
{
    c == '\t' || c == '\n' || c == '\u{0B}' || c == '\u{0C}' || c == '\r' || c == ' '
        || c == '\u{85}' || c == '\u{A0}' || c == '\u{1680}'
        || ('\u{2000}' <= c && c <= '\u{200A}') || c == '\u{2028}' || c == '\u{2029}'
        || c == '\u{202F}' || c == '\u{205F}' || c == '\u{3000}'
}

/// A quote character as stripped by `trim_matches(['\'', '"'])`.
pub open spec fn is_quote(c: char) -> bool {
    c == '\'' || c == '"'
}

/// Which characters a trim removes.
#[derive(Debug)]
pub enum TrimClass {
    Whitespace,
    Quotes,
}

pub open spec fn in_class(class: TrimClass, c: char) -> bool {
    match class {
        TrimClass::Whitespace => is_ws(c),
        TrimClass::Quotes => is_quote(c),
    }
}

fn char_in_class(class: &TrimClass, c: char) -> (r: bool)
    ensures
        r == in_class(*class, c),
{
    match class {
        TrimClass::Whitespace => char_is_ws(c),
        TrimClass::Quotes => c == '\'' || c == '"',
    }
}

/// `s` with leading characters of `class` removed.
pub open spec fn trim_start_by(s: Seq<char>, class: TrimClass) -> Seq<char>
    decreases s.len(),
{
    if s.len() > 0 && in_class(class, s[0]) {
        trim_start_by(s.drop_first(), class)
    } else {
        s
    }
}

/// `s` with trailing characters of `class` removed.
pub open spec fn trim_end_by(s: Seq<char>, class: TrimClass) -> Seq<char>
    decreases s.len(),
{
    if s.len() > 0 && in_class(class, s.last()) {
        trim_end_by(s.drop_last(), class)
    } else {
        s
    }
}

/// `s` with leading and trailing characters of `class` removed.
pub open spec fn trim_by(s: Seq<char>, class: TrimClass) -> Seq<char> {
    trim_end_by(trim_start_by(s, class), class)
}

/// `str::trim`.
pub open spec fn trim_ws(s: Seq<char>) -> Seq<char> {
    trim_by(s, TrimClass::Whitespace)
}

proof fn lemma_trim_start_step(s: Seq<char>, i: int, class: TrimClass)
    requires
        0 <= i < s.len(),
        in_class(class, s[i]),
    ensures
        trim_start_by(s.subrange(i, s.len() as int), class) == trim_start_by(s.subrange(i + 1, s.len() as int), class),
{
    assert(s.subrange(i, s.len() as int).drop_first() =~= s.subrange(i + 1, s.len() as int));
}

proof fn lemma_trim_end_step(s: Seq<char>, j: int, class: TrimClass)
    requires
        0 < j <= s.len(),
        in_class(class, s[j - 1]),
    ensures
        trim_end_by(s.subrange(0, j), class) == trim_end_by(s.subrange(0, j - 1), class),
{
    assert(s.subrange(0, j).drop_last() =~= s.subrange(0, j - 1));
}

/// Removes leading and trailing characters of `class` from `v[..]`,
/// returning the bounds of what remains.
fn trim_bounds(v: &Vec<char>, class: &TrimClass) -> (r: (usize, usize))
    ensures
        r.0 <= r.1 <= v@.len(),
        v@.subrange(r.0 as int, r.1 as int) == trim_by(v@, *class),
{
    let mut i: usize = 0;
    proof {
        assert(v@.subrange(0, v@.len() as int) =~= v@);
    }
    while i < v.len() && char_in_class(class, v[i])
        invariant
            i <= v@.len(),
            trim_start_by(v@, *class) == trim_start_by(v@.subrange(i as int, v@.len() as int), *class),
        decreases v@.len() - i,
    {
        proof {
            lemma_trim_start_step(v@, i as int, *class);
        }
        i += 1;
    }
    let ghost rest = v@.subrange(i as int, v@.len() as int);
    proof {
        assert(trim_start_by(rest, *class) == rest);
        assert(v@.subrange(0, v@.len() as int) =~= v@);
    }
    let mut j: usize = v.len();
    while j > i && char_in_class(class, v[j - 1])
        invariant
            i <= j <= v@.len(),
            rest == v@.subrange(i as int, v@.len() as int),
            trim_end_by(rest, *class) == trim_end_by(v@.subrange(i as int, j as int), *class),
        decreases j,
    {
        proof {
            let w = v@.subrange(i as int, j as int);
            assert(w.drop_last() =~= v@.subrange(i as int, j - 1));
        }
        j -= 1;
    }
    proof {
        let w = v@.subrange(i as int, j as int);
        assert(trim_end_by(w, *class) == w);
    }
    (i, j)
}

/// `s.trim()`: leading and trailing Unicode whitespace removed.
pub fn trim(s: &str) -> (r: String)
    ensures
        r@ == trim_ws(s@),
{
    let v = chars_of(s);
    let (a, b) = trim_bounds(&v, &TrimClass::Whitespace);
    string_of_range(&v, a, b)
}

/// `s.trim_matches(['\'', '"'])`: leading and trailing quote characters removed.
pub fn trim_quotes(s: &str) -> (r: String)
    ensures
        r@ == trim_by(s@, TrimClass::Quotes),
{
    let v = chars_of(s);
    let (a, b) = trim_bounds(&v, &TrimClass::Quotes);
    string_of_range(&v, a, b)
}

/// `s.trim_end()`.
pub fn trim_end(s: &str) -> (r: String)
    ensures
        r@ == trim_end_by(s@, TrimClass::Whitespace),
{
    let v = chars_of(s);
    let mut j: usize = v.len();
    proof {
        assert(v@.subrange(0, v@.len() as int) =~= v@);
    }
    while j > 0 && char_is_ws(v[j - 1])
        invariant
            j <= v@.len(),
            v@ == s@,
            trim_end_by(v@, TrimClass::Whitespace) == trim_end_by(v@.subrange(0, j as int), TrimClass::Whitespace),
        decreases j,
    {
        proof {
            lemma_trim_end_step(v@, j as int, TrimClass::Whitespace);
        }
        j -= 1;
    }
    string_of_range(&v, 0, j)
}

/// True when some character of `s` is whitespace.
pub fn has_whitespace(s: &str) -> (r: bool)
    ensures
        r == exists|i: int| 0 <= i < s@.len() && is_ws(#[trigger] s@[i]),
{
    let v = chars_of(s);
    let mut i: usize = 0;
    while i < v.len()
        invariant
            i <= v@.len(),
            v@ == s@,
            forall|k: int| 0 <= k < i ==> !is_ws(#[trigger] v@[k]),
        decreases v@.len() - i,
    {
        if char_is_ws(v[i]) {
            return true;
        }
        i += 1;
    }
    false
}

/// The state of a left-to-right whitespace tokenizer after reading `s`:
/// the finished words and the word in progress.
pub open spec fn words_state(s: Seq<char>) -> (Seq<Seq<char>>, Seq<char>)
    decreases s.len(),
{
    if s.len() == 0 {
        (Seq::empty(), Seq::empty())
    } else {
        let (done, cur) = words_state(s.drop_last());
        if is_ws(s.last()) {
            if cur.len() > 0 { (done.push(cur), Seq::empty()) } else { (done, Seq::empty()) }
        } else {
            (done, cur.push(s.last()))
        }
    }
}

/// `str::split_whitespace`: the maximal runs of non-whitespace characters.
pub open spec fn words(s: Seq<char>) -> Seq<Seq<char>> {
    let (done, cur) = words_state(s);
    if cur.len() > 0 { done.push(cur) } else { done }
}

/// `s.split_whitespace()` collected.
pub fn split_whitespace(s: &str) -> (r: Vec<String>)
    ensures
        r@.len() == words(s@).len(),
        forall|i: int| 0 <= i < r@.len() ==> #[trigger] r@[i]@ == words(s@)[i],
{
    let v = chars_of(s);
    let mut done: Vec<String> = Vec::new();
    let mut cur: Vec<char> = Vec::new();
    let mut i: usize = 0;
    while i < v.len()
        invariant
            i <= v@.len(),
            v@ == s@,
            words_state(v@.take(i as int)).1 == cur@,
            done@.len() == words_state(v@.take(i as int)).0.len(),
            forall|k: int| 0 <= k < done@.len() ==> #[trigger] done@[k]@ == words_state(v@.take(i as int)).0[k],
        decreases v@.len() - i,
    {
        let c = v[i];
        proof {
            assert(v@.take(i as int + 1).drop_last() =~= v@.take(i as int));
        }
        if char_is_ws(c) {
            if cur.len() > 0 {
                let w = string_of(&cur);
                done.push(w);
                cur = Vec::new();
            } else {
                cur = Vec::new();
            }
        } else {
            cur.push(c);
        }
        i += 1;
    }
    proof {
        assert(v@.take(v@.len() as int) =~= v@);
    }
    if cur.len() > 0 {
        let w = string_of(&cur);
        done.push(w);
    }
    done
}

/// The state of a tokenizer splitting on `sep` after reading `s`: the
/// finished pieces and the piece in progress.
pub open spec fn words_by_state(s: Seq<char>, sep: char) -> (Seq<Seq<char>>, Seq<char>)
    decreases s.len(),
{
    if s.len() == 0 {
        (Seq::empty(), Seq::empty())
    } else {
        let (done, cur) = words_by_state(s.drop_last(), sep);
        if s.last() == sep {
            if cur.len() > 0 { (done.push(cur), Seq::empty()) } else { (done, Seq::empty()) }
        } else {
            (done, cur.push(s.last()))
        }
    }
}

/// `s.split(sep)` with the empty pieces dropped.
pub open spec fn words_by(s: Seq<char>, sep: char) -> Seq<Seq<char>> {
    let (done, cur) = words_by_state(s, sep);
    if cur.len() > 0 { done.push(cur) } else { done }
}

/// `s.split(sep).filter(|p| !p.is_empty())` collected.
pub fn split_by(s: &str, sep: char) -> (r: Vec<String>)
    ensures
        r@.len() == words_by(s@, sep).len(),
        forall|i: int| 0 <= i < r@.len() ==> #[trigger] r@[i]@ == words_by(s@, sep)[i],
{
    let v = chars_of(s);
    let mut done: Vec<String> = Vec::new();
    let mut cur: Vec<char> = Vec::new();
    let mut i: usize = 0;
    while i < v.len()
        invariant
            i <= v@.len(),
            v@ == s@,
            words_by_state(v@.take(i as int), sep).1 == cur@,
            done@.len() == words_by_state(v@.take(i as int), sep).0.len(),
            forall|k: int| 0 <= k < done@.len() ==> #[trigger] done@[k]@ == words_by_state(v@.take(i as int), sep).0[k],
        decreases v@.len() - i,
    {
        let c = v[i];
        proof {
            assert(v@.take(i as int + 1).drop_last() =~= v@.take(i as int));
        }
        if c == sep {
            if cur.len() > 0 {
                let w = string_of(&cur);
                done.push(w);
                cur = Vec::new();
            } else {
                cur = Vec::new();
            }
        } else {
            cur.push(c);
        }
        i += 1;
    }
    proof {
        assert(v@.take(v@.len() as int) =~= v@);
    }
    if cur.len() > 0 {
        let w = string_of(&cur);
        done.push(w);
    }
    done
}

/// The state of a left-to-right line splitter after reading `s`.
pub open spec fn lines_state(s: Seq<char>) -> (Seq<Seq<char>>, Seq<char>)
    decreases s.len(),
{
    if s.len() == 0 {
        (Seq::empty(), Seq::empty())
    } else {
        let (done, cur) = lines_state(s.drop_last());
        if s.last() == '\n' {
            (done.push(strip_cr(cur)), Seq::empty())
        } else {
            (done, cur.push(s.last()))
        }
    }
}

/// A line's `\r` before its terminating `\n` is not part of the line.
pub open spec fn strip_cr(line: Seq<char>) -> Seq<char> {
    if line.len() > 0 && line.last() == '\r' { line.drop_last() } else { line }
}

/// `str::lines`: split at `\n` (and `\r\n`); a final unterminated line is
/// kept as is when it is not empty.
pub open spec fn lines(s: Seq<char>) -> Seq<Seq<char>> {
    let (done, cur) = lines_state(s);
    if cur.len() > 0 { done.push(cur) } else { done }
}

/// `s.lines()` collected.
pub fn split_lines(s: &str) -> (r: Vec<String>)
    ensures
        r@.len() == lines(s@).len(),
        forall|i: int| 0 <= i < r@.len() ==> #[trigger] r@[i]@ == lines(s@)[i],
{
    let v = chars_of(s);
    let mut done: Vec<String> = Vec::new();
    let mut cur: Vec<char> = Vec::new();
    let mut i: usize = 0;
    while i < v.len()
        invariant
            i <= v@.len(),
            v@ == s@,
            lines_state(v@.take(i as int)).1 == cur@,
            done@.len() == lines_state(v@.take(i as int)).0.len(),
            forall|k: int| 0 <= k < done@.len() ==> #[trigger] done@[k]@ == lines_state(v@.take(i as int)).0[k],
        decreases v@.len() - i,
    {
        let c = v[i];
        proof {
            assert(v@.take(i as int + 1).drop_last() =~= v@.take(i as int));
        }
        if c == '\n' {
            let n = cur.len();
            let w = if n > 0 && cur[n - 1] == '\r' {
                let w = string_of_range(&cur, 0, n - 1);
                proof {
                    assert(cur@.subrange(0, n - 1) =~= cur@.drop_last());
                }
                w
            } else {
                string_of(&cur)
            };
            done.push(w);
            cur = Vec::new();
        } else {
            cur.push(c);
        }
        i += 1;
    }
    proof {
        assert(v@.take(v@.len() as int) =~= v@);
    }
    if cur.len() > 0 {
        let w = string_of(&cur);
        done.push(w);
    }
    done
}

/// `s` with every `from` character replaced by `to`.
pub open spec fn replace_char(s: Seq<char>, from: char, to: Seq<char>) -> Seq<char>
    decreases s.len(),
{
    if s.len() == 0 {
        Seq::empty()
    } else if s.last() == from {
        replace_char(s.drop_last(), from, to) + to
    } else {
        replace_char(s.drop_last(), from, to).push(s.last())
    }
}

/// `s.replace(from, to)` for a single-character pattern.
pub fn replace_char_with(s: &str, from: char, to: &str) -> (r: String)
    ensures
        r@ == replace_char(s@, from, to@),
{
    let v = chars_of(s);
    let mut out = String::new();
    let mut i: usize = 0;
    while i < v.len()
        invariant
            i <= v@.len(),
            v@ == s@,
            out@ == replace_char(v@.take(i as int), from, to@),
        decreases v@.len() - i,
    {
        proof {
            assert(v@.take(i as int + 1).drop_last() =~= v@.take(i as int));
        }
        if v[i] == from {
            out.append(to);
        } else {
            push_char(&mut out, v[i]);
        }
        i += 1;
    }
    proof {
        assert(v@.take(v@.len() as int) =~= v@);
    }
    out
}

/// The decimal digit for `d < 10`.
pub open spec fn digit_char(d: nat) -> char {
    if d == 0 { '0' } else if d == 1 { '1' } else if d == 2 { '2' } else if d == 3 { '3' }
    else if d == 4 { '4' } else if d == 5 { '5' } else if d == 6 { '6' } else if d == 7 { '7' }
    else if d == 8 { '8' } else { '9' }
}

/// Decimal rendering of `n` without leading zeros (`0` renders as `"0"`).
pub open spec fn decimal(n: nat) -> Seq<char>
    decreases n,
{
    if n < 10 {
        seq![digit_char(n)]
    } else {
        decimal(n / 10).push(digit_char(n % 10))
    }
}

fn digit(d: u64) -> (c: char)
    requires
        d < 10,
    ensures
        c == digit_char(d as nat),
{
    if d == 0 { '0' } else if d == 1 { '1' } else if d == 2 { '2' } else if d == 3 { '3' }
    else if d == 4 { '4' } else if d == 5 { '5' } else if d == 6 { '6' } else if d == 7 { '7' }
    else if d == 8 { '8' } else { '9' }
}

/// `n.to_string()` for unsigned integers.
pub fn u64_to_decimal(n: u64) -> (r: String)
    ensures
        r@ == decimal(n as nat),
    decreases n,
{
    if n < 10 {
        let mut s = String::new();
        push_char(&mut s, digit(n));
        proof {
            assert(s@ =~= seq![digit_char(n as nat)]);
        }
        s
    } else {
        let mut s = u64_to_decimal(n / 10);
        push_char(&mut s, digit(n % 10));
        s
    }
}

} // verus!

verus! {

/// Unicode lowercase mapping of a string, as `str::to_lowercase` computes it.
pub uninterp spec fn lowercase(s: Seq<char>) -> Seq<char>;

/// `str::to_lowercase`; the result is named [`lowercase`].
#[verifier::external_body]
pub fn to_lowercase(s: &str) -> (r: String)
    ensures
        r@ == lowercase(s@),
{
    s.to_lowercase()
}

/// The part of `v` after the first `\n`, when there is one.
pub open spec fn after_first_newline(v: Seq<char>) -> Seq<char>
    decreases v.len(),
{
    if v.len() == 0 {
        v
    } else if v[0] == '\n' {
        v.drop_first()
    } else {
        after_first_newline(v.drop_first())
    }
}

/// Drops everything up to and including the first `\n` (the whole text is
/// kept when it has no `\n`).
pub fn drop_through_first_newline(s: &str) -> (r: String)
    ensures
        r@ == (if seq_contains(s@, seq!['\n']) { after_first_newline(s@) } else { s@ }),
{
    let v = chars_of(s);
    let mut i: usize = 0;
    proof {
        assert(v@.subrange(0, v@.len() as int) =~= v@);
    }
    while i < v.len() && v[i] != '\n'
        invariant
            i <= v@.len(),
            v@ == s@,
            forall|k: int| 0 <= k < i ==> v@[k] != '\n',
            after_first_newline(v@) == after_first_newline(v@.subrange(i as int, v@.len() as int)),
        decreases v@.len() - i,
    {
        proof {
            assert(v@.subrange(i as int, v@.len() as int).drop_first() =~= v@.subrange(i as int + 1, v@.len() as int));
        }
        i += 1;
    }
    if i == v.len() {
        proof {
            assert forall|j: int| !occurs_at(s@, seq!['\n'], j) by {
                if occurs_at(s@, seq!['\n'], j) {
                    assert(s@.subrange(j, j + 1)[0] == '\n');
                }
            }
        }
        owned(s)
    } else {
        proof {
            assert(occurs_at(s@, seq!['\n'], i as int)) by {
                assert(s@.subrange(i as int, i as int + 1) =~= seq!['\n']);
            }
            assert(v@.subrange(i as int, v@.len() as int).drop_first() =~= v@.subrange(i as int + 1, v@.len() as int));
        }
        string_of_range(&v, i + 1, v.len())
    }
}


/// The text of an optional string slice.
pub open spec fn opt_text(s: Option<&str>) -> Option<Seq<char>> {
    match s {
        Some(t) => Some(t@),
        None => None,
    }
}


/// `Path::join` of a relative path `rel` onto `base`: a `/` goes between
/// them unless `base` is empty or already ends with one.
pub open spec fn joined(base: Seq<char>, rel: Seq<char>) -> Seq<char> {
    if base.len() == 0 {
        rel
    } else if base.last() == '/' {
        base + rel
    } else {
        base.push('/') + rel
    }
}

/// `Path::new(base).join(rel)` for a relative `rel`, as text.
pub fn join_path(base: &str, rel: &str) -> (r: String)
    ensures
        r@ == joined(base@, rel@),
{
    let c = chars_of(base);
    let mut text = owned(base);
    if c.len() > 0 && c[c.len() - 1] != '/' {
        push_char(&mut text, '/');
    }
    text.append(rel);
    text
}


/// Decimal rendering of a signed integer, with a leading `-` when negative.
pub open spec fn signed_decimal(n: int) -> Seq<char> {
    if n < 0 { seq!['-'] + decimal((-n) as nat) } else { decimal(n as nat) }
}

/// `n.to_string()` for signed integers.
pub fn i64_to_decimal(n: i64) -> (r: String)
    ensures
        r@ == signed_decimal(n as int),
{
    if n < 0 {
        let m: u64 = if n == i64::MIN { 9_223_372_036_854_775_808u64 } else { (-n) as u64 };
        let mut s = String::new();
        push_char(&mut s, '-');
        let d = u64_to_decimal(m);
        s.append(d.as_str());
        proof {
            assert(s@ =~= seq!['-'] + decimal((-(n as int)) as nat));
        }
        s
    } else {
        u64_to_decimal(n as u64)
    }
}

} // verus!
