//! Durations given on the command line or in the environment (`30s`,
//! `5m`, `250ms`, …), read with `humantime`.

use vstd::prelude::*;
use crate::text::{chars_of, decimal, digit_char, owned};

verus! {

/// What `humantime::parse_duration` reads `text` as: whole seconds and
/// nanoseconds; `None` when it rejects the text.
pub uninterp spec fn humantime_duration(text: Seq<char>) -> Option<(u64, u32)>;

pub open spec fn is_ascii_digit(c: char) -> bool {
    '0' <= c <= '9'
}

/// A character that ends the digits of a number: a unit letter or the
/// decimal point.
pub open spec fn ends_number(c: char) -> bool {
    ('a' <= c <= 'z') || ('A' <= c <= 'Z') || c == '.' || c == 'µ'
}

/// The most seconds one unit can stand for, by the first character after a
/// number: `n`, `u`, `µ` and `s` start the nanosecond to second units;
/// `m` starts milliseconds, minutes and months (30.44 days), `M` months,
/// `h` hours, `d` days, `w` weeks; anything else (`y` for years, the
/// decimal point, an unknown unit) is taken as a year of 365.25 days.
pub open spec fn unit_bound(c: char) -> int {
    if c == 'n' || c == 'u' || c == 'µ' || c == 's' {
        1
    } else if c == 'h' {
        3600
    } else if c == 'd' {
        86_400
    } else if c == 'w' {
        604_800
    } else if c == 'm' || c == 'M' {
        2_630_016
    } else {
        31_557_600
    }
}

/// Scans the numbers of a duration text: the bound so far over finished
/// numbers, (value + 1) times the bound of the character that ended each,
/// the value of the number being read, and whether one is being read.
/// Digits separated only by characters that do not end a number are read
/// as one number.
pub open spec fn number_scan(s: Seq<char>) -> (int, int, bool)
    decreases s.len(),
{
    if s.len() == 0 {
        (0, 0, false)
    } else {
        let (acc, cur, open) = number_scan(s.drop_last());
        let c = s.last();
        if is_ascii_digit(c) {
            (acc, cur * 10 + (c as int - '0' as int), true)
        } else if ends_number(c) {
            if open { (acc + (cur + 1) * unit_bound(c), 0, false) } else { (acc, 0, false) }
        } else {
            (acc, cur, open)
        }
    }
}

/// An upper bound on the seconds `humantime` can total for `s`: each
/// number adds at most (value + 1) of the largest unit its following
/// character can start (a number at the very end adds nothing, as it has
/// no unit; it is counted once). A text whose weight is at most
/// `u64::MAX` never totals `u64::MAX` seconds before a carry.
pub open spec fn number_weight(s: Seq<char>) -> int {
    let (acc, cur, open) = number_scan(s);
    acc + if open { cur + 1 } else { 0 }
}

proof fn lemma_scan_shape(s: Seq<char>)
    ensures
        number_scan(s).0 >= 0,
        number_scan(s).1 >= 0,
        !number_scan(s).2 ==> number_scan(s).1 == 0,
        number_weight(s.drop_last()) <= number_weight(s) || s.len() == 0,
    decreases s.len(),
{
    if s.len() > 0 {
        lemma_scan_shape(s.drop_last());
        let (acc, cur, open) = number_scan(s.drop_last());
        let c = s.last();
        if is_ascii_digit(c) {
            assert(cur * 10 + (c as int - '0' as int) >= cur) by (nonlinear_arith)
                requires cur >= 0, '0' <= c;
        } else if ends_number(c) {
            let m = unit_bound(c);
            assert((cur + 1) * m >= cur + 1) by (nonlinear_arith)
                requires cur >= 0, m >= 1;
        }
    }
}

proof fn lemma_weight_prefix(s: Seq<char>, k: int)
    requires
        0 <= k <= s.len(),
    ensures
        number_weight(s.take(k)) <= number_weight(s),
    decreases s.len() - k,
{
    if k == s.len() {
        assert(s.take(k) =~= s);
    } else {
        lemma_weight_prefix(s, k + 1);
        assert(s.take(k + 1).drop_last() =~= s.take(k));
        lemma_scan_shape(s.take(k + 1));
    }
}

fn unit_bound_of(c: char) -> (r: u64)
    ensures
        r == unit_bound(c),
{
    if c == 'n' || c == 'u' || c == 'µ' || c == 's' {
        1
    } else if c == 'h' {
        3600
    } else if c == 'd' {
        86_400
    } else if c == 'w' {
        604_800
    } else if c == 'm' || c == 'M' {
        2_630_016
    } else {
        31_557_600
    }
}

/// Whether `text` weighs at most `u64::MAX`.
pub fn duration_in_range(text: &str) -> (r: bool)
    ensures
        r == (number_weight(text@) <= u64::MAX),
{
    let v = chars_of(text);
    let mut acc: u64 = 0;
    let mut cur: u64 = 0;
    let mut open = false;
    let mut i: usize = 0;
    proof {
        assert(v@.take(0) =~= Seq::<char>::empty());
    }
    while i < v.len()
        invariant
            i <= v@.len(),
            v@ == text@,
            number_scan(v@.take(i as int)) == (acc as int, cur as int, open),
            number_weight(v@.take(i as int)) <= u64::MAX,
        decreases v@.len() - i,
    {
        proof {
            assert(v@.take(i as int + 1).drop_last() =~= v@.take(i as int));
            lemma_scan_shape(v@.take(i as int));
        }
        let c = v[i];
        if '0' <= c && c <= '9' {
            let d = (c as u32 - '0' as u32) as u64;
            let next = match cur.checked_mul(10) {
                Some(t) => t.checked_add(d),
                None => None,
            };
            let fits = match next {
                Some(n) => match acc.checked_add(n) {
                    Some(t) => t.checked_add(1),
                    None => None,
                },
                None => None,
            };
            match (next, fits) {
                (Some(n), Some(_)) => {
                    cur = n;
                    open = true;
                },
                _ => {
                    proof {
                        lemma_weight_prefix(v@, i as int + 1);
                    }
                    return false;
                },
            }
        } else if ('a' <= c && c <= 'z') || ('A' <= c && c <= 'Z') || c == '.' || c == 'µ' {
            if open {
                let m = unit_bound_of(c);
                let add = match (cur + 1).checked_mul(m) {
                    Some(t) => acc.checked_add(t),
                    None => None,
                };
                match add {
                    Some(t) => {
                        acc = t;
                    },
                    None => {
                        proof {
                            lemma_weight_prefix(v@, i as int + 1);
                        }
                        return false;
                    },
                }
            }
            cur = 0;
            open = false;
        }
        i += 1;
    }
    proof {
        assert(v@.take(v@.len() as int) =~= v@);
    }
    true
}

proof fn lemma_scan_decimal(n: nat)
    ensures
        number_scan(decimal(n)) == (0int, n as int, true),
    decreases n,
{
    let d = decimal(n);
    if n < 10 {
        assert(d.drop_last() =~= Seq::<char>::empty());
        assert(d.last() == digit_char(n));
        assert(is_ascii_digit(digit_char(n)) && digit_char(n) as int - '0' as int == n);
        assert(number_scan(d.drop_last()) == (0int, 0int, false));
    } else {
        lemma_scan_decimal(n / 10);
        assert(d.drop_last() =~= decimal(n / 10));
        let r = (n % 10) as nat;
        assert(d.last() == digit_char(r));
        assert(is_ascii_digit(digit_char(r)) && digit_char(r) as int - '0' as int == r);
        assert((n / 10) as int * 10 + r == n);
    }
}

proof fn lemma_scan_number_word(n: nat, w: Seq<char>)
    requires
        w.len() >= 1,
        forall|i: int| 0 <= i < w.len() ==> ends_number(#[trigger] w[i]) && !is_ascii_digit(w[i]),
    ensures
        number_scan(decimal(n) + w) == ((n + 1) * unit_bound(w[0]), 0int, false),
    decreases w.len(),
{
    let t = decimal(n) + w;
    assert(t.drop_last() =~= decimal(n) + w.drop_last());
    assert(t.last() == w.last());
    if w.len() == 1 {
        assert(decimal(n) + w.drop_last() =~= decimal(n));
        lemma_scan_decimal(n);
    } else {
        lemma_scan_number_word(n, w.drop_last());
        assert(w.drop_last()[0] == w[0]);
    }
}

/// The seconds each unit of `humantime`'s documented table stands for
/// (sub-second units count 0 whole seconds).
pub open spec fn unit_seconds(w: Seq<char>) -> Option<int> {
    if w == "nanos"@ || w == "nsec"@ || w == "ns"@ || w == "usec"@ || w == "us"@ || w == "µs"@ || w == "millis"@ || w == "msec"@ || w == "ms"@ {
        Some(0)
    } else if w == "seconds"@ || w == "second"@ || w == "secs"@ || w == "sec"@ || w == "s"@ {
        Some(1)
    } else if w == "minutes"@ || w == "minute"@ || w == "min"@ || w == "mins"@ || w == "m"@ {
        Some(60)
    } else if w == "hours"@ || w == "hour"@ || w == "hr"@ || w == "hrs"@ || w == "h"@ {
        Some(3600)
    } else if w == "days"@ || w == "day"@ || w == "d"@ {
        Some(86_400)
    } else if w == "weeks"@ || w == "week"@ || w == "wk"@ || w == "wks"@ || w == "w"@ {
        Some(604_800)
    } else if w == "months"@ || w == "month"@ || w == "M"@ {
        Some(2_630_016)
    } else if w == "years"@ || w == "year"@ || w == "yr"@ || w == "yrs"@ || w == "y"@ {
        Some(31_557_600)
    } else {
        None
    }
}

/// How much a number followed by a unit weighs in the range guard: its
/// value plus one times the seconds the unit really stands for (at least
/// one); only the units whose name starts with `m` (milliseconds, minutes,
/// months) all count as the longest of them, a month. So the guard admits
/// every text whose real total is far below `u64::MAX`: any number below
/// 10^11 with any unit.
pub proof fn law_duration_guard_counts_real_unit_seconds(n: nat, w: Seq<char>)
    requires
        unit_seconds(w) is Some,
    ensures
        w[0] != 'm' ==> number_weight(decimal(n) + w) == (n + 1) * (if unit_seconds(w).unwrap() == 0 { 1 } else { unit_seconds(w).unwrap() }),
        w[0] == 'm' ==> number_weight(decimal(n) + w) == (n + 1) * 2_630_016,
        n < 100_000_000_000 ==> number_weight(decimal(n) + w) <= u64::MAX,
{
    reveal_strlit("nanos");
    reveal_strlit("nsec");
    reveal_strlit("ns");
    reveal_strlit("usec");
    reveal_strlit("us");
    reveal_strlit("µs");
    reveal_strlit("millis");
    reveal_strlit("msec");
    reveal_strlit("ms");
    reveal_strlit("seconds");
    reveal_strlit("second");
    reveal_strlit("secs");
    reveal_strlit("sec");
    reveal_strlit("s");
    reveal_strlit("minutes");
    reveal_strlit("minute");
    reveal_strlit("min");
    reveal_strlit("mins");
    reveal_strlit("m");
    reveal_strlit("hours");
    reveal_strlit("hour");
    reveal_strlit("hr");
    reveal_strlit("hrs");
    reveal_strlit("h");
    reveal_strlit("days");
    reveal_strlit("day");
    reveal_strlit("d");
    reveal_strlit("weeks");
    reveal_strlit("week");
    reveal_strlit("wk");
    reveal_strlit("wks");
    reveal_strlit("w");
    reveal_strlit("months");
    reveal_strlit("month");
    reveal_strlit("M");
    reveal_strlit("years");
    reveal_strlit("year");
    reveal_strlit("yr");
    reveal_strlit("yrs");
    reveal_strlit("y");
    lemma_scan_number_word(n, w);
    assert(number_weight(decimal(n) + w) <= (n + 1) * 31_557_600) by (nonlinear_arith)
        requires
            number_weight(decimal(n) + w) == (n + 1) * unit_bound(w[0]),
            1 <= unit_bound(w[0]) <= 31_557_600;
    if n < 100_000_000_000 {
        assert((n + 1) * 31_557_600 <= u64::MAX) by (nonlinear_arith)
            requires n < 100_000_000_000;
    }
}

/// Reads a duration with `humantime::parse_duration`. Under the weight
/// bound every seconds total `humantime` forms, a carried second
/// included, stays at most `u64::MAX`, so the `Duration::new` that carries
/// a whole second of nanoseconds into the seconds cannot overflow (it
/// panics only at `u64::MAX` seconds plus such a carry).
#[verifier::external_body]
fn parse_humantime(text: &str) -> (r: Option<(u64, u32)>)
    requires
        number_weight(text@) <= u64::MAX,
    ensures
        r == humantime_duration(text@),
        r matches Some((_, n)) ==> n < 1_000_000_000,
{
    humantime::parse_duration(text).ok().map(|d| (d.as_secs(), d.subsec_nanos()))
}

/// A duration that could not be read.
#[derive(Debug)]
pub enum DurationError {
    InvalidDuration { value: String },
}

/// What reading `text` as a duration gives: `None` for text `humantime`
/// rejects, and for text whose numbers are too large to read safely.
pub open spec fn duration_of(text: Seq<char>) -> Option<(u64, u32)> {
    if number_weight(text) <= u64::MAX { humantime_duration(text) } else { None }
}

/// Parses a user-supplied duration; anything `humantime` rejects, and any
/// text whose [`number_weight`] exceeds `u64::MAX`, is an
/// `InvalidDuration` naming the text.
pub fn parse_duration(s: &str) -> (r: Result<(u64, u32), DurationError>)
    ensures
        match duration_of(s@) {
            Some(d) => r == Ok::<(u64, u32), DurationError>(d),
            None => r matches Err(DurationError::InvalidDuration { value }) && value@ == s@,
        },
{
    if !duration_in_range(s) {
        return Err(DurationError::InvalidDuration { value: owned(s) });
    }
    match parse_humantime(s) {
        Some(d) => Ok(d),
        None => Err(DurationError::InvalidDuration { value: owned(s) }),
    }
}

/// A duration in whole milliseconds, saturating at `u64::MAX`.
pub open spec fn millis_of(secs: u64, nanos: u32) -> u64 {
    let ms = secs * 1000 + nanos / 1_000_000;
    if ms > u64::MAX { u64::MAX } else { ms as u64 }
}

/// `Duration::as_millis`, saturated into a `u64`.
pub fn duration_millis(secs: u64, nanos: u32) -> (r: u64)
    ensures
        r == millis_of(secs, nanos),
{
    let extra = (nanos / 1_000_000) as u64;
    if secs > (u64::MAX - extra) / 1000 {
        proof {
            assert(secs * 1000 + nanos / 1_000_000 > u64::MAX) by (nonlinear_arith)
                requires secs > (u64::MAX - extra) / 1000, extra == nanos / 1_000_000;
        }
        u64::MAX
    } else {
        proof {
            assert(secs * 1000 + extra <= u64::MAX) by (nonlinear_arith)
                requires secs <= (u64::MAX - extra) / 1000, extra <= u64::MAX;
        }
        secs * 1000 + extra
    }
}

/// How long the Stop hook parks: the `--timeout` flag, else
/// `$FAMP_HOOK_AWAIT_TIMEOUT` when it reads as a duration, else 23 hours.
pub open spec fn hook_timeout_of(cli: Option<(u64, u32)>, env: Option<Seq<char>>) -> (u64, u32) {
    match cli {
        Some(d) => d,
        None => match env {
            Some(t) => match duration_of(t) {
                Some(d) => d,
                None => (82_800, 0),
            },
            None => (82_800, 0),
        },
    }
}

/// Resolves the Stop hook's await timeout.
pub fn resolve_hook_timeout(cli: Option<(u64, u32)>, env: Option<&str>) -> (r: (u64, u32))
    ensures
        r == hook_timeout_of(cli, crate::text::opt_text(env)),
{
    match cli {
        Some(d) => d,
        None => match env {
            Some(t) => if duration_in_range(t) {
                match parse_humantime(t) {
                    Some(d) => d,
                    None => (82_800, 0),
                }
            } else {
                (82_800, 0)
            },
            None => (82_800, 0),
        },
    }
}

} // verus!
