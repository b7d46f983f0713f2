//! The control plane's command language: the wire-level commands a UDP
//! datagram can carry, and the engine-facing form the loop hands to a tick.

use vstd::prelude::*;
use crate::regime::Regime;
use crate::text::{
    spec_digits_end, spec_dec_val, spec_is_digit, spec_pow10, scan_u64, lemma_digits_end_props,
    lemma_dec_val_bound, lemma_pow10_20,
};

verus! {

/// A parsed control-plane request, as it arrives on the wire.
///
/// Fractional arguments are fixed point in thousandths: `rate 2.5` parses to
/// `Throughput(2500)`. Negative values parse and are rejected by the engine,
/// as the original protocol rejects out-of-range values after parsing.
#[derive(Clone, Copy, Debug, PartialEq, Eq, Structural)]
pub enum ControlCommand {
    Pause,
    Resume,
    /// Throughput scale in thousandths of the neutral multiplier.
    Throughput(i64),
    /// Display interval in milliseconds.
    DisplayInterval(i64),
    Regime(Regime),
    Reload,
    Stats,
}

/// The tunables a `reload` re-reads from the configuration file.
#[derive(Clone, Copy, Debug, PartialEq, Eq, Structural)]
pub struct ReloadTunables {
    /// Throughput scale, thousandths.
    pub throughput_scale_milli: u64,
    /// Display interval, milliseconds.
    pub display_interval_ms: u64,
    /// Shock probability per tick, parts per billion.
    pub shock_prob_ppb: u64,
}

/// A command as the engine consumes it: `Reload` arrives with the re-read
/// file tunables already parsed by the caller (`None` when the file could
/// not be read or parsed), since the engine itself does no I/O.
#[derive(Clone, Copy, Debug, PartialEq, Eq, Structural)]
pub enum EngineCommand {
    Pause,
    Resume,
    Throughput(i64),
    DisplayInterval(i64),
    Regime(Regime),
    Reload(Option<ReloadTunables>),
    Stats,
}

/// Whether a character separates tokens.
pub open spec fn spec_is_space(c: char) -> bool {
    c == ' ' || c == '\t' || c == '\n' || c == '\r'
}

/// The first non-space position at or after `i`.
pub open spec fn spec_skip_spaces(s: Seq<char>, i: int) -> int
    decreases s.len() - i,
{
    if 0 <= i < s.len() && spec_is_space(s[i]) {
        spec_skip_spaces(s, i + 1)
    } else {
        i
    }
}

/// The end of the token that starts at `i`.
pub open spec fn spec_token_end(s: Seq<char>, i: int) -> int
    decreases s.len() - i,
{
    if 0 <= i < s.len() && !spec_is_space(s[i]) {
        spec_token_end(s, i + 1)
    } else {
        i
    }
}

proof fn lemma_skip_spaces_props(s: Seq<char>, i: int)
    requires
        0 <= i <= s.len(),
    ensures
        i <= spec_skip_spaces(s, i) <= s.len(),
        spec_skip_spaces(s, i) < s.len() ==> !spec_is_space(s[spec_skip_spaces(s, i)]),
    decreases s.len() - i,
{
    if i < s.len() && spec_is_space(s[i]) {
        lemma_skip_spaces_props(s, i + 1);
    }
}

proof fn lemma_token_end_props(s: Seq<char>, i: int)
    requires
        0 <= i <= s.len(),
    ensures
        i <= spec_token_end(s, i) <= s.len(),
    decreases s.len() - i,
{
    if i < s.len() && !spec_is_space(s[i]) {
        lemma_token_end_props(s, i + 1);
    }
}

fn skip_spaces(s: &str, i: usize) -> (r: usize)
    requires
        i <= s@.len(),
    ensures
        r == spec_skip_spaces(s@, i as int),
        i <= r <= s@.len(),
{
    proof {
        lemma_skip_spaces_props(s@, i as int);
    }
    let n = s.unicode_len();
    let mut j = i;
    loop
        invariant
            i <= j <= n,
            n == s@.len(),
            spec_skip_spaces(s@, i as int) == spec_skip_spaces(s@, j as int),
        ensures
            j == spec_skip_spaces(s@, i as int),
        decreases n - j,
    {
        if j >= n {
            break ;
        }
        let c = s.get_char(j);
        if !(c == ' ' || c == '\t' || c == '\n' || c == '\r') {
            break ;
        }
        j += 1;
    }
    j
}

fn token_end(s: &str, i: usize) -> (r: usize)
    requires
        i <= s@.len(),
    ensures
        r == spec_token_end(s@, i as int),
        i <= r <= s@.len(),
{
    proof {
        lemma_token_end_props(s@, i as int);
    }
    let n = s.unicode_len();
    let mut j = i;
    loop
        invariant
            i <= j <= n,
            n == s@.len(),
            spec_token_end(s@, i as int) == spec_token_end(s@, j as int),
        ensures
            j == spec_token_end(s@, i as int),
        decreases n - j,
    {
        if j >= n {
            break ;
        }
        let c = s.get_char(j);
        if c == ' ' || c == '\t' || c == '\n' || c == '\r' {
            break ;
        }
        j += 1;
    }
    j
}

/// Case-insensitive equality against an already-lowercase ASCII word.
pub open spec fn spec_eq_ci(a: Seq<char>, b: Seq<char>) -> bool {
    a.len() == b.len() && forall|i: int| 0 <= i < a.len() ==> (#[trigger] a[i]) == b[i] || ('A'
        <= a[i] <= 'Z' && a[i] as int + 32 == b[i] as int)
}

/// Compare a slice of `s` case-insensitively against a lowercase word.
fn range_eq_ci(s: &str, lo: usize, hi: usize, b: &str) -> (r: bool)
    requires
        lo <= hi <= s@.len(),
    ensures
        r == spec_eq_ci(s@.subrange(lo as int, hi as int), b@),
{
    let m = b.unicode_len();
    if hi - lo != m {
        return false;
    }
    let mut k: usize = 0;
    while k < m
        invariant
            k <= m,
            m == b@.len(),
            lo <= hi <= s@.len(),
            hi - lo == m,
            forall|q: int| 0 <= q < k ==> (#[trigger] s@.subrange(lo as int, hi as int)[q])
                == b@[q] || ('A' <= s@.subrange(lo as int, hi as int)[q] <= 'Z' && s@.subrange(
                lo as int,
                hi as int,
            )[q] as int + 32 == b@[q] as int),
        decreases m - k,
    {
        let c = s.get_char(lo + k);
        let d = b.get_char(k);
        proof {
            assert(s@.subrange(lo as int, hi as int)[k as int] == s@[lo + k]);
        }
        let ok = c == d || ('A' <= c && c <= 'Z' && (c as u32) + 32 == d as u32);
        if !ok {
            return false;
        }
        k += 1;
    }
    true
}

/// The fixed-point thousandths a decimal literal stands for: an optional
/// sign, one to fifteen integer digits, and an optional point with at most
/// three fraction digits.
pub open spec fn spec_parse_milli(s: Seq<char>) -> Option<i64> {
    let neg = s.len() > 0 && s[0] == '-';
    let base: int = if neg {
        1
    } else {
        0
    };
    let e1 = spec_digits_end(s, base);
    if e1 == base || e1 - base > 15 {
        None
    } else {
        let ip = spec_dec_val(s.subrange(base, e1));
        if e1 == s.len() {
            Some(
                (if neg {
                    -(ip * 1000)
                } else {
                    (ip * 1000) as int
                }) as i64,
            )
        } else if s[e1] == '.' {
            let e2 = spec_digits_end(s, e1 + 1);
            if e2 != s.len() || e2 - (e1 + 1) > 3 {
                None
            } else {
                let w = e2 - (e1 + 1);
                let f = spec_dec_val(s.subrange(e1 + 1, e2));
                let v = ip * 1000 + f * spec_pow10((3 - w) as nat);
                Some(
                    (if neg {
                        -v
                    } else {
                        v as int
                    }) as i64,
                )
            }
        } else {
            None
        }
    }
}

/// Parse a decimal literal to fixed-point thousandths.
#[verifier::rlimit(60)]
pub fn parse_milli(s: &str) -> (r: Option<i64>)
    ensures
        r == spec_parse_milli(s@),
{
    let n = s.unicode_len();
    let neg = n > 0 && s.get_char(0) == '-';
    let base: usize = if neg {
        1
    } else {
        0
    };
    proof {
        lemma_digits_end_props(s@, base as int);
    }
    let (ip, e1) = match scan_u64(s, base) {
        Some(p) => p,
        None => {
            proof {
                let e1 = spec_digits_end(s@, base as int);
                if e1 != base && e1 - base <= 15 {
                    let sub = s@.subrange(base as int, e1);
                    assert(forall|k: int| 0 <= k < sub.len() ==> spec_is_digit(#[trigger] sub[k]))
                        by {
                        assert(forall|k: int| 0 <= k < sub.len() ==> sub[k] == s@[base + k]);
                    }
                    lemma_dec_val_bound(sub);
                    crate::text::lemma_pow10_mono(sub.len() as nat, 15);
                    assert(crate::text::spec_pow10(15) == 1_000_000_000_000_000) by {
                        reveal_with_fuel(crate::text::spec_pow10, 16);
                    }
                    assert(false);
                }
            }
            return None;
        },
    };
    if e1 == base || e1 - base > 15 {
        return None;
    }
    proof {
        let sub = s@.subrange(base as int, e1 as int);
        assert(forall|k: int| 0 <= k < sub.len() ==> spec_is_digit(#[trigger] sub[k])) by {
            assert(forall|k: int| 0 <= k < sub.len() ==> sub[k] == s@[base + k]);
        }
        lemma_dec_val_bound(sub);
        crate::text::lemma_pow10_mono(sub.len() as nat, 15);
        assert(crate::text::spec_pow10(15) == 1_000_000_000_000_000) by {
            reveal_with_fuel(crate::text::spec_pow10, 16);
        }
        assert(ip < 1_000_000_000_000_000);
    }
    if e1 == n {
        let v = ip * 1000;
        if neg {
            return Some(-(v as i64));
        } else {
            return Some(v as i64);
        }
    }
    if s.get_char(e1) != '.' {
        return None;
    }
    proof {
        lemma_digits_end_props(s@, e1 + 1);
    }
    let (f, e2, w) = match scan_u64(s, e1 + 1) {
        Some(p) => (p.0, p.1, p.1 - (e1 + 1)),
        None => {
            // An empty fraction is allowed; a longer run would have scanned.
            proof {
                let e2 = spec_digits_end(s@, e1 + 1);
                if e2 != e1 + 1 && e2 - (e1 + 1) <= 3 {
                    let sub = s@.subrange(e1 + 1, e2);
                    assert(forall|k: int| 0 <= k < sub.len() ==> spec_is_digit(#[trigger] sub[k]))
                        by {
                        assert(forall|k: int| 0 <= k < sub.len() ==> sub[k] == s@[e1 + 1 + k]);
                    }
                    lemma_dec_val_bound(sub);
                    crate::text::lemma_pow10_mono(sub.len() as nat, 3);
                    assert(crate::text::spec_pow10(3) == 1000) by {
                        reveal_with_fuel(crate::text::spec_pow10, 4);
                    }
                    assert(false);
                }
                assert(s@.subrange(e1 + 1, e1 + 1) =~= Seq::<char>::empty());
            }
            (0u64, e1 + 1, 0)
        },
    };
    if e2 != n || w > 3 {
        return None;
    }
    proof {
        let sub = s@.subrange(e1 + 1, e2 as int);
        assert(forall|k: int| 0 <= k < sub.len() ==> spec_is_digit(#[trigger] sub[k])) by {
            assert(forall|k: int| 0 <= k < sub.len() ==> sub[k] == s@[e1 + 1 + k]);
        }
        lemma_dec_val_bound(sub);
        assert(crate::text::spec_pow10(0) == 1 && crate::text::spec_pow10(1) == 10
            && crate::text::spec_pow10(2) == 100 && crate::text::spec_pow10(3) == 1000) by {
            reveal_with_fuel(crate::text::spec_pow10, 4);
        }
        assert(f < crate::text::spec_pow10(w as nat));
        assert(f * crate::text::spec_pow10((3 - w) as nat) < 1000) by (nonlinear_arith)
            requires
                0 <= w <= 3,
                f < crate::text::spec_pow10(w as nat),
                crate::text::spec_pow10(0nat) == 1,
                crate::text::spec_pow10(1nat) == 10,
                crate::text::spec_pow10(2nat) == 100,
                crate::text::spec_pow10(3nat) == 1000,
        ;
    }
    let scale: u64 = if w == 0 {
        1000
    } else if w == 1 {
        100
    } else if w == 2 {
        10
    } else {
        1
    };
    proof {
        assert(scale == crate::text::spec_pow10((3 - w) as nat));
    }
    let v = ip * 1000 + f * scale;
    if neg {
        Some(-(v as i64))
    } else {
        Some(v as i64)
    }
}

/// The command a datagram's text stands for: a verb (matched without case),
/// for `rate`, `throughput` and `display` a decimal argument, for `regime` a
/// regime name; tokens past the ones a verb consumes are ignored, as a text
/// protocol tolerant of trailing noise.
pub open spec fn spec_parse_control(s: Seq<char>) -> Option<ControlCommand> {
    let a = spec_skip_spaces(s, 0);
    let b = spec_token_end(s, a);
    let verb = s.subrange(a, b);
    let c = spec_skip_spaces(s, b);
    let d = spec_token_end(s, c);
    let arg = s.subrange(c, d);
    if a == b {
        None
    } else if spec_eq_ci(verb, "pause"@) {
        Some(ControlCommand::Pause)
    } else if spec_eq_ci(verb, "resume"@) {
        Some(ControlCommand::Resume)
    } else if spec_eq_ci(verb, "reload"@) {
        Some(ControlCommand::Reload)
    } else if spec_eq_ci(verb, "stats"@) {
        Some(ControlCommand::Stats)
    } else if spec_eq_ci(verb, "rate"@) || spec_eq_ci(verb, "throughput"@) {
        if c == d {
            None
        } else {
            match spec_parse_milli(arg) {
                Some(v) => Some(ControlCommand::Throughput(v)),
                None => None,
            }
        }
    } else if spec_eq_ci(verb, "display"@) {
        if c == d {
            None
        } else {
            match spec_parse_milli(arg) {
                Some(v) => Some(ControlCommand::DisplayInterval(v)),
                None => None,
            }
        }
    } else if spec_eq_ci(verb, "regime"@) {
        if spec_eq_ci(arg, "calm"@) {
            Some(ControlCommand::Regime(Regime::Calm))
        } else if spec_eq_ci(arg, "volatile"@) {
            Some(ControlCommand::Regime(Regime::Volatile))
        } else if spec_eq_ci(arg, "crash"@) {
            Some(ControlCommand::Regime(Regime::Crash))
        } else if spec_eq_ci(arg, "rally"@) {
            Some(ControlCommand::Regime(Regime::Rally))
        } else if spec_eq_ci(arg, "recovery"@) {
            Some(ControlCommand::Regime(Regime::Recovery))
        } else {
            None
        }
    } else {
        None
    }
}

/// Parse one control-plane datagram.
pub fn parse_control_command(input: &str) -> (r: Option<ControlCommand>)
    ensures
        r == spec_parse_control(input@),
{
    let a = skip_spaces(input, 0);
    let b = token_end(input, a);
    if a == b {
        return None;
    }
    let c = skip_spaces(input, b);
    let d = token_end(input, c);
    if range_eq_ci(input, a, b, "pause") {
        Some(ControlCommand::Pause)
    } else if range_eq_ci(input, a, b, "resume") {
        Some(ControlCommand::Resume)
    } else if range_eq_ci(input, a, b, "reload") {
        Some(ControlCommand::Reload)
    } else if range_eq_ci(input, a, b, "stats") {
        Some(ControlCommand::Stats)
    } else if range_eq_ci(input, a, b, "rate") || range_eq_ci(input, a, b, "throughput") {
        if c == d {
            return None;
        }
        let arg = input.substring_char(c, d);
        match parse_milli(arg) {
            Some(v) => Some(ControlCommand::Throughput(v)),
            None => None,
        }
    } else if range_eq_ci(input, a, b, "display") {
        if c == d {
            return None;
        }
        let arg = input.substring_char(c, d);
        match parse_milli(arg) {
            Some(v) => Some(ControlCommand::DisplayInterval(v)),
            None => None,
        }
    } else if range_eq_ci(input, a, b, "regime") {
        if range_eq_ci(input, c, d, "calm") {
            Some(ControlCommand::Regime(Regime::Calm))
        } else if range_eq_ci(input, c, d, "volatile") {
            Some(ControlCommand::Regime(Regime::Volatile))
        } else if range_eq_ci(input, c, d, "crash") {
            Some(ControlCommand::Regime(Regime::Crash))
        } else if range_eq_ci(input, c, d, "rally") {
            Some(ControlCommand::Regime(Regime::Rally))
        } else if range_eq_ci(input, c, d, "recovery") {
            Some(ControlCommand::Regime(Regime::Recovery))
        } else {
            None
        }
    } else {
        None
    }
}

/// The usage line an unparsable datagram is answered with.
pub fn usage_line() -> (r: &'static str)
    ensures
        r@ == "error: commands are pause|resume|rate <x>|display <sec>|regime <name>|reload|stats"@,
{
    "error: commands are pause|resume|rate <x>|display <sec>|regime <name>|reload|stats"
}

} // verus!
