//! Verified text helpers: string equality, decimal rendering of integers,
//! and fixed-point rendering with a fixed number of decimals.

use vstd::prelude::*;
use vstd::string::*;

verus! {

/// Character-wise string equality.
pub fn str_eq(a: &str, b: &str) -> (r: bool)
    ensures
        r == (a@ == b@),
{
    let n = a.unicode_len();
    if n != b.unicode_len() {
        return false;
    }
    let mut i: usize = 0;
    while i < n
        invariant
            i <= n,
            n == a@.len(),
            n == b@.len(),
            forall|j: int| 0 <= j < i ==> a@[j] == b@[j],
        decreases n - i,
    {
        if a.get_char(i) != b.get_char(i) {
            return false;
        }
        i += 1;
    }
    proof {
        assert(a@ =~= b@);
    }
    true
}

/// The character for a single decimal digit.
pub open spec fn spec_digit_char(d: nat) -> char
    recommends
        d < 10,
{
    if d == 0 {
        '0'
    } else if d == 1 {
        '1'
    } else if d == 2 {
        '2'
    } else if d == 3 {
        '3'
    } else if d == 4 {
        '4'
    } else if d == 5 {
        '5'
    } else if d == 6 {
        '6'
    } else if d == 7 {
        '7'
    } else if d == 8 {
        '8'
    } else {
        '9'
    }
}

/// The decimal digits of `n`, most significant first, no leading zeros
/// (a single `'0'` for zero).
pub open spec fn spec_dec_digits(n: nat) -> Seq<char>
    decreases n,
{
    if n < 10 {
        seq![spec_digit_char(n)]
    } else {
        spec_dec_digits(n / 10).push(spec_digit_char(n % 10))
    }
}

/// The `width` least significant decimal digits of `n`, zero padded: the
/// usual fixed-width rendering when `n < 10^width`.
pub open spec fn spec_dec_pad(n: nat, width: nat) -> Seq<char>
    decreases width,
{
    if width == 0 {
        Seq::empty()
    } else {
        spec_dec_pad(n / 10, (width - 1) as nat).push(spec_digit_char(n % 10))
    }
}

fn digit_str(d: u64) -> (r: &'static str)
    requires
        d < 10,
    ensures
        r@ == seq![spec_digit_char(d as nat)],
{
    if d == 0 {
        proof {
            reveal_strlit("0");
            assert("0"@ =~= seq![spec_digit_char(0)]);
        }
        "0"
    } else if d == 1 {
        proof {
            reveal_strlit("1");
            assert("1"@ =~= seq![spec_digit_char(1)]);
        }
        "1"
    } else if d == 2 {
        proof {
            reveal_strlit("2");
            assert("2"@ =~= seq![spec_digit_char(2)]);
        }
        "2"
    } else if d == 3 {
        proof {
            reveal_strlit("3");
            assert("3"@ =~= seq![spec_digit_char(3)]);
        }
        "3"
    } else if d == 4 {
        proof {
            reveal_strlit("4");
            assert("4"@ =~= seq![spec_digit_char(4)]);
        }
        "4"
    } else if d == 5 {
        proof {
            reveal_strlit("5");
            assert("5"@ =~= seq![spec_digit_char(5)]);
        }
        "5"
    } else if d == 6 {
        proof {
            reveal_strlit("6");
            assert("6"@ =~= seq![spec_digit_char(6)]);
        }
        "6"
    } else if d == 7 {
        proof {
            reveal_strlit("7");
            assert("7"@ =~= seq![spec_digit_char(7)]);
        }
        "7"
    } else if d == 8 {
        proof {
            reveal_strlit("8");
            assert("8"@ =~= seq![spec_digit_char(8)]);
        }
        "8"
    } else {
        proof {
            reveal_strlit("9");
            assert("9"@ =~= seq![spec_digit_char(9)]);
        }
        "9"
    }
}

/// Render `n` in decimal.
pub fn u64_to_dec(n: u64) -> (s: String)
    ensures
        s@ == spec_dec_digits(n as nat),
    decreases n,
{
    if n < 10 {
        String::from_str(digit_str(n))
    } else {
        let mut s = u64_to_dec(n / 10);
        s.append(digit_str(n % 10));
        s
    }
}

/// Render the `width` least significant digits of `n`, zero padded.
pub fn u64_to_dec_pad(n: u64, width: u64) -> (s: String)
    ensures
        s@ == spec_dec_pad(n as nat, width as nat),
    decreases width,
{
    if width == 0 {
        let s = String::new();
        proof {
            assert(s@ =~= spec_dec_pad(n as nat, 0));
        }
        s
    } else {
        let mut s = u64_to_dec_pad(n / 10, width - 1);
        s.append(digit_str(n % 10));
        s
    }
}

/// A fixed-point count of cents rendered with two decimals, `d.cc`.
pub open spec fn spec_fmt_cents2(cents: nat) -> Seq<char> {
    spec_dec_digits(cents / 100) + "."@ + spec_dec_pad(cents % 100, 2)
}

pub fn fmt_cents2(cents: u64) -> (s: String)
    ensures
        s@ == spec_fmt_cents2(cents as nat),
{
    let mut s = u64_to_dec(cents / 100);
    s.append(".");
    let frac = u64_to_dec_pad(cents % 100, 2);
    s.append(frac.as_str());
    s
}

/// A fixed-point count of cents rendered with four decimals, `d.cc00`.
pub open spec fn spec_fmt_cents4(cents: nat) -> Seq<char> {
    spec_dec_digits(cents / 100) + "."@ + spec_dec_pad(cents % 100, 2) + "00"@
}

pub fn fmt_cents4(cents: u64) -> (s: String)
    ensures
        s@ == spec_fmt_cents4(cents as nat),
{
    let mut s = fmt_cents2(cents);
    s.append("00");
    s
}

/// A count of milliseconds rendered as seconds with three decimals.
pub open spec fn spec_fmt_ms3(ms: nat) -> Seq<char> {
    spec_dec_digits(ms / 1000) + "."@ + spec_dec_pad(ms % 1000, 3)
}

pub fn fmt_ms3(ms: u64) -> (s: String)
    ensures
        s@ == spec_fmt_ms3(ms as nat),
{
    let mut s = u64_to_dec(ms / 1000);
    s.append(".");
    let frac = u64_to_dec_pad(ms % 1000, 3);
    s.append(frac.as_str());
    s
}

/// A count of thousandths rendered with three decimals.
pub open spec fn spec_fmt_milli3(v: nat) -> Seq<char> {
    spec_dec_digits(v / 1000) + "."@ + spec_dec_pad(v % 1000, 3)
}

pub fn fmt_milli3(v: u64) -> (s: String)
    ensures
        s@ == spec_fmt_milli3(v as nat),
{
    let mut s = u64_to_dec(v / 1000);
    s.append(".");
    let frac = u64_to_dec_pad(v % 1000, 3);
    s.append(frac.as_str());
    s
}

/// A probability in parts per billion rendered with nine decimals.
pub open spec fn spec_fmt_ppb9(v: nat) -> Seq<char> {
    spec_dec_digits(v / 1_000_000_000) + "."@ + spec_dec_pad(v % 1_000_000_000, 9)
}

pub fn fmt_ppb9(v: u64) -> (s: String)
    ensures
        s@ == spec_fmt_ppb9(v as nat),
{
    let mut s = u64_to_dec(v / 1_000_000_000);
    s.append(".");
    let frac = u64_to_dec_pad(v % 1_000_000_000, 9);
    s.append(frac.as_str());
    s
}

/// A fraction in parts per billion rendered as a percentage with two
/// decimals, truncated.
pub open spec fn spec_fmt_pct2(ppb: nat) -> Seq<char> {
    spec_dec_digits(ppb / 10_000_000) + "."@ + spec_dec_pad(ppb / 100_000 % 100, 2)
}

pub fn fmt_pct2(ppb: u64) -> (s: String)
    ensures
        s@ == spec_fmt_pct2(ppb as nat),
{
    let mut s = u64_to_dec(ppb / 10_000_000);
    s.append(".");
    let frac = u64_to_dec_pad(ppb / 100_000 % 100, 2);
    s.append(frac.as_str());
    s
}

/// A count of milliseconds rendered as seconds with one decimal, rounded
/// half up to the nearest tenth.
pub open spec fn spec_fmt_ms1(ms: nat) -> Seq<char> {
    let ds = ms / 100 + if ms % 100 >= 50 {
        1nat
    } else {
        0nat
    };
    spec_dec_digits(ds / 10) + "."@ + seq![spec_digit_char(ds % 10)]
}

pub fn fmt_ms1(ms: u64) -> (s: String)
    ensures
        s@ == spec_fmt_ms1(ms as nat),
{
    let ds = ms / 100 + if ms % 100 >= 50 {
        1
    } else {
        0
    };
    let mut s = u64_to_dec(ds / 10);
    s.append(".");
    s.append(digit_str(ds % 10));
    s
}

/// Whether a character is a decimal digit.
pub open spec fn spec_is_digit(c: char) -> bool {
    '0' <= c <= '9'
}

/// The value of a decimal digit character.
pub open spec fn spec_digit_val(c: char) -> nat
    recommends
        spec_is_digit(c),
{
    ((c as int) - ('0' as int)) as nat
}

/// The value of a string of decimal digits, most significant first.
pub open spec fn spec_dec_val(s: Seq<char>) -> nat
    decreases s.len(),
{
    if s.len() == 0 {
        0
    } else {
        spec_dec_val(s.drop_last()) * 10 + spec_digit_val(s.last())
    }
}

/// The decimal rendering of `n` consists of digits, and reading it back
/// yields `n`.
pub proof fn lemma_dec_digits_value(n: nat)
    ensures
        spec_dec_val(spec_dec_digits(n)) == n,
        spec_dec_digits(n).len() >= 1,
        forall|i: int| 0 <= i < spec_dec_digits(n).len() ==> spec_is_digit(
            #[trigger] spec_dec_digits(n)[i],
        ),
    decreases n,
{
    if n < 10 {
        assert(spec_dec_digits(n) =~= seq![spec_digit_char(n)]);
        let one = seq![spec_digit_char(n)];
        assert(one.drop_last() =~= Seq::<char>::empty());
        assert(one.last() == spec_digit_char(n));
        assert(spec_dec_val(Seq::<char>::empty()) == 0);
        assert(spec_dec_val(one) == spec_dec_val(one.drop_last()) * 10 + spec_digit_val(one.last()));
        assert(spec_digit_val(spec_digit_char(n)) == n);
        assert(spec_is_digit(spec_digit_char(n)));
    } else {
        lemma_dec_digits_value(n / 10);
        let d = spec_dec_digits(n / 10);
        assert(spec_dec_digits(n) == d.push(spec_digit_char(n % 10)));
        assert(spec_dec_digits(n).drop_last() =~= d);
        assert(spec_dec_digits(n).last() == spec_digit_char(n % 10));
        assert(spec_digit_val(spec_digit_char(n % 10)) == n % 10);
        assert(spec_is_digit(spec_digit_char(n % 10)));
        assert(spec_dec_val(spec_dec_digits(n)) == (n / 10) * 10 + n % 10);
        assert((n / 10) * 10 + n % 10 == n) by (nonlinear_arith);
        assert forall|i: int| 0 <= i < spec_dec_digits(n).len() implies spec_is_digit(
            #[trigger] spec_dec_digits(n)[i],
        ) by {
            if i < d.len() {
                assert(spec_dec_digits(n)[i] == d[i]);
            }
        }
    }
}

/// The zero-padded rendering of `n` consists of digits and reads back as
/// `n % 10^width`.
pub proof fn lemma_dec_pad_value(n: nat, width: nat)
    ensures
        spec_dec_pad(n, width).len() == width,
        forall|i: int| 0 <= i < width ==> spec_is_digit(#[trigger] spec_dec_pad(n, width)[i]),
        spec_dec_val(spec_dec_pad(n, width)) == n % spec_pow10(width),
    decreases width,
{
    if width == 0 {
        assert(n % spec_pow10(0) == n % 1);
        assert(n % 1 == 0) by (nonlinear_arith);
    } else {
        lemma_dec_pad_value(n / 10, (width - 1) as nat);
        let d = spec_dec_pad(n / 10, (width - 1) as nat);
        assert(spec_dec_pad(n, width) == d.push(spec_digit_char(n % 10)));
        assert(spec_dec_pad(n, width).drop_last() =~= d);
        assert(spec_digit_val(spec_digit_char(n % 10)) == n % 10);
        assert(spec_is_digit(spec_digit_char(n % 10)));
        lemma_pow10_pos((width - 1) as nat);
        assert(spec_dec_val(spec_dec_pad(n, width)) == ((n / 10) % spec_pow10((width - 1) as nat))
            * 10 + n % 10);
        let p = spec_pow10((width - 1) as nat) as int;
        vstd::arithmetic::div_mod::lemma_mod_breakdown(n as int, 10, p);
        assert((10 * ((n as int / 10) % p)) == ((n as int / 10) % p) * 10) by (nonlinear_arith);
        assert(p * 10 == 10 * p) by (nonlinear_arith);
        assert(n as int / 10 == (n / 10) as int);
        assert(spec_pow10(width) == p * 10);
        assert(spec_pow10(width) == spec_pow10((width - 1) as nat) * 10);
        assert forall|i: int| 0 <= i < width implies spec_is_digit(
            #[trigger] spec_dec_pad(n, width)[i],
        ) by {
            if i < d.len() {
                assert(spec_dec_pad(n, width)[i] == d[i]);
            }
        }
    }
}

/// Powers of ten.
pub open spec fn spec_pow10(n: nat) -> nat
    decreases n,
{
    if n == 0 {
        1
    } else {
        spec_pow10((n - 1) as nat) * 10
    }
}

pub proof fn lemma_pow10_pos(n: nat)
    ensures
        spec_pow10(n) >= 1,
    decreases n,
{
    if n > 0 {
        lemma_pow10_pos((n - 1) as nat);
    }
}

/// Powers of ten grow with the exponent.
pub proof fn lemma_pow10_mono(a: nat, b: nat)
    requires
        a <= b,
    ensures
        spec_pow10(a) <= spec_pow10(b),
    decreases b,
{
    if a < b {
        lemma_pow10_mono(a, (b - 1) as nat);
        lemma_pow10_pos((b - 1) as nat);
        assert(spec_pow10(b) == spec_pow10((b - 1) as nat) * 10);
    }
}

/// The twentieth power of ten, spelled out.
pub proof fn lemma_pow10_20()
    ensures
        spec_pow10(20) == 100_000_000_000_000_000_000,
{
    reveal_with_fuel(spec_pow10, 21);
}

/// A string of `len` digits reads back below the matching power of ten.
pub proof fn lemma_dec_val_bound(s: Seq<char>)
    requires
        forall|i: int| 0 <= i < s.len() ==> spec_is_digit(#[trigger] s[i]),
    ensures
        spec_dec_val(s) < spec_pow10(s.len()),
    decreases s.len(),
{
    if s.len() == 0 {
    } else {
        let d = s.drop_last();
        assert(forall|i: int| 0 <= i < d.len() ==> d[i] == s[i]);
        lemma_dec_val_bound(d);
        lemma_pow10_pos(d.len());
        assert(spec_is_digit(s.last()));
        assert(spec_digit_val(s.last()) <= 9);
        assert(spec_dec_val(d) * 10 + 9 < spec_pow10(d.len()) * 10) by (nonlinear_arith)
            requires
                spec_dec_val(d) < spec_pow10(d.len()),
        ;
        assert(spec_pow10(s.len()) == spec_pow10(d.len()) * 10);
    }
}

/// A number below the `k`-th power of ten renders in at most `k` digits.
pub proof fn lemma_dec_digits_len(n: nat, k: nat)
    requires
        1 <= k,
        n < spec_pow10(k),
    ensures
        spec_dec_digits(n).len() <= k,
    decreases n,
{
    if n < 10 {
    } else {
        assert(spec_pow10(k) == spec_pow10((k - 1) as nat) * 10);
        if k == 1 {
            assert(spec_pow10(1) == 10) by {
                reveal_with_fuel(spec_pow10, 2);
            }
            assert(false);
        } else {
            assert(n / 10 < spec_pow10((k - 1) as nat)) by (nonlinear_arith)
                requires
                    n < spec_pow10((k - 1) as nat) * 10,
            ;
            lemma_dec_digits_len(n / 10, (k - 1) as nat);
        }
    }
}

/// Every u64 renders in at most twenty digits.
pub proof fn lemma_dec_digits_len_u64(n: nat)
    requires
        n <= u64::MAX,
    ensures
        spec_dec_digits(n).len() <= 20,
{
    lemma_pow10_20();
    lemma_dec_digits_len(n, 20);
}

/// The end of the digit run that starts at `i`.
pub open spec fn spec_digits_end(s: Seq<char>, i: int) -> int
    decreases s.len() - i,
{
    if 0 <= i < s.len() && spec_is_digit(s[i]) {
        spec_digits_end(s, i + 1)
    } else {
        i
    }
}

/// The digit run is a run: everything from `i` to the end is a digit, what
/// follows is not, and the end does not move when scanning starts inside
/// the run.
pub proof fn lemma_digits_end_props(s: Seq<char>, i: int)
    requires
        0 <= i <= s.len(),
    ensures
        i <= spec_digits_end(s, i) <= s.len(),
        forall|k: int| i <= k < spec_digits_end(s, i) ==> spec_is_digit(#[trigger] s[k]),
        spec_digits_end(s, i) < s.len() ==> !spec_is_digit(s[spec_digits_end(s, i)]),
    decreases s.len() - i,
{
    if i < s.len() && spec_is_digit(s[i]) {
        lemma_digits_end_props(s, i + 1);
    }
}

/// Scanning a digit run that the rendering of `n` starts, followed by a
/// non-digit (or the end), stops exactly at the rendering's end.
pub proof fn lemma_digits_end_of_dec(s: Seq<char>, i: int, n: nat)
    requires
        0 <= i,
        i + spec_dec_digits(n).len() <= s.len(),
        s.subrange(i, i + spec_dec_digits(n).len() as int) == spec_dec_digits(n),
        i + spec_dec_digits(n).len() < s.len() ==> !spec_is_digit(
            s[i + spec_dec_digits(n).len()],
        ),
    ensures
        spec_digits_end(s, i) == i + spec_dec_digits(n).len(),
        spec_dec_val(s.subrange(i, spec_digits_end(s, i))) == n,
{
    lemma_dec_digits_value(n);
    let e = i + spec_dec_digits(n).len() as int;
    assert forall|k: int| i <= k < e implies spec_is_digit(#[trigger] s[k]) by {
        assert(s[k] == s.subrange(i, e)[k - i]);
        assert(spec_is_digit(spec_dec_digits(n)[k - i]));
    }
    lemma_digits_end_stops(s, i, e);
    assert(spec_dec_val(s.subrange(i, e)) == n);
}

/// A digit run bounded by a non-digit ends exactly at the bound.
pub proof fn lemma_digits_end_stops(s: Seq<char>, i: int, e: int)
    requires
        0 <= i <= e <= s.len(),
        forall|k: int| i <= k < e ==> spec_is_digit(#[trigger] s[k]),
        e < s.len() ==> !spec_is_digit(s[e]),
    ensures
        spec_digits_end(s, i) == e,
    decreases e - i,
{
    if i < e {
        assert(spec_is_digit(s[i]));
        lemma_digits_end_stops(s, i + 1, e);
    }
}

/// Scan the digit run at `i` and read its value: `Some` exactly when the
/// run is non-empty, at most 20 digits long, and its value fits in u64;
/// the returned index is the end of the run.
pub fn scan_u64(s: &str, i: usize) -> (r: Option<(u64, usize)>)
    requires
        i <= s@.len(),
    ensures
        ({
            let e = spec_digits_end(s@, i as int);
            let v = spec_dec_val(s@.subrange(i as int, e));
            &&& if e == i || e - i > 20 || v > u64::MAX {
                r is None
            } else {
                r matches Some(p) && p.0 == v && p.1 == e
            }
            &&& (r matches Some(p) ==> i < p.1 <= s@.len())
        }),
{
    let n = s.unicode_len();
    proof {
        lemma_digits_end_props(s@, i as int);
    }
    let ghost e = spec_digits_end(s@, i as int);
    let mut j = i;
    let mut acc: u128 = 0;
    loop
        invariant
            i <= j <= n,
            n == s@.len(),
            i as int <= e <= n,
            e == spec_digits_end(s@, i as int),
            forall|k: int| i <= k < e ==> spec_is_digit(#[trigger] s@[k]),
            e < n ==> !spec_is_digit(s@[e]),
            j <= e,
            acc == spec_dec_val(s@.subrange(i as int, j as int)),
            acc < spec_pow10((j - i) as nat),
            j - i <= 21,
        ensures
            j == e,
            acc == spec_dec_val(s@.subrange(i as int, j as int)),
            j - i <= 21,
            i <= j <= n,
        decreases n - j,
    {
        if j >= n {
            proof {
                assert(j == e);
            }
            break;
        }
        let c = s.get_char(j);
        if !('0' <= c && c <= '9') {
            proof {
                assert(!spec_is_digit(s@[j as int]));
                if j < e {
                    assert(spec_is_digit(s@[j as int]));
                }
                assert(j == e);
            }
            break;
        }
        if j - i >= 21 {
            proof {
                assert(e - i > 20);
            }
            return None;
        }
        let d: u128 = (c as u32 as u128) - ('0' as u32 as u128);
        proof {
            assert(spec_is_digit(s@[j as int]));
            assert(s@.subrange(i as int, j + 1).drop_last() =~= s@.subrange(i as int, j as int));
            assert(s@.subrange(i as int, j + 1).last() == s@[j as int]);
            assert(d == spec_digit_val(s@[j as int]));
            lemma_pow10_20();
            assert(spec_pow10((j - i) as nat) <= spec_pow10(20)) by {
                lemma_pow10_mono((j - i) as nat, 20);
            }
            assert(spec_pow10((j - i + 1) as nat) == spec_pow10((j - i) as nat) * 10);
        }
        acc = acc * 10 + d;
        j += 1;
    }
    if j == i {
        return None;
    }
    if j - i > 20 {
        return None;
    }
    if acc > u64::MAX as u128 {
        return None;
    }
    Some((acc as u64, j))
}

} // verus!
