//! Monetary amounts as exact fixed-point integers.
//!
//! An amount is held in millionths of the currency unit ("micros"), so a
//! statement value such as `100.50` is `100_500_000`.  Texts are read in the
//! decimal notation of `str::parse::<f64>`: an optional sign, digits with an
//! optional decimal point, and an optional exponent (`1.5e3`).  The value is
//! rounded to the nearest micro, halves away from zero, and must fit in an
//! `i64`; a thousands separator is removed by the callers.
use vstd::prelude::*;

use crate::text::{
    all_digits, copy_chars, decimal, decimal_u64, digit_char, digit_value, digits_value, find_first, first_index_of, is_digit,
    push_chars, slice_chars,
};

verus! {

/// Micros per currency unit.
pub const MICROS_PER_UNIT: i64 = 1_000_000;

pub open spec fn pow10(n: nat) -> nat
    decreases n,
{
    if n == 0 {
        1
    } else {
        10 * pow10((n - 1) as nat)
    }
}

/// The sign-free part of an amount text and whether it was negative.
pub open spec fn amount_body(s: Seq<char>) -> (bool, Seq<char>) {
    if s.len() > 0 && s[0] == '-' {
        (true, s.skip(1))
    } else if s.len() > 0 && s[0] == '+' {
        (false, s.skip(1))
    } else {
        (false, s)
    }
}

/// The integer and fraction digits of an amount's mantissa.
pub open spec fn amount_parts(body: Seq<char>) -> (Seq<char>, Seq<char>) {
    match first_index_of(body, '.') {
        Some(d) => (body.take(d), body.skip(d + 1)),
        None => (body, Seq::<char>::empty()),
    }
}

/// Position of the exponent marker of a sign-free amount text: its first `e`,
/// or else its first `E` (a text holding both is malformed either way).
pub open spec fn exponent_marker(body: Seq<char>) -> Option<int> {
    match first_index_of(body, 'e') {
        Some(m) => Some(m),
        None => first_index_of(body, 'E'),
    }
}

/// The mantissa of a sign-free amount text and its exponent text, if any.
pub open spec fn mantissa_and_exponent(body: Seq<char>) -> (Seq<char>, Option<Seq<char>>) {
    match exponent_marker(body) {
        Some(m) => (body.take(m), Some(body.skip(m + 1))),
        None => (body, None),
    }
}

/// The value of an exponent text: an optional sign and one or more digits.
pub open spec fn exponent_value(t: Seq<char>) -> Option<int> {
    let (neg, d) = amount_body(t);
    if d.len() > 0 && all_digits(d) {
        Some(if neg { -(digits_value(d) as int) } else { digits_value(d) as int })
    } else {
        None
    }
}

/// `n * 10^k` rounded to the nearest integer, halves rounded up.
pub open spec fn scaled_rounded(n: nat, k: int) -> nat {
    if k >= 0 {
        n * pow10(k as nat)
    } else {
        (n + 5 * pow10((-k - 1) as nat)) / pow10((-k) as nat)
    }
}

/// The value, in micros, that an amount text denotes, if it is well-formed:
/// the mantissa's digits scaled by the exponent, rounded to the nearest micro
/// with halves away from zero.
pub open spec fn amount_value(s: Seq<char>) -> Option<int> {
    let (neg, body) = amount_body(s);
    let (mant, exp) = mantissa_and_exponent(body);
    let (ip, fp) = amount_parts(mant);
    let e: Option<int> = match exp {
        Some(t) => exponent_value(t),
        None => Some(0),
    };
    if all_digits(ip) && all_digits(fp) && ip.len() + fp.len() > 0 && e is Some {
        let mag = scaled_rounded(digits_value(ip + fp), 6 + e.unwrap() - fp.len());
        Some(if neg { -(mag as int) } else { mag as int })
    } else {
        None
    }
}

/// The amount a text denotes when it is well-formed and fits in an `i64`.
pub open spec fn parsed_amount(s: Seq<char>) -> Option<i64> {
    match amount_value(s) {
        Some(v) => if i64::MIN <= v <= i64::MAX { Some(v as i64) } else { None },
        None => None,
    }
}

proof fn lemma_digits_value_step(s: Seq<char>, k: int)
    requires
        0 <= k < s.len(),
        is_digit(s[k]),
    ensures
        digits_value(s.take(k + 1)) == digits_value(s.take(k)) * 10 + digit_value(s[k]),
{
    assert(s.take(k + 1).drop_last() =~= s.take(k));
    assert(s.take(k + 1).last() == s[k]);
}

proof fn lemma_digits_value_monotone(s: Seq<char>, k: int)
    requires
        0 <= k <= s.len(),
        all_digits(s),
    ensures
        digits_value(s.take(k)) <= digits_value(s),
    decreases s.len() - k,
{
    if k < s.len() {
        assert(is_digit(s[k]));
        lemma_digits_value_step(s, k);
        lemma_digits_value_monotone(s, k + 1);
    } else {
        assert(s.take(k) =~= s);
    }
}

/// Value of a run of decimal digits, or `None` if a character is not a
/// digit or the value exceeds `limit`.
pub(crate) fn digits_upto(s: &[char], limit: u64) -> (r: Option<u64>)
    requires
        limit >= 9,
    ensures
        r matches Some(v) ==> all_digits(s@) && v == digits_value(s@) && v <= limit,
        r is None ==> !all_digits(s@) || digits_value(s@) > limit,
{
    let mut v: u64 = 0;
    let mut i: usize = 0;
    assert(s@.take(0) =~= Seq::<char>::empty());
    while i < s.len()
        invariant
            i <= s@.len(),
            all_digits(s@.take(i as int)),
            v == digits_value(s@.take(i as int)),
            v <= limit,
            limit >= 9,
        decreases s.len() - i,
    {
        let c = s[i];
        if !('0' <= c && c <= '9') {
            assert(!is_digit(s@[i as int]));
            return None;
        }
        let d = (c as u32 - 48) as u64;
        assert(d <= 9);
        assert(d == digit_value(s@[i as int]));
        proof {
            lemma_digits_value_step(s@, i as int);
        }
        if v > (limit - d) / 10 {
            proof {
                assert(v * 10 + d > limit) by (nonlinear_arith)
                    requires v > (limit - d) / 10, d <= 9, limit >= 9;
                assert forall|j: int| 0 <= j < i + 1 implies is_digit(#[trigger] s@.take(i + 1)[j]) by {
                    if j < i {
                        assert(s@.take(i + 1)[j] == s@.take(i as int)[j]);
                    }
                }
                if all_digits(s@) {
                    lemma_digits_value_monotone(s@, i + 1);
                }
            }
            return None;
        }
        v = v * 10 + d;
        i = i + 1;
        assert forall|j: int| 0 <= j < i implies is_digit(#[trigger] s@.take(i as int)[j]) by {
            if j < i - 1 {
                assert(s@.take(i as int)[j] == s@.take(i - 1)[j]);
            }
        }
    }
    assert(s@.take(i as int) =~= s@);
    Some(v)
}

/// The integer a text denotes under `str::parse::<i64>`: an optional `+` or
/// `-`, then one or more ASCII digits, the value within `i64`.
pub open spec fn parsed_i64(s: Seq<char>) -> Option<i64> {
    let (neg, body) = amount_body(s);
    if body.len() > 0 && all_digits(body) {
        let v: int = if neg { -(digits_value(body) as int) } else { digits_value(body) as int };
        if i64::MIN <= v <= i64::MAX { Some(v as i64) } else { None }
    } else {
        None
    }
}

/// `str::parse::<i64>`.
pub fn parse_i64(s: &[char]) -> (r: Option<i64>)
    ensures
        r == parsed_i64(s@),
{
    let (neg, start): (bool, usize) = if s.len() > 0 && s[0] == '-' {
        (true, 1)
    } else if s.len() > 0 && s[0] == '+' {
        (false, 1)
    } else {
        (false, 0)
    };
    let body = slice_chars(s, start, s.len());
    assert(body@ == amount_body(s@).1);
    if body.len() == 0 {
        return None;
    }
    let limit: u64 = if neg { 9223372036854775808u64 } else { 9223372036854775807u64 };
    match digits_upto(body.as_slice(), limit) {
        None => None,
        Some(v) => {
            if neg {
                if v == 9223372036854775808u64 {
                    Some(i64::MIN)
                } else {
                    Some(-(v as i64))
                }
            } else {
                Some(v as i64)
            }
        },
    }
}

/// Whether every character is an ASCII digit.
fn all_digits_exec(s: &[char]) -> (r: bool)
    ensures
        r == all_digits(s@),
{
    let mut i: usize = 0;
    while i < s.len()
        invariant
            i <= s@.len(),
            forall|j: int| 0 <= j < i ==> is_digit(#[trigger] s@[j]),
        decreases s.len() - i,
    {
        if !('0' <= s[i] && s[i] <= '9') {
            return false;
        }
        i = i + 1;
    }
    true
}

/// Value of a run of decimal digits, or `None` if a character is not a
/// digit or the value exceeds `limit`.
fn digits_upto_wide(s: &[char], limit: u128) -> (r: Option<u128>)
    requires
        limit >= 9,
    ensures
        r matches Some(v) ==> all_digits(s@) && v == digits_value(s@) && v <= limit,
        r is None ==> !all_digits(s@) || digits_value(s@) > limit,
{
    let mut v: u128 = 0;
    let mut i: usize = 0;
    assert(s@.take(0) =~= Seq::<char>::empty());
    while i < s.len()
        invariant
            i <= s@.len(),
            all_digits(s@.take(i as int)),
            v == digits_value(s@.take(i as int)),
            v <= limit,
            limit >= 9,
        decreases s.len() - i,
    {
        let c = s[i];
        if !('0' <= c && c <= '9') {
            assert(!is_digit(s@[i as int]));
            return None;
        }
        let d = (c as u32 - 48) as u128;
        assert(d <= 9);
        assert(d == digit_value(s@[i as int]));
        proof {
            lemma_digits_value_step(s@, i as int);
        }
        if v > (limit - d) / 10 {
            proof {
                assert(v * 10 + d > limit) by (nonlinear_arith)
                    requires v > (limit - d) / 10, d <= 9, limit >= 9;
                assert forall|j: int| 0 <= j < i + 1 implies is_digit(#[trigger] s@.take(i + 1)[j]) by {
                    if j < i {
                        assert(s@.take(i + 1)[j] == s@.take(i as int)[j]);
                    }
                }
                if all_digits(s@) {
                    lemma_digits_value_monotone(s@, i + 1);
                }
            }
            return None;
        }
        v = v * 10 + d;
        i = i + 1;
        assert forall|j: int| 0 <= j < i implies is_digit(#[trigger] s@.take(i as int)[j]) by {
            if j < i - 1 {
                assert(s@.take(i as int)[j] == s@.take(i - 1)[j]);
            }
        }
    }
    assert(s@.take(i as int) =~= s@);
    Some(v)
}

proof fn lemma_all_digits_concat(a: Seq<char>, b: Seq<char>)
    requires
        all_digits(a),
        all_digits(b),
    ensures
        all_digits(a + b),
{
    assert forall|j: int| 0 <= j < (a + b).len() implies is_digit(#[trigger] (a + b)[j]) by {
        if j < a.len() {
            assert((a + b)[j] == a[j]);
        } else {
            assert((a + b)[j] == b[j - a.len()]);
        }
    }
}

/// The value of two digit runs written one after the other.
proof fn lemma_digits_value_concat(a: Seq<char>, b: Seq<char>)
    requires
        all_digits(a),
        all_digits(b),
    ensures
        digits_value(a + b) == digits_value(a) * pow10(b.len()) + digits_value(b),
    decreases b.len(),
{
    if b.len() == 0 {
        assert(a + b =~= a);
        assert(pow10(0) == 1);
        assert(digits_value(b) == 0);
        assert(digits_value(a) * pow10(b.len()) == digits_value(a));
    } else {
        let bl = b.drop_last();
        assert((a + b).drop_last() =~= a + bl);
        assert((a + b).last() == b.last());
        assert(all_digits(bl)) by {
            assert forall|j: int| 0 <= j < bl.len() implies is_digit(#[trigger] bl[j]) by {
                assert(bl[j] == b[j]);
            }
        }
        lemma_digits_value_concat(a, bl);
        assert(is_digit(b[b.len() - 1]));
        let x: int = digits_value(a) as int;
        let p: int = pow10(bl.len()) as int;
        let y: int = digits_value(bl) as int;
        let d: int = digit_value(b.last());
        assert(0 <= d <= 9);
        assert(digits_value(a + b) == digits_value(a + bl) * 10 + d);
        assert(digits_value(b) == y * 10 + d);
        assert(pow10(b.len()) == 10 * p);
        assert((x * p + y) * 10 + d == x * (10 * p) + (y * 10 + d)) by (nonlinear_arith);
        assert(digits_value(a + bl) == x * p + y);
        assert(digits_value(a + b) == x * (10 * p) + digits_value(b));
    }
}

/// Rounding a digit run `s` of length `j >= 1` as a fraction of `10^j`:
/// one when its first digit is five or more, else zero.
proof fn lemma_round_bit(s: Seq<char>)
    requires
        s.len() >= 1,
        all_digits(s),
    ensures
        (digits_value(s) + 5 * pow10((s.len() - 1) as nat)) / pow10(s.len()) == (if s[0] >= '5' { 1int } else { 0int }),
{
    let j = s.len();
    let head = s.take(1);
    let rest = s.skip(1);
    assert(head + rest =~= s);
    assert(all_digits(head)) by {
        assert forall|i: int| 0 <= i < head.len() implies is_digit(#[trigger] head[i]) by {
            assert(head[i] == s[i]);
        }
    }
    assert(all_digits(rest)) by {
        assert forall|i: int| 0 <= i < rest.len() implies is_digit(#[trigger] rest[i]) by {
            assert(rest[i] == s[i + 1]);
        }
    }
    lemma_digits_value_concat(head, rest);
    assert(head.drop_last() =~= Seq::<char>::empty());
    assert(head.last() == s[0]);
    assert(digits_value(Seq::<char>::empty()) == 0);
    assert(is_digit(s[0]));
    let d0 = digit_value(s[0]);
    assert(digits_value(head) == digits_value(head.drop_last()) * 10 + d0);
    assert(digits_value(head) == d0);
    lemma_digits_value_bound(rest);
    lemma_pow10_pos(rest.len());
    let p: int = pow10(rest.len()) as int;
    let r: int = digits_value(rest) as int;
    assert(pow10(j) == 10 * p);
    let x: int = digits_value(s) + 5 * p;
    assert(x == d0 * p + r + 5 * p);
    if s[0] >= '5' {
        assert(5 <= d0 <= 9);
        assert(x - 10 * p < 10 * p) by (nonlinear_arith)
            requires x == d0 * p + r + 5 * p, 0 <= d0 <= 9, 0 <= r < p, p >= 1;
        assert(x - 10 * p >= 0) by (nonlinear_arith)
            requires x == d0 * p + r + 5 * p, d0 >= 5, r >= 0, p >= 1;
        vstd::arithmetic::div_mod::lemma_fundamental_div_mod_converse(x, 10 * p, 1, x - 10 * p);
    } else {
        assert(0 <= d0 <= 4);
        assert(x < 10 * p) by (nonlinear_arith)
            requires x == d0 * p + r + 5 * p, 0 <= d0 <= 4, 0 <= r < p, p >= 1;
        vstd::arithmetic::div_mod::lemma_fundamental_div_mod_converse(x, 10 * p, 0, x);
    }
}

/// Rounding away the last `j` digits of a digit run keeps the rest and adds
/// one when the first digit dropped is five or more.
proof fn lemma_scaled_rounded_cut(ds: Seq<char>, j: int)
    requires
        all_digits(ds),
        1 <= j <= ds.len(),
    ensures
        scaled_rounded(digits_value(ds), -j) == digits_value(ds.take(ds.len() - j)) + (if ds[ds.len() - j] >= '5' { 1int } else { 0int }),
{
    let cut = ds.len() - j;
    let pre = ds.take(cut);
    let suf = ds.skip(cut);
    assert(pre + suf =~= ds);
    assert(all_digits(pre)) by {
        assert forall|i: int| 0 <= i < pre.len() implies is_digit(#[trigger] pre[i]) by {
            assert(pre[i] == ds[i]);
        }
    }
    assert(all_digits(suf)) by {
        assert forall|i: int| 0 <= i < suf.len() implies is_digit(#[trigger] suf[i]) by {
            assert(suf[i] == ds[i + cut]);
        }
    }
    lemma_digits_value_concat(pre, suf);
    lemma_round_bit(suf);
    assert(suf[0] == ds[cut]);
    let p: int = pow10(j as nat) as int;
    let h: int = 5 * (pow10((j - 1) as nat) as int);
    let sv: int = digits_value(suf) as int;
    let pv: int = digits_value(pre) as int;
    let t: int = if ds[cut] >= '5' { 1 } else { 0 };
    lemma_pow10_pos(j as nat);
    lemma_digits_value_bound(suf);
    lemma_pow10_pos((j - 1) as nat);
    assert(p == 10 * pow10((j - 1) as nat));
    assert((sv + h) / p == t);
    vstd::arithmetic::div_mod::lemma_fundamental_div_mod(sv + h, p);
    let rr = (sv + h) % p;
    assert(sv + h == p * t + rr);
    assert(0 <= rr < p);
    assert(pv * p + sv + h == (pv + t) * p + rr) by (nonlinear_arith)
        requires sv + h == p * t + rr;
    vstd::arithmetic::div_mod::lemma_fundamental_div_mod_converse(pv * p + sv + h, p, pv + t, rr);
}

/// A digit run shorter than the number of digits rounded away rounds to zero.
proof fn lemma_scaled_rounded_vanishes(ds: Seq<char>, j: int)
    requires
        all_digits(ds),
        j > ds.len(),
    ensures
        scaled_rounded(digits_value(ds), -j) == 0,
{
    lemma_digits_value_bound(ds);
    lemma_pow10_le(ds.len(), (j - 1) as nat);
    let q: int = pow10((j - 1) as nat) as int;
    let x: int = digits_value(ds) + 5 * q;
    assert(pow10(j as nat) == 10 * q);
    assert(x < 10 * q);
    vstd::arithmetic::div_mod::lemma_fundamental_div_mod_converse(x, 10 * q, 0, x);
}

/// A non-zero digit run scaled up by nineteen or more places exceeds `2^63`.
proof fn lemma_scaled_rounded_large(n: nat, k: int)
    requires
        n >= 1,
        k >= 19,
    ensures
        scaled_rounded(n, k) > 9_223_372_036_854_775_808,
{
    lemma_pow10_le(19, k as nat);
    reveal_with_fuel(pow10, 20);
    let p = pow10(k as nat);
    assert(n * p >= p) by (nonlinear_arith)
        requires n >= 1, p >= 0;
}

/// `10^n` for `n <= 18`.
fn pow10_u64(n: u32) -> (r: u64)
    requires
        n <= 18,
    ensures
        r == pow10(n as nat),
{
    let mut r: u64 = 1;
    let mut i: u32 = 0;
    proof {
        reveal_with_fuel(pow10, 19);
    }
    while i < n
        invariant
            i <= n <= 18,
            r == pow10(i as nat),
            pow10(18) == 1_000_000_000_000_000_000,
        decreases n - i,
    {
        proof {
            lemma_pow10_le(i as nat + 1, 18);
        }
        r = r * 10;
        i = i + 1;
    }
    r
}

/// The exponent of an amount text: `None` when it is malformed, else its
/// sign and its magnitude, `None` in place of a magnitude above `10^30`.
fn exponent_of(t: &[char]) -> (r: Option<(bool, Option<u128>)>)
    ensures
        r is None <==> exponent_value(t@) is None,
        r matches Some((neg, Some(x))) ==> x <= 1_000_000_000_000_000_000_000_000_000_000u128
            && exponent_value(t@) == Some(if neg { -(x as int) } else { x as int }),
        r matches Some((neg, None)) ==> exponent_value(t@) matches Some(e)
            && (if neg { e < -1_000_000_000_000_000_000_000_000_000_000int } else { e > 1_000_000_000_000_000_000_000_000_000_000int }),
{
    let start: usize = if t.len() > 0 && (t[0] == '-' || t[0] == '+') { 1 } else { 0 };
    let neg = t.len() > 0 && t[0] == '-';
    let d = slice_chars(t, start, t.len());
    assert(d@ == amount_body(t@).1);
    assert(neg == amount_body(t@).0);
    if d.len() == 0 || !all_digits_exec(d.as_slice()) {
        return None;
    }
    match digits_upto_wide(d.as_slice(), 1_000_000_000_000_000_000_000_000_000_000u128) {
        Some(x) => Some((neg, Some(x))),
        None => Some((neg, None)),
    }
}

/// `mag` with the sign `neg`, if the result fits in an `i64`; `mag` is known
/// only up to `2^63`, `None` standing for any larger magnitude.
fn signed_amount(neg: bool, mag: Option<u128>) -> (r: Option<i64>)
    requires
        mag matches Some(m) ==> m <= 9_223_372_036_854_775_809,
    ensures
        mag matches Some(m) ==> r == (if i64::MIN <= (if neg { -(m as int) } else { m as int }) <= i64::MAX {
            Some((if neg { -(m as int) } else { m as int }) as i64)
        } else {
            None::<i64>
        }),
        mag is None ==> r is None,
{
    match mag {
        None => None,
        Some(m) => {
            let v: i128 = if neg { -(m as i128) } else { m as i128 };
            if v < i64::MIN as i128 || v > i64::MAX as i128 {
                None
            } else {
                Some(v as i64)
            }
        },
    }
}

/// `digits * 10^k`, known only up to `2^63`.
fn scale_up(ds: &[char], k: i128) -> (r: Option<u128>)
    requires
        all_digits(ds@),
        k >= 0,
    ensures
        r matches Some(m) ==> m <= 9_223_372_036_854_775_808 && m == scaled_rounded(digits_value(ds@), k as int),
        r is None ==> scaled_rounded(digits_value(ds@), k as int) > 9_223_372_036_854_775_808,
{
    match digits_upto_wide(ds, 9_223_372_036_854_775_808u128) {
        None => {
            proof {
                lemma_pow10_pos(k as nat);
                let p: int = pow10(k as nat) as int;
                let n: int = digits_value(ds@) as int;
                assert(n * p >= n) by (nonlinear_arith)
                    requires p >= 1, n >= 0;
            }
            None
        },
        Some(v) => {
            if v == 0 {
                assert(scaled_rounded(0, k as int) == 0);
                Some(0u128)
            } else if k > 18 {
                proof {
                    lemma_scaled_rounded_large(digits_value(ds@), k as int);
                }
                None
            } else {
                let p = pow10_u64(k as u32);
                proof {
                    lemma_pow10_le(k as nat, 18);
                    reveal_with_fuel(pow10, 19);
                }
                assert(v * p <= 9_223_372_036_854_775_808u128 * 1_000_000_000_000_000_000u128) by (nonlinear_arith)
                    requires v <= 9_223_372_036_854_775_808u128, p <= 1_000_000_000_000_000_000u128;
                let m = v * (p as u128);
                assert(m == scaled_rounded(digits_value(ds@), k as int));
                if m > 9_223_372_036_854_775_808u128 {
                    None
                } else {
                    Some(m)
                }
            }
        },
    }
}

/// `digits / 10^j` rounded to the nearest integer, halves up, known only up
/// to `2^63`.
fn scale_down(ds: &[char], j: i128) -> (r: Option<u128>)
    requires
        all_digits(ds@),
        j >= 1,
    ensures
        r matches Some(m) ==> m <= 9_223_372_036_854_775_808 && m == scaled_rounded(digits_value(ds@), -j),
        r is None ==> scaled_rounded(digits_value(ds@), -j) > 9_223_372_036_854_775_808,
{
    if j > ds.len() as i128 {
        proof {
            lemma_scaled_rounded_vanishes(ds@, j as int);
        }
        return Some(0u128);
    }
    let cut: usize = (ds.len() as i128 - j) as usize;
    let pre = slice_chars(ds, 0, cut);
    proof {
        lemma_scaled_rounded_cut(ds@, j as int);
        assert(pre@ =~= ds@.take(ds@.len() - j));
    }
    let up: u128 = if ds[cut] >= '5' { 1 } else { 0 };
    match digits_upto_wide(pre.as_slice(), 9_223_372_036_854_775_808u128) {
        None => None,
        Some(v) => {
            let m = v + up;
            if m > 9_223_372_036_854_775_808u128 {
                None
            } else {
                Some(m)
            }
        },
    }
}

/// The magnitude, in micros, of mantissa digits `ds` with `f` fraction
/// digits under the exponent `e` (sign `eneg`, magnitude `x`, `None` above
/// `10^30`), known only up to `2^63`.
fn rounded_magnitude(ds: &[char], f: usize, eneg: bool, x: Option<u128>, Ghost(e): Ghost<int>) -> (r: Option<u128>)
    requires
        all_digits(ds@),
        f <= ds@.len(),
        x matches Some(v) ==> v <= 1_000_000_000_000_000_000_000_000_000_000u128 && e == (if eneg { -(v as int) } else { v as int }),
        x is None ==> (if eneg { e < -1_000_000_000_000_000_000_000_000_000_000int } else { e > 1_000_000_000_000_000_000_000_000_000_000int }),
    ensures
        r matches Some(m) ==> m <= 9_223_372_036_854_775_808 && m == scaled_rounded(digits_value(ds@), 6 + e - f),
        r is None ==> scaled_rounded(digits_value(ds@), 6 + e - f) > 9_223_372_036_854_775_808,
{
    let ghost k: int = 6 + e - f;
    let n = ds.len();
    assert(n == ds@.len());
    match x {
        None => {
            if eneg {
                proof {
                    lemma_scaled_rounded_vanishes(ds@, -k);
                    assert(scaled_rounded(digits_value(ds@), k) == 0);
                }
                Some(0u128)
            } else {
                match digits_upto_wide(ds, 9) {
                    Some(v) if v == 0 => {
                        assert(k >= 0);
                        assert(scaled_rounded(0, k) == 0);
                        Some(0u128)
                    },
                    _ => {
                        proof {
                            lemma_scaled_rounded_large(digits_value(ds@), k);
                        }
                        None
                    },
                }
            }
        },
        Some(v) => {
            let kk: i128 = if eneg { 6 - (v as i128) - (f as i128) } else { 6 + (v as i128) - (f as i128) };
            assert(kk == k);
            if kk >= 0 {
                scale_up(ds, kk)
            } else {
                scale_down(ds, -kk)
            }
        },
    }
}

/// The integer digits, the fraction digits and the exponent text of a
/// sign-free amount text.
fn amount_pieces(body: &[char]) -> (r: (Vec<char>, Vec<char>, Option<Vec<char>>))
    ensures
        r.0@ == amount_parts(mantissa_and_exponent(body@).0).0,
        r.1@ == amount_parts(mantissa_and_exponent(body@).0).1,
        r.2 matches Some(t) ==> mantissa_and_exponent(body@).1 == Some(t@),
        r.2 is None ==> mantissa_and_exponent(body@).1 is None,
{
    let blen = body.len();
    assert(blen == body@.len());
    let marker = match find_first(body, 'e') {
        Some(m) => Some(m),
        None => find_first(body, 'E'),
    };
    let (mant, exp_text): (Vec<char>, Option<Vec<char>>) = match marker {
        Some(m) => (slice_chars(body, 0, m), Some(slice_chars(body, m + 1, blen))),
        None => (slice_chars(body, 0, blen), None),
    };
    proof {
        let (smant, sexp) = mantissa_and_exponent(body@);
        assert(mant@ =~= smant);
        if exp_text is Some {
            assert(sexp == Some(exp_text.unwrap()@));
        } else {
            assert(sexp is None);
        }
    }
    let (ip, fp) = match find_first(mant.as_slice(), '.') {
        Some(d) => (slice_chars(mant.as_slice(), 0, d), slice_chars(mant.as_slice(), d + 1, mant.len())),
        None => (slice_chars(mant.as_slice(), 0, mant.len()), Vec::new()),
    };
    proof {
        let (sip, sfp) = amount_parts(mant@);
        assert(ip@ =~= sip);
        assert(fp@ =~= sfp);
    }
    (ip, fp, exp_text)
}

/// Read an amount text into micros; `None` when it is malformed or out of
/// range.
pub fn parse_amount(s: &[char]) -> (r: Option<i64>)
    ensures
        r == parsed_amount(s@),
{
    let start: usize = if s.len() > 0 && (s[0] == '-' || s[0] == '+') { 1 } else { 0 };
    let neg = s.len() > 0 && s[0] == '-';
    let body = slice_chars(s, start, s.len());
    assert(body@ == amount_body(s@).1);
    assert(neg == amount_body(s@).0);
    let (ip, fp, exp_text) = amount_pieces(body.as_slice());
    if ip.len() == 0 && fp.len() == 0 {
        return None;
    }
    if !all_digits_exec(ip.as_slice()) || !all_digits_exec(fp.as_slice()) {
        return None;
    }
    let exponent: (bool, Option<u128>) = match &exp_text {
        None => (false, Some(0u128)),
        Some(t) => match exponent_of(t.as_slice()) {
            None => {
                return None;
            },
            Some(x) => x,
        },
    };
    let ghost e: int = if exp_text is Some { exponent_value(exp_text.unwrap()@).unwrap() } else { 0 };
    let mut digits = copy_chars(ip.as_slice());
    push_chars(&mut digits, fp.as_slice());
    let ghost ds = ip@ + fp@;
    proof {
        assert(digits@ == ds);
        lemma_all_digits_concat(ip@, fp@);
        assert(amount_value(s@) == Some(
            if neg { -(scaled_rounded(digits_value(ds), 6 + e - fp@.len()) as int) } else { scaled_rounded(digits_value(ds), 6 + e - fp@.len()) as int },
        ));
    }
    let mag = rounded_magnitude(digits.as_slice(), fp.len(), exponent.0, exponent.1, Ghost(e));
    signed_amount(neg, mag)
}

proof fn lemma_pow10_pos(n: nat)
    ensures
        pow10(n) >= 1,
    decreases n,
{
    if n > 0 {
        lemma_pow10_pos((n - 1) as nat);
    }
}

proof fn lemma_digits_value_bound(s: Seq<char>)
    requires
        all_digits(s),
    ensures
        digits_value(s) < pow10(s.len()),
    decreases s.len(),
{
    if s.len() > 0 {
        assert(all_digits(s.drop_last())) by {
            assert forall|j: int| 0 <= j < s.len() - 1 implies is_digit(#[trigger] s.drop_last()[j]) by {
                assert(s.drop_last()[j] == s[j]);
            }
        }
        lemma_digits_value_bound(s.drop_last());
        assert(is_digit(s[s.len() - 1]));
        let p = pow10((s.len() - 1) as nat);
        let v = digits_value(s.drop_last());
        let d = digit_value(s.last());
        assert(v * 10 + d < p * 10) by (nonlinear_arith)
            requires v < p, 0 <= d <= 9;
    }
}

proof fn lemma_pow10_le(a: nat, b: nat)
    requires
        a <= b,
    ensures
        pow10(a) <= pow10(b),
    decreases b,
{
    if a < b {
        lemma_pow10_le(a, (b - 1) as nat);
        lemma_pow10_pos((b - 1) as nat);
    }
}

fn pow10_exec(n: usize) -> (r: u64)
    requires
        n <= 6,
    ensures
        r == pow10(n as nat),
        1 <= r <= 1_000_000,
{
    let mut r: u64 = 1;
    let mut i: usize = 0;
    proof {
        reveal_with_fuel(pow10, 7);
    }
    while i < n
        invariant
            i <= n <= 6,
            r == pow10(i as nat),
            pow10(6) == 1_000_000,
        decreases n - i,
    {
        proof {
            lemma_pow10_le(i as nat + 1, 6);
        }
        r = r * 10;
        i = i + 1;
    }
    proof {
        lemma_pow10_le(n as nat, 6);
        lemma_pow10_pos(n as nat);
    }
    r
}

/// The six fractional digits of `f < 10^6`, zero-padded.
pub open spec fn six_digits(f: nat) -> Seq<char> {
    Seq::new(6, |i: int| digit_char((f / pow10((5 - i) as nat)) % 10))
}

/// `s` without its trailing `0` characters.
pub open spec fn trim_trailing_zeros(s: Seq<char>) -> Seq<char>
    decreases s.len(),
{
    if s.len() > 0 && s.last() == '0' {
        trim_trailing_zeros(s.drop_last())
    } else {
        s
    }
}

/// Shortest decimal text of an amount in micros: sign, integer part and, if
/// non-zero, the fraction without trailing zeros (`-50000000` → `"-50"`,
/// `100500000` → `"100.5"`).
pub open spec fn amount_text(m: int) -> Seq<char> {
    let a = if m < 0 { -m } else { m };
    let ip = (a / 1_000_000) as nat;
    let fp = (a % 1_000_000) as nat;
    (if m < 0 { seq!['-'] } else { Seq::<char>::empty() }) + decimal(ip)
        + (if fp == 0 { Seq::<char>::empty() } else { seq!['.'] + trim_trailing_zeros(six_digits(fp)) })
}

/// Decimal text of an amount in micros (see [`amount_text`]).
pub fn format_amount(m: i64) -> (r: Vec<char>)
    ensures
        r@ == amount_text(m as int),
{
    let a: u64 = if m < 0 {
        if m == i64::MIN { 9223372036854775808u64 } else { (-m) as u64 }
    } else {
        m as u64
    };
    assert(a as int == if m < 0 { -(m as int) } else { m as int });
    let ip = a / 1_000_000;
    let fp = a % 1_000_000;
    let mut r: Vec<char> = Vec::new();
    if m < 0 {
        r.push('-');
    }
    let d = decimal_u64(ip);
    push_chars(&mut r, d.as_slice());
    if fp != 0 {
        r.push('.');
        let mut digits: Vec<char> = Vec::new();
        let mut k: usize = 0;
        proof {
            reveal_with_fuel(pow10, 7);
        }
        while k < 6
            invariant
                k <= 6,
                fp < 1_000_000,
                pow10(6) == 1_000_000,
                digits@ == six_digits(fp as nat).take(k as int),
            decreases 6 - k,
        {
            let p = pow10_exec(5 - k);
            let dg = ((fp / p) % 10) as u8;
            let ch = (dg + 48u8) as char;
            digits.push(ch);
            k = k + 1;
            assert(digits@ =~= six_digits(fp as nat).take(k as int));
        }
        assert(digits@ =~= six_digits(fp as nat));
        let mut len: usize = 6;
        while len > 0 && digits[len - 1] == '0'
            invariant
                len <= 6,
                digits@.len() == 6,
                trim_trailing_zeros(six_digits(fp as nat)) == trim_trailing_zeros(digits@.take(len as int)),
            decreases len,
        {
            assert(digits@.take(len as int).drop_last() =~= digits@.take(len - 1));
            len = len - 1;
        }
        let kept = slice_chars(digits.as_slice(), 0, len);
        assert(trim_trailing_zeros(digits@.take(len as int)) == digits@.take(len as int));
        push_chars(&mut r, kept.as_slice());
    }
    r
}

} // verus!
