//! Decimal text for integers and fixed-point values.
//!
//! `fmt_value` renders a `Value` as the shortest decimal numeral that reads
//! back to exactly the same raw representation under `round-half-up on the
//! magnitude` rounding; `spec_fmt_value` pins that text down in full.  The
//! same rounding rule is shared with the command-line parser, so a value
//! echoed by a report command parses back to the value that was set.

use vstd::arithmetic::div_mod::lemma_fundamental_div_mod;
use vstd::arithmetic::div_mod::lemma_fundamental_div_mod_converse;
use vstd::prelude::*;

use crate::value::Value;

verus! {

/// Ten to the `k`.
pub open spec fn pow10(k: nat) -> int
    decreases k,
{
    if k == 0 {
        1
    } else {
        10 * pow10((k - 1) as nat)
    }
}

/// The character of the decimal digit `d`.
pub open spec fn digit_char(d: int) -> char
    recommends
        0 <= d <= 9,
{
    ((d + 48) as u8) as char
}

/// The decimal numeral of the nonnegative integer `n`, without padding.
pub open spec fn dec_str(n: int) -> Seq<char>
    recommends
        n >= 0,
    decreases n,
{
    if n < 10 {
        seq![digit_char(n)]
    } else {
        dec_str(n / 10).push(digit_char(n % 10))
    }
}

/// The last `k` decimal digits of `n`, zero-padded to exactly `k` characters.
pub open spec fn dec_str_pad(n: int, k: nat) -> Seq<char>
    recommends
        n >= 0,
    decreases k,
{
    if k == 0 {
        Seq::empty()
    } else {
        dec_str_pad(n / 10, (k - 1) as nat).push(digit_char(n % 10))
    }
}

/// The scaled decimal numerator nearest to `mag / 65536` at `k` fractional
/// digits: `round(mag * 10^k / 65536)`, rounding half up.
pub open spec fn round_dec(mag: int, k: nat) -> int
    recommends
        mag >= 0,
{
    (2 * mag * pow10(k) + 65536) / (2 * 65536int)
}

/// The raw magnitude nearest to the decimal `num / 10^k`:
/// `round(num * 65536 / 10^k)`, rounding half up.
pub open spec fn round_raw(num: int, k: nat) -> int
    recommends
        num >= 0,
{
    (2 * num * 65536 + pow10(k)) / (2 * pow10(k))
}

/// True when `k` fractional digits are enough for the decimal reading of
/// `mag` to round back to `mag` itself.
pub open spec fn k_fits(mag: int, k: nat) -> bool {
    round_raw(round_dec(mag, k), k) == mag
}

/// The smallest `k` in `[from, 16]` that fits `mag`; sixteen digits always
/// fit, because `10^16` is a multiple of `65536`.
pub open spec fn first_fit_k(mag: int, from: nat) -> nat
    decreases 16 - from,
{
    if from >= 16 || k_fits(mag, from) {
        from
    } else {
        first_fit_k(mag, (from + 1) as nat)
    }
}

/// The decimal text of the nonnegative magnitude `mag / 65536`: the
/// shortest numeral that rounds back to `mag`.
pub open spec fn spec_fmt_mag(mag: int) -> Seq<char>
    recommends
        mag >= 0,
{
    let k = first_fit_k(mag, 0);
    let c = round_dec(mag, k);
    if k == 0 {
        dec_str(c)
    } else {
        dec_str(c / pow10(k)) + seq!['.'] + dec_str_pad(c % pow10(k), k)
    }
}

/// The decimal text of the fixed-point value with raw representation `raw`.
pub open spec fn spec_fmt_value(raw: int) -> Seq<char> {
    if raw < 0 {
        seq!['-'] + spec_fmt_mag(-raw)
    } else {
        spec_fmt_mag(raw)
    }
}

/// Relies on `String::push` from std: it appends exactly the given
/// character to the end of the string.
#[verifier::external_body]
pub fn push_char(s: &mut String, c: char)
    ensures
        final(s)@ == old(s)@.push(c),
{
    s.push(c);
}

/// Ten to the `k`, computed.
pub fn pow10_exec(k: usize) -> (r: u128)
    requires
        k <= 16,
    ensures
        r == pow10(k as nat),
{
    let mut i: usize = 0;
    let mut r: u128 = 1;
    proof {
        lemma_pow10_bound(k as nat);
    }
    while i < k
        invariant
            i <= k <= 16,
            r == pow10(i as nat),
            pow10(k as nat) <= 0x2386F26FC10000,
        decreases k - i,
    {
        proof {
            lemma_pow10_le(i as nat + 1, k as nat);
        }
        r = r * 10;
        i = i + 1;
    }
    r
}

/// `pow10` grows with its argument.
pub proof fn lemma_pow10_le(a: nat, b: nat)
    requires
        a <= b,
    ensures
        pow10(a) <= pow10(b),
        pow10(a) >= 1,
    decreases b,
{
    if a < b {
        lemma_pow10_le(a, (b - 1) as nat);
    } else if a > 0 {
        lemma_pow10_le((a - 1) as nat, (b - 1) as nat);
    }
}

/// `pow10` of anything up to sixteen stays below `2^54`.
proof fn lemma_pow10_bound(k: nat)
    requires
        k <= 16,
    ensures
        1 <= pow10(k) <= 0x2386F26FC10000,
{
    lemma_pow10_le(k, 16);
    lemma_pow10_le(0, k);
    assert(pow10(16) == 0x2386F26FC10000) by {
        reveal_with_fuel(pow10, 17);
    };
}

/// The decimal numeral of `n`, one digit per recursion step.
pub fn fmt_nat(n: u128) -> (s: String)
    ensures
        s@ == dec_str(n as int),
    decreases n,
{
    if n < 10 {
        let mut s = String::new();
        push_char(&mut s, (48 + n as u8) as char);
        s
    } else {
        let mut s = fmt_nat(n / 10);
        push_char(&mut s, (48 + (n % 10) as u8) as char);
        s
    }
}

/// The last `k` decimal digits of `n`, zero-padded.
pub fn fmt_nat_pad(n: u128, k: usize) -> (s: String)
    ensures
        s@ == dec_str_pad(n as int, k as nat),
    decreases k,
{
    if k == 0 {
        String::new()
    } else {
        let mut s = fmt_nat_pad(n / 10, k - 1);
        push_char(&mut s, (48 + (n % 10) as u8) as char);
        s
    }
}

/// The decimal numeral of a machine integer.
pub fn fmt_usize(n: usize) -> (s: String)
    ensures
        s@ == dec_str(n as int),
{
    fmt_nat(n as u128)
}

/// The decimal numeral of a 32-bit count.
pub fn fmt_u32(n: u32) -> (s: String)
    ensures
        s@ == dec_str(n as int),
{
    fmt_nat(n as u128)
}

/// Sixteen fractional digits always read back exactly, because
/// `10^16 = 152587890625 * 65536`.
pub proof fn lemma_k16_fits(mag: int)
    requires
        0 <= mag <= 0x8000_0000,
    ensures
        k_fits(mag, 16),
{
    let p = pow10(16);
    let t = 152587890625int;
    let u = 65536int;
    assert(pow10(16) == 152587890625int * 65536int) by {
        reveal_with_fuel(pow10, 17);
    };
    assert(2 * mag * p + u == (mag * t) * (2 * u) + u) by (nonlinear_arith)
        requires
            p == t * u,
    ;
    lemma_fundamental_div_mod_converse(2 * mag * p + u, 2 * u, mag * t, u);
    assert(round_dec(mag, 16) == mag * t);
    assert(2 * (mag * t) * u + p == mag * (2 * p) + p) by (nonlinear_arith)
        requires
            p == t * u,
    ;
    lemma_fundamental_div_mod_converse(2 * (mag * t) * u + p, 2 * p, mag, p);
    assert(round_raw(mag * t, 16) == mag);
}

/// `first_fit_k` lands on `k` when every smaller width fails and `k` fits.
proof fn lemma_first_fit_from(mag: int, from: nat, k: nat)
    requires
        from <= k <= 16,
        forall|j: nat| from <= j < k ==> !k_fits(mag, j),
        k_fits(mag, k) || k == 16,
    ensures
        first_fit_k(mag, from) == k,
    decreases k - from,
{
    if from < k {
        lemma_first_fit_from(mag, (from + 1) as nat, k);
    }
}

/// A digit character carries its digit: the cast chain lands back on
/// the code point.
pub proof fn lemma_digit_char_val(d: int)
    requires
        0 <= d <= 9,
    ensures
        digit_char(d) as u32 == d + 48,
        48 <= digit_char(d) as u32 <= 57,
{
}

/// `dec_str` writes at least one character, all of them digits.
pub proof fn lemma_dec_str_digits(n: int)
    requires
        n >= 0,
    ensures
        dec_str(n).len() >= 1,
        forall|m: int| 0 <= m < dec_str(n).len() ==> 48 <= #[trigger] (dec_str(n)[m] as u32) <= 57,
    decreases n,
{
    if n < 10 {
        lemma_digit_char_val(n);
    } else {
        lemma_dec_str_digits(n / 10);
        lemma_digit_char_val(n % 10);
    }
}

/// A number below ten to the `m` writes at most `m` digits.
pub proof fn lemma_dec_str_len(n: int, m: nat)
    requires
        0 <= n < pow10(m),
        m >= 1,
    ensures
        dec_str(n).len() <= m,
    decreases m,
{
    if n >= 10 {
        assert(pow10(m) == 10 * pow10((m - 1) as nat));
        lemma_dec_str_len(n / 10, (m - 1) as nat);
    }
}

/// `dec_str_pad` writes exactly `k` characters, all of them digits.
pub proof fn lemma_dec_str_pad_digits(n: int, k: nat)
    requires
        n >= 0,
    ensures
        dec_str_pad(n, k).len() == k,
        forall|m: int|
            0 <= m < k ==> 48 <= #[trigger] (dec_str_pad(n, k)[m] as u32) <= 57,
    decreases k,
{
    if k > 0 {
        lemma_dec_str_pad_digits(n / 10, (k - 1) as nat);
        lemma_digit_char_val(n % 10);
    }
}

/// Seven fractional digits always read back: the decimal grid at seven
/// digits is finer than half the spacing of the raw grid.
pub proof fn lemma_k7_fits(mag: int)
    requires
        mag >= 0,
    ensures
        k_fits(mag, 7),
{
    let p = pow10(7);
    let u = 65536int;
    assert(pow10(7) == 10000000) by {
        reveal_with_fuel(pow10, 8);
    };
    let cand = round_dec(mag, 7);
    lemma_fundamental_div_mod(2 * mag * p + u, 2 * u);
    assert(2 * u * cand <= 2 * mag * p + u < 2 * u * (cand + 1));
    let x = 2 * cand * u + p;
    assert(0 <= x - 2 * p * mag < 2 * p) by (nonlinear_arith)
        requires
            p == 10000000,
            u == 65536,
            mag >= 0,
            2 * u * cand <= 2 * mag * p + u < 2 * u * (cand + 1),
            x == 2 * cand * u + p,
    ;
    assert(x == mag * (2 * p) + (x - 2 * p * mag)) by (nonlinear_arith);
    lemma_fundamental_div_mod_converse(x, 2 * p, mag, x - 2 * p * mag);
    assert(round_raw(cand, 7) == mag);
}

/// The width the formatter picks is never more than seven digits.
pub proof fn lemma_first_fit_small(mag: int, from: nat)
    requires
        mag >= 0,
        from <= 7,
    ensures
        first_fit_k(mag, from) <= 7,
        k_fits(mag, first_fit_k(mag, from)),
    decreases 7 - from,
{
    if k_fits(mag, from) {
    } else if from < 7 {
        lemma_first_fit_small(mag, (from + 1) as nat);
    } else {
        lemma_k7_fits(mag);
    }
}

/// Renders the decimal text of a fixed-point value: the shortest numeral
/// that rounds back, under half-up rounding of the magnitude, to exactly
/// the value given.
pub fn fmt_value(v: Value) -> (s: String)
    ensures
        s@ == spec_fmt_value(v.raw as int),
{
    let neg: bool = v.raw < 0;
    let mag: u128 = if v.raw < 0 {
        (-(v.raw as i64)) as u128
    } else {
        v.raw as u128
    };
    let mut k: usize = 0;
    loop
        invariant
            neg == (v.raw < 0),
            mag == if v.raw < 0 {
                -(v.raw as int)
            } else {
                v.raw as int
            },
            mag <= 0x8000_0000,
            k <= 16,
            forall|j: nat| j < k ==> !k_fits(mag as int, j),
        decreases 17 - k,
    {
        let p: u128 = pow10_exec(k);
        proof {
            lemma_pow10_bound(k as nat);
            assert(2 * (mag as int) * (p as int) <= 2 * 0x8000_0000 * 0x2386F26FC10000)
                by (nonlinear_arith)
                requires
                    0 <= mag as int <= 0x8000_0000,
                    0 <= p as int <= 0x2386F26FC10000,
            ;
        }
        let cand: u128 = (2 * mag * p + 65536) / (2 * 65536);
        proof {
            assert((2 * (mag as int) * (p as int) + 65536) / (2 * 65536int) <= 2 * (mag as int) * (
            p as int) + 65536);
            assert(2 * (cand as int) * 65536 <= 2 * (0x2386F26FC10001 * 0x2386F26FC10000) * 65536)
                by (nonlinear_arith)
                requires
                    0 <= cand as int <= 0x2386F26FC10001 * 0x2386F26FC10000,
            ;
        }
        let back: u128 = (2 * cand * 65536 + p) / (2 * p);
        proof {
            if k == 16 {
                lemma_k16_fits(mag as int);
            }
        }
        if back == mag {
            proof {
                lemma_first_fit_from(mag as int, 0, k as nat);
            }
            let int_part: u128 = cand / p;
            let frac_part: u128 = cand % p;
            let mut s = String::new();
            if neg {
                push_char(&mut s, '-');
            }
            let digits = fmt_nat(int_part);
            s.append(digits.as_str());
            if k > 0 {
                push_char(&mut s, '.');
                let frac = fmt_nat_pad(frac_part, k);
                s.append(frac.as_str());
            }
            proof {
                let m = mag as int;
                let kk = k as nat;
                assert(cand == round_dec(m, kk));
                assert(back == round_raw(cand as int, kk));
                assert(k_fits(m, kk));
                assert(first_fit_k(m, 0) == kk);
                if k == 0 {
                    assert(cand / p == cand) by {
                        assert(p == 1);
                    };
                    assert(s@ =~= (if neg {
                        seq!['-'] + dec_str(cand as int)
                    } else {
                        dec_str(cand as int)
                    }));
                } else {
                    assert(s@ =~= (if neg {
                        seq!['-'] + (dec_str(int_part as int) + seq!['.'] + dec_str_pad(
                            frac_part as int,
                            kk,
                        ))
                    } else {
                        dec_str(int_part as int) + seq!['.'] + dec_str_pad(frac_part as int, kk)
                    }));
                }
                if k == 0 {
                    assert(spec_fmt_mag(m) == dec_str(cand as int));
                } else {
                    assert(int_part as int == (cand as int) / pow10(kk));
                    assert(frac_part as int == (cand as int) % pow10(kk));
                    assert(spec_fmt_mag(m) == dec_str(int_part as int) + seq!['.'] + dec_str_pad(
                        frac_part as int,
                        kk,
                    ));
                }
                if neg {
                    assert(spec_fmt_value(v.raw as int) == seq!['-'] + spec_fmt_mag(m));
                } else {
                    assert(spec_fmt_value(v.raw as int) == spec_fmt_mag(m));
                }
                assert(s@ =~= spec_fmt_value(v.raw as int));
            }
            return s;
        }
        proof {
            assert(!k_fits(mag as int, k as nat));
            if k == 16 {
                assert(false);
            }
        }
        k = k + 1;
    }
}

} // verus!
