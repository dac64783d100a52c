//! One-decimal rendering of ratings held in hundredths, exactly as a
//! binary64 rating is printed with `{:.1}`.
//!
//! A rating of `m` hundredths stands for the binary64 number nearest to
//! `m / 100` (what the decimal text `m/100` reads as). That number is printed
//! rounded to tenths, halves to even, on its exact binary value: `7.25` is
//! exactly representable and prints as `7.2`, while `7.35` is stored slightly
//! below and prints as `7.3`, and `7.45` slightly above and prints as `7.5`.

use vstd::prelude::*;
use vstd::arithmetic::power2::{lemma2_to64, lemma2_to64_rest, lemma_pow2_strictly_increases, lemma_pow2_unfold, pow2};
use crate::text::{nat_digits, push_char, push_nat};

verus! {

/// `n / d` rounded to the nearest integer, halves to even.
pub open spec fn round_half_even(n: nat, d: nat) -> nat
    recommends
        d > 0,
{
    let q = n / d;
    let r = n % d;
    if 2 * r > d || (2 * r == d && q % 2 == 1) {
        q + 1
    } else {
        q
    }
}

/// Whether `a · 2^u / 3200` is below `2^53`.
pub open spec fn scaled_below(a: nat, u: nat) -> bool {
    a * pow2(u) < 3200 * pow2(53)
}

/// Counting down from `u`, the first scale at which `a · 2^u / 3200` is below
/// `2^53`. From `u = 64` this is the scale at which `a / 100 = (a · 2^u /
/// 3200) · 2^(5 - u)` has its significand in `[2^52, 2^53)`, the binary64
/// layout of `a / 100` (for every `a` below `2^64`).
pub open spec fn scale_search(a: nat, u: nat) -> nat
    decreases u,
{
    if u == 0 || scaled_below(a, u) {
        u
    } else {
        scale_search(a, (u - 1) as nat)
    }
}

/// `a / 100` as binary64 (a 53-bit significand rounded halves to even),
/// then times ten rounded halves to even: the tenths `{:.1}` prints.
pub open spec fn f64_tenths(a: nat) -> nat {
    let u = scale_search(a, 64);
    let significand = round_half_even(a * pow2(u), 3200);
    round_half_even(320 * significand, pow2(u))
}

/// A rating of `m` hundredths as `{:.1}` prints the binary64 nearest to
/// `m / 100`: a `-` for a negative rating (also when it rounds to zero), the
/// whole part, a `.` and one decimal.
pub open spec fn rating_text(m: int) -> Seq<char> {
    let t = f64_tenths(if m < 0 {
        (-m) as nat
    } else {
        m as nat
    });
    (if m < 0 {
        seq!['-']
    } else {
        seq![]
    }) + nat_digits(t / 10) + seq!['.'] + nat_digits(t % 10)
}

fn round_half_even_u128(n: u128, d: u128) -> (r: u128)
    requires
        0 < d <= 0x1_0000_0000_0000_0000,
        n < 0x1_0000_0000_0000_0000_0000_0000_0000_0000 - 1,
    ensures
        r == round_half_even(n as nat, d as nat),
        r <= n / d + 1,
{
    let q = n / d;
    let r = n % d;
    if 2 * r > d || (2 * r == d && q % 2 == 1) {
        q + 1
    } else {
        q
    }
}

fn pow2_u128(u: u32) -> (r: u128)
    requires
        u <= 64,
    ensures
        r == pow2(u as nat),
        1 <= r <= 0x1_0000_0000_0000_0000,
{
    proof {
        lemma2_to64();
    }
    let mut r: u128 = 1;
    let mut i: u32 = 0;
    while i < u
        invariant
            i <= u <= 64,
            r == pow2(i as nat),
            pow2(64) == 0x1_0000_0000_0000_0000,
        decreases u - i,
    {
        proof {
            lemma_pow2_unfold((i + 1) as nat);
            lemma_pow2_strictly_increases(i as nat, 64);
        }
        r = r * 2;
        i = i + 1;
    }
    proof {
        if u < 64 {
            lemma_pow2_strictly_increases(u as nat, 64);
        }
        vstd::arithmetic::power2::lemma_pow2_pos(u as nat);
    }
    r
}

/// The tenths `{:.1}` prints for a rating of `a` hundredths.
fn f64_tenths_u64(a: u64) -> (t: u64)
    ensures
        t == f64_tenths(a as nat),
{
    proof {
        lemma2_to64();
        lemma2_to64_rest();
    }
    let limit: u128 = 28823037615171174400;
    assert(limit == 3200 * pow2(53));
    let mut u: u32 = 64;
    let mut p: u128 = pow2_u128(64);
    assert((a as nat) * (p as nat) < 0x1_0000_0000_0000_0000_0000_0000_0000_0000 - 1) by (nonlinear_arith)
        requires
            a < 0x1_0000_0000_0000_0000,
            p <= 0x1_0000_0000_0000_0000,
    ;
    let mut n: u128 = (a as u128) * p;
    while u > 0 && n >= limit
        invariant
            u <= 64,
            p == pow2(u as nat),
            1 <= p <= 0x1_0000_0000_0000_0000,
            n == (a as nat) * (p as nat),
            n < 0x1_0000_0000_0000_0000_0000_0000_0000_0000 - 1,
            scale_search(a as nat, u as nat) == scale_search(a as nat, 64),
            limit == 3200 * pow2(53),
        decreases u,
    {
        u = u - 1;
        p = pow2_u128(u);
        assert((a as nat) * (p as nat) < 0x1_0000_0000_0000_0000_0000_0000_0000_0000 - 1) by (nonlinear_arith)
            requires
                a < 0x1_0000_0000_0000_0000,
                p <= 0x1_0000_0000_0000_0000,
        ;
        n = (a as u128) * p;
    }
    assert(scale_search(a as nat, u as nat) == u);
    assert(n < limit) by {
        if u == 0 {
            assert(p == 1);
            assert(n == a) by (nonlinear_arith)
                requires
                    n == (a as nat) * (p as nat),
                    p == 1,
            ;
        }
    }
    let significand = round_half_even_u128(n, 3200);
    assert(significand <= 0x20000000000000 + 1);
    let t = round_half_even_u128(320 * significand, p);
    assert((320 * significand) as int / p as int <= 320 * significand) by {
        vstd::arithmetic::div_mod::lemma_div_is_ordered_by_denominator(320 * significand as int, 1int, p as int);
    }
    t as u64
}

/// Appends the text of a rating of `m` hundredths.
pub(crate) fn push_rating(s: &mut String, m: i64)
    ensures
        final(s)@ == old(s)@ + rating_text(m as int),
{
    let a: u64 = if m < 0 {
        (0i128 - (m as i128)) as u64
    } else {
        m as u64
    };
    let t = f64_tenths_u64(a);
    if m < 0 {
        push_char(s, '-');
    }
    push_nat(s, t / 10);
    push_char(s, '.');
    push_nat(s, t % 10);
    assert(final(s)@ =~= old(s)@ + rating_text(m as int));
}

} // verus!
