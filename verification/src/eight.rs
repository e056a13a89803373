//! Eight-bit floating-point numbers: four bits of exponent, three of fraction.
//!
//! A code stands for a magnitude. Up to code 7 the values are the multiples of 2^-9; above,
//! the codes run through the singles of three fraction bits from 2^-6 to 448.
use vstd::prelude::*;

use crate::single::{
    lemma_two_add, lemma_two_positive, log2, magnitude, nan, nearest, round_nearest, single_of_nat,
    two,
};

verus! {

/// The largest code of a number.
pub const E4M3_MAX: u32 = 126;

/// The bit pattern of the single with the value of the code `c`.
pub open spec fn e4m3_bits(c: int) -> int {
    if c == 0 {
        0
    } else if c < 8 {
        single_of_nat(c as nat) - 9 * 0x80_0000
    } else {
        (c + 960) * 0x10_0000
    }
}

/// The value of a code as the bit pattern of a single; only the low seven bits of `i` count.
pub fn dsv4_e4m3fn_value(i: usize) -> (r: u32)
    ensures
        r == e4m3_bits((i % 128) as int),
{
    let c: u32 = (i % 128) as u32;
    proof {
        lemma_small_bits();
    }
    match c {
        0 => 0,
        1 => 0x3b00_0000,
        2 => 0x3b80_0000,
        3 => 0x3bc0_0000,
        4 => 0x3c00_0000,
        5 => 0x3c20_0000,
        6 => 0x3c40_0000,
        7 => 0x3c60_0000,
        _ => (c + 960) * 0x10_0000,
    }
}

proof fn lemma_small_bits()
    ensures
        e4m3_bits(0) == 0,
        e4m3_bits(1) == 0x3b00_0000,
        e4m3_bits(2) == 0x3b80_0000,
        e4m3_bits(3) == 0x3bc0_0000,
        e4m3_bits(4) == 0x3c00_0000,
        e4m3_bits(5) == 0x3c20_0000,
        e4m3_bits(6) == 0x3c40_0000,
        e4m3_bits(7) == 0x3c60_0000,
{
    reveal_with_fuel(log2, 4);
    reveal_with_fuel(two, 24);
}

/// The code nearest to the magnitude `m` of a single, a tie to the even code. Past the
/// largest number, and for a NaN, it is that number's.
pub open spec fn e4m3_code(m: int) -> int {
    if m >= 0x43e0_0000 {
        E4M3_MAX as int
    } else if m >= 0x3c80_0000 {
        nearest(m, 0x10_0000) - 960
    } else if m >= 0x3a80_0000 {
        nearest(m % 0x80_0000 + 0x80_0000, two((141 - m / 0x80_0000) as nat) as int)
    } else {
        0
    }
}

/// The single that the nearest code stands for, with the sign of `b`. A NaN and a zero
/// have none.
pub open spec fn dequantized(b: u32) -> int {
    let v = e4m3_bits(e4m3_code(magnitude(b)));
    if b > 0x8000_0000 && !nan(b) {
        0x8000_0000 + v
    } else {
        v
    }
}

fn nearest_code(m: u32) -> (c: u32)
    requires
        m < 0x8000_0000,
    ensures
        c == e4m3_code(m as int),
        c <= E4M3_MAX,
{
    if m >= 0x43e0_0000 {
        E4M3_MAX
    } else if m >= 0x3c80_0000 {
        let q: u64 = round_nearest(m as u64, 0x10_0000);
        (q - 960) as u32
    } else if m >= 0x3a80_0000 {
        let e: u32 = m / 0x80_0000;
        let p: u64 = match e {
            117 => 0x100_0000,
            118 => 0x80_0000,
            119 => 0x40_0000,
            _ => 0x20_0000,
        };
        assert(two((141 - e) as nat) == p) by {
            reveal_with_fuel(two, 25);
        }
        round_nearest((m % 0x80_0000) as u64 + 0x80_0000, p) as u32
    } else {
        0
    }
}

/// Takes a single through its nearest code and back.
pub fn dsv4_e4m3fn_dequant(b: u32) -> (r: u32)
    ensures
        r == dequantized(b),
{
    let m: u32 = b % 0x8000_0000;
    let c: u32 = nearest_code(m);
    let v: u32 = dsv4_e4m3fn_value(c as usize);
    proof {
        lemma_small_bits();
    }
    if b > 0x8000_0000 && m <= 0x7f80_0000 {
        0x8000_0000 + v
    } else {
        v
    }
}

// ── What rounding keeps ──────────────────────────────────────────────────

/// The value of a finite magnitude, in units of the smallest single.
pub open spec fn units(m: int) -> int {
    let e = m / 0x80_0000;
    if e == 0 {
        m
    } else {
        (m % 0x80_0000 + 0x80_0000) * two((e - 1) as nat)
    }
}

/// How far apart two values are.
pub open spec fn distance(a: int, b: int) -> int {
    if a < b {
        b - a
    } else {
        a - b
    }
}

/// A number that a code stands for comes back as it is.
pub proof fn e4m3_numbers_are_kept(c: int)
    requires
        0 <= c <= E4M3_MAX,
    ensures
        e4m3_code(e4m3_bits(c)) == c,
{
    lemma_small_bits();
    lemma_steps();
    let b = e4m3_bits(c);
    if c == 0 {
    } else if c < 8 {
        let e = b / 0x80_0000;
        assert(e == if c == 1 {
            118
        } else if c < 4 {
            119
        } else {
            120int
        });
        lemma_nearest_exact(c, two((141 - e) as nat) as int);
    } else {
        lemma_nearest_exact(c + 960, 0x10_0000);
    }
}

proof fn lemma_nearest_exact(q: int, p: int)
    requires
        p > 0,
    ensures
        nearest(q * p, p) == q,
{
    assert(q * p / p == q && q * p % p == 0) by (nonlinear_arith)
        requires
            p > 0,
    ;
}

proof fn lemma_steps()
    ensures
        two(21) == 0x20_0000,
        two(22) == 0x40_0000,
        two(23) == 0x80_0000,
        two(24) == 0x100_0000,
{
    reveal_with_fuel(two, 25);
}

/// The code that a finite number is rounded to is a nearest one: no code stands for a
/// number that is closer.
pub proof fn e4m3_code_is_nearest(m: int, d: int)
    requires
        0 <= m < 0x7f80_0000,
        0 <= d <= E4M3_MAX,
    ensures
        0 <= e4m3_code(m) <= E4M3_MAX,
        distance(units(m), units(e4m3_bits(e4m3_code(m)))) <= distance(
            units(m),
            units(e4m3_bits(d)),
        ),
{
    lemma_small_bits();
    let c = e4m3_code(m);
    if m >= 0x43e0_0000 {
        lemma_bits_ascend(d, E4M3_MAX as int);
        lemma_units_ascend(e4m3_bits(d), 0x43e0_0000);
        lemma_units_ascend(0x43e0_0000, m);
    } else if m >= 0x3c80_0000 {
        lemma_nearest_upper(m, d);
    } else {
        lemma_nearest_lower(m, d);
    }
}

/// No multiple of `p` is closer to `x` than the nearest one.
proof fn lemma_nearest_least(x: int, p: int, k: int)
    requires
        p > 0,
    ensures
        distance(x, nearest(x, p) * p) <= distance(x, k * p),
        distance(x, nearest(x, p) * p) * 2 <= p,
{
    let q = x / p;
    let r = x % p;
    assert(x == q * p + r && 0 <= r < p) by (nonlinear_arith)
        requires
            q == x / p,
            r == x % p,
            p > 0,
    ;
    assert((q + 1) * p == q * p + p) by (nonlinear_arith);
    if k <= q {
        assert(k * p <= q * p) by (nonlinear_arith)
            requires
                k <= q,
                p > 0,
        ;
    } else {
        assert(k * p >= (q + 1) * p) by (nonlinear_arith)
            requires
                k >= q + 1,
                p > 0,
        ;
    }
}

proof fn lemma_bits_ascend(a: int, b: int)
    requires
        0 <= a <= b <= E4M3_MAX,
    ensures
        0 <= e4m3_bits(a) <= e4m3_bits(b) <= 0x43e0_0000,
{
    lemma_small_bits();
}

/// Within one exponent, and up to the next, the values grow evenly.
proof fn lemma_units_even(e: int, m: int)
    requires
        e >= 1,
        e * 0x80_0000 <= m <= (e + 1) * 0x80_0000,
    ensures
        units(m) == (m - (e - 1) * 0x80_0000) * two((e - 1) as nat),
{
    if m == (e + 1) * 0x80_0000 {
        assert(m / 0x80_0000 == e + 1 && m % 0x80_0000 == 0);
        assert(two(e as nat) == 2 * two((e - 1) as nat));
        let t = two((e - 1) as nat) as int;
        assert(0x80_0000 * (2 * t) == 0x100_0000 * t) by (nonlinear_arith);
    } else {
        assert(m / 0x80_0000 == e && m % 0x80_0000 == m - e * 0x80_0000);
    }
}

proof fn lemma_units_ascend(a: int, b: int)
    requires
        0 <= a <= b,
    ensures
        0 <= units(a) <= units(b),
    decreases b / 0x80_0000,
{
    let e = b / 0x80_0000;
    if e == 0 {
        assert(a / 0x80_0000 == 0);
    } else {
        let t = two((e - 1) as nat) as int;
        lemma_two_positive((e - 1) as nat);
        lemma_units_even(e, b);
        let start = e * 0x80_0000;
        lemma_units_even(e, start);
        if a >= start {
            lemma_units_even(e, a);
            assert(0 <= (a - (e - 1) * 0x80_0000) * t <= (b - (e - 1) * 0x80_0000) * t)
                by (nonlinear_arith)
                requires
                    t >= 1,
                    0 <= a - (e - 1) * 0x80_0000 <= b - (e - 1) * 0x80_0000,
            ;
        } else {
            assert((start - (e - 1) * 0x80_0000) * t <= (b - (e - 1) * 0x80_0000) * t)
                by (nonlinear_arith)
                requires
                    t >= 1,
                    start <= b,
            ;
            let before = start - 1;
            assert(before / 0x80_0000 == e - 1);
            lemma_units_ascend(a, before);
            if e == 1 {
                assert(two(0) == 1);
                assert(start * t == start) by (nonlinear_arith)
                    requires
                        t == 1,
                ;
            } else {
                lemma_units_even(e - 1, before);
                lemma_units_even(e - 1, start);
                let s = two((e - 2) as nat) as int;
                lemma_two_positive((e - 2) as nat);
                assert((before - (e - 2) * 0x80_0000) * s <= (start - (e - 2) * 0x80_0000) * s)
                    by (nonlinear_arith)
                    requires
                        s >= 1,
                        before <= start,
                ;
            }
        }
    }
}

/// Codes that stand for singles of three fraction bits.
proof fn lemma_nearest_upper(m: int, d: int)
    requires
        0x3c80_0000 <= m < 0x43e0_0000,
        0 <= d <= E4M3_MAX,
    ensures
        0 <= e4m3_code(m) <= E4M3_MAX,
        distance(units(m), units(e4m3_bits(e4m3_code(m)))) <= distance(
            units(m),
            units(e4m3_bits(d)),
        ),
{
    lemma_small_bits();
    let lo = m / 0x10_0000 - 960;
    let c = e4m3_code(m);
    let a = e4m3_bits(lo);
    let z = e4m3_bits(lo + 1);
    let e = m / 0x80_0000;
    let t = two((e - 1) as nat) as int;
    lemma_two_positive((e - 1) as nat);
    lemma_nearest_least(m, 0x10_0000, lo + 960);
    lemma_nearest_least(m, 0x10_0000, lo + 961);
    assert(c == lo || c == lo + 1);
    lemma_units_even(e, m);
    lemma_units_even(e, a);
    lemma_units_even(e, z);
    let base = (e - 1) * 0x80_0000;
    lemma_scaled(m - base, a - base, t);
    lemma_scaled(m - base, z - base, t);
    lemma_less_scaled(distance(m, e4m3_bits(c)), distance(m, a), t);
    lemma_less_scaled(distance(m, e4m3_bits(c)), distance(m, z), t);
    if d <= lo {
        lemma_bits_ascend(d, lo);
        lemma_units_ascend(e4m3_bits(d), a);
        lemma_units_ascend(a, m);
    } else {
        lemma_bits_ascend(lo + 1, d);
        lemma_units_ascend(z, e4m3_bits(d));
        lemma_units_ascend(m, z);
    }
}

proof fn lemma_scaled(x: int, y: int, t: int)
    requires
        t >= 1,
    ensures
        distance(x * t, y * t) == distance(x, y) * t,
{
    assert(x * t - y * t == (x - y) * t) by (nonlinear_arith);
    assert(y * t - x * t == (y - x) * t) by (nonlinear_arith);
    assert(x < y ==> x * t < y * t) by (nonlinear_arith)
        requires
            t >= 1,
    ;
    assert(x >= y ==> x * t >= y * t) by (nonlinear_arith)
        requires
            t >= 1,
    ;
}

proof fn lemma_less_scaled(x: int, y: int, t: int)
    requires
        x <= y,
        t >= 1,
    ensures
        x * t <= y * t,
{
    assert(x * t <= y * t) by (nonlinear_arith)
        requires
            x <= y,
            t >= 1,
    ;
}

/// The values of the codes up to 8 are the multiples of one step.
proof fn lemma_lower_units(c: int)
    requires
        0 <= c <= 8,
    ensures
        units(e4m3_bits(c)) == c * two(140),
{
    lemma_small_bits();
    lemma_steps();
    let t = two(117) as int;
    lemma_two_add(117, 23);
    assert(two(118) == 2 * two(117));
    assert(two(119) == 2 * two(118));
    assert(two(120) == 2 * two(119));
    assert(two(140) == t * 0x80_0000);
    let b = e4m3_bits(c);
    if c == 0 {
    } else if c == 1 {
        assert(b / 0x80_0000 == 118 && b % 0x80_0000 == 0);
    } else if c < 4 {
        assert(b / 0x80_0000 == 119 && b % 0x80_0000 == (c - 2) * 0x40_0000);
        assert(((c - 2) * 0x40_0000 + 0x80_0000) * (2 * t) == c * (t * 0x80_0000))
            by (nonlinear_arith);
    } else if c < 8 {
        assert(b / 0x80_0000 == 120 && b % 0x80_0000 == (c - 4) * 0x20_0000);
        assert(((c - 4) * 0x20_0000 + 0x80_0000) * (4 * t) == c * (t * 0x80_0000))
            by (nonlinear_arith);
    } else {
        assert(b / 0x80_0000 == 121 && b % 0x80_0000 == 0);
        assert(0x80_0000 * (8 * t) == c * (t * 0x80_0000)) by (nonlinear_arith)
            requires
                c == 8,
        ;
    }
}

/// Codes that stand for multiples of 2^-9.
proof fn lemma_nearest_lower(m: int, d: int)
    requires
        0 <= m < 0x3c80_0000,
        0 <= d <= E4M3_MAX,
    ensures
        0 <= e4m3_code(m) <= E4M3_MAX,
        distance(units(m), units(e4m3_bits(e4m3_code(m)))) <= distance(
            units(m),
            units(e4m3_bits(d)),
        ),
{
    lemma_small_bits();
    let c = e4m3_code(m);
    let step = two(140) as int;
    lemma_two_positive(140);
    lemma_units_ascend(m, 0x3c80_0000);
    lemma_lower_units(8);
    if m >= 0x3a80_0000 {
        let e = m / 0x80_0000;
        let x = m % 0x80_0000 + 0x80_0000;
        let p = two((141 - e) as nat) as int;
        let t = two((e - 1) as nat) as int;
        lemma_two_positive((141 - e) as nat);
        lemma_two_positive((e - 1) as nat);
        lemma_two_add((141 - e) as nat, (e - 1) as nat);
        assert(p * t == step);
        assert(units(m) == x * t);
        lemma_steps();
        assert(e == 117 || e == 118 || e == 119 || e == 120);
        assert(0 <= c <= 8);
        lemma_lower_units(c);
        lemma_scaled(x, c * p, t);
        assert(c * p * t == c * step) by (nonlinear_arith)
            requires
                p * t == step,
        ;
        let k = if d <= 8 {
            d
        } else {
            8
        };
        lemma_lower_units(k);
        lemma_nearest_least(x, p, k);
        lemma_scaled(x, k * p, t);
        assert(k * p * t == k * step) by (nonlinear_arith)
            requires
                p * t == step,
        ;
        lemma_less_scaled(distance(x, c * p), distance(x, k * p), t);
    } else {
        lemma_units_ascend(m, 0x3a80_0000);
        assert(2 * units(0x3a80_0000) == step) by {
            lemma_steps();
            lemma_two_add(116, 24);
            let h: int = 0x3a80_0000;
            assert(h / 0x80_0000 == 117 && h % 0x80_0000 == 0);
            let t = two(116) as int;
            assert(2 * (0x80_0000 * t) == t * 0x100_0000) by (nonlinear_arith);
        }
        lemma_lower_units(0);
        if d >= 1 {
            lemma_lower_units(1);
            lemma_bits_ascend(1, d);
            lemma_units_ascend(e4m3_bits(1), e4m3_bits(d));
        }
    }
    if d > 8 {
        lemma_bits_ascend(8, d);
        lemma_units_ascend(e4m3_bits(8), e4m3_bits(d));
    }
}

} // verus!
