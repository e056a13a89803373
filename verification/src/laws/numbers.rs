//! What numbers as bit patterns are held to.
use vstd::prelude::*;

use crate::eight::{dequantized, e4m3_bits, e4m3_code};
use crate::json::{double_floor, JsonView};
use crate::report::{double_step, nearest_double};
use crate::sampling::unit_single;
use crate::single::{
    finite, greater, half_of_single, key, lemma_two_add, lemma_two_positive, log2, nan, nearest,
    single_of_double, single_of_half, single_of_int, single_of_nat, two,
};

verus! {

/// The value of a finite pattern without its sign, in units of the smallest single.
pub open spec fn value(m: int) -> int {
    let e = m / 0x80_0000;
    if e == 0 {
        m
    } else {
        (m % 0x80_0000 + 0x80_0000) * two((e - 1) as nat)
    }
}

/// The value of a finite half without its sign, in units of the smallest half.
pub open spec fn half_value(m: int) -> int {
    let e = m / 0x400;
    if e == 0 {
        m
    } else {
        (m % 0x400 + 0x400) * two((e - 1) as nat)
    }
}

/// The value of a code of eight bits without its sign, in units of the smallest one.
pub open spec fn code_value(c: int) -> int {
    let e = c / 8;
    if e == 0 {
        c
    } else {
        (c % 8 + 8) * two((e - 1) as nat)
    }
}

/// Of two numbers the greater one has the greater bits where none is below zero, and the
/// smaller ones where both are; a NaN is neither greater nor smaller than any number.
pub proof fn order_of_singles(a: u32, b: u32)
    ensures
        a <= 0x7f80_0000 && b <= 0x7f80_0000 ==> (greater(a, b) <==> a > b),
        0x8000_0000 <= a <= 0xff80_0000 && 0x8000_0000 <= b <= 0xff80_0000 ==> (greater(a, b)
            <==> a < b),
        a <= 0x7f80_0000 && 0x8000_0000 < b <= 0xff80_0000 ==> greater(a, b),
        0x8000_0000 <= a <= 0xff80_0000 && b <= 0x7f80_0000 ==> !greater(a, b),
        greater(a, b) ==> !greater(b, a),
        0x7f80_0000 < a < 0x8000_0000 || a > 0xff80_0000 ==> nan(a) && !greater(a, b) && !greater(
            b,
            a,
        ),
        finite(a) <==> a < 0x7f80_0000 || 0x8000_0000 <= a < 0xff80_0000,
        !nan(a) && !nan(b) ==> (key(a) > key(b) <==> greater(a, b)),
{
}

/// Rounding takes the nearest integer, and of two equally near the even one.
pub proof fn rounding_is_to_nearest(x: int, p: int, k: int)
    requires
        x >= 0,
        p > 0,
    ensures
        ({
            let q = nearest(x, p);
            &&& -p <= 2 * (x - q * p) <= p
            &&& 2 * (x - q * p) == p || 2 * (x - q * p) == -p ==> q % 2 == 0
            &&& -p < 2 * (x - k * p) < p ==> q == k
        }),
{
    let q = x / p;
    let r = x % p;
    let n = nearest(x, p);
    assert(x == q * p + r && 0 <= r < p && q >= 0) by (nonlinear_arith)
        requires
            p > 0,
            x >= 0,
            q == x / p,
            r == x % p,
    ;
    assert((q + 1) * p == q * p + p) by (nonlinear_arith);
    if -p < 2 * (x - k * p) < p {
        assert(n == k) by (nonlinear_arith)
            requires
                p > 0,
                -p < 2 * (x - k * p),
                2 * (x - k * p) < p,
                -p <= 2 * (x - n * p),
                2 * (x - n * p) <= p,
        {
            assert((k - n) * p < p);
            assert((n - k) * p < p);
        }
    }
}

proof fn lemma_bounds(n: nat)
    requires
        n >= 1,
    ensures
        two(log2(n)) <= n < 2 * two(log2(n)),
    decreases n,
{
    if n > 1 {
        lemma_bounds(n / 2);
        assert(log2(n) == 1 + log2(n / 2));
        assert(two(log2(n)) == 2 * two(log2(n / 2)));
    }
}

/// A natural number that fits in 24 bits is the value of its single; its negative differs
/// in the sign alone.
pub proof fn small_integers_are_exact(n: nat)
    requires
        1 <= n < 0x100_0000,
    ensures
        value(single_of_nat(n)) == n * two(149),
        0 < single_of_nat(n) < 0x7f80_0000,
        single_of_int(-(n as int)) == 0x8000_0000 + single_of_nat(n),
        single_of_int(n as int) == single_of_nat(n),
        single_of_nat(0) == 0,
{
    lemma_small_single(n);
    let e = log2(n);
    let s = n as int * two((23 - e) as nat);
    let b = single_of_nat(n);
    assert(b / 0x80_0000 == 127 + e && b % 0x80_0000 + 0x80_0000 == s);
    lemma_two_add((23 - e) as nat, (126 + e) as nat);
    assert(s * two((126 + e) as nat) == n as int * (two((23 - e) as nat) * two((126 + e) as nat)))
        by (nonlinear_arith)
        requires
            s == n as int * two((23 - e) as nat),
    ;
}

proof fn lemma_small_single(n: nat)
    requires
        1 <= n < 0x100_0000,
    ensures
        log2(n) <= 23,
        ({
            let e = log2(n);
            let s = n as int * two((23 - e) as nat);
            &&& 0x80_0000 <= s < 0x100_0000
            &&& single_of_nat(n) == (126 + e) * 0x80_0000 + s
            &&& single_of_nat(n) / 0x80_0000 == 127 + e
            &&& single_of_nat(n) % 0x80_0000 == s - 0x80_0000
        }),
{
    let e = log2(n);
    lemma_bounds(n);
    assert(two(23) == 0x80_0000) by {
        reveal_with_fuel(two, 24);
    }
    if e > 23 {
        lemma_two_add(24, (e - 24) as nat);
        lemma_two_positive((e - 24) as nat);
        assert(two(24) == 2 * two(23));
        assert(two(e) >= 0x100_0000) by (nonlinear_arith)
            requires
                two(e) == two(24) * two((e - 24) as nat),
                two(24) == 0x100_0000,
                two((e - 24) as nat) >= 1,
        ;
    }
    lemma_two_add(e, (23 - e) as nat);
    let t = two((23 - e) as nat);
    lemma_two_positive((23 - e) as nat);
    assert(0x80_0000 <= n as int * t < 0x100_0000) by (nonlinear_arith)
        requires
            two(e) * t == 0x80_0000,
            two(e) <= n < 2 * two(e),
            t >= 1,
    ;
}

/// A half has the value of its single, and its sign.
pub proof fn halves_have_the_value_of_their_singles(h: u16)
    requires
        h % 0x8000 < 0x7c00,
    ensures
        ({
            let m = h as int % 0x8000;
            let b = single_of_half(h);
            &&& h < 0x8000 ==> 0 <= b < 0x7f80_0000 && value(b) == half_value(m) * two(125)
            &&& h >= 0x8000 ==> 0x8000_0000 <= b < 0xff80_0000 && value(b - 0x8000_0000)
                == half_value(m) * two(125)
        }),
{
    let m = h as int % 0x8000;
    let e = (h as int / 0x400) % 0x20;
    let f = h as int % 0x400;
    assert(m / 0x400 == e && m % 0x400 == f);
    let b = if h < 0x8000 {
        single_of_half(h)
    } else {
        single_of_half(h) - 0x8000_0000
    };
    if e == 0 {
        if f > 0 {
            lemma_small_single(f as nat);
            let l = log2(f as nat);
            let s = f * two((23 - l) as nat);
            lemma_log_small(f as nat);
            assert(b == (102 + l) * 0x80_0000 + s);
            assert(b / 0x80_0000 == 103 + l && b % 0x80_0000 + 0x80_0000 == s);
            lemma_two_add((23 - l) as nat, (102 + l) as nat);
            assert(s * two((102 + l) as nat) == f * (two((23 - l) as nat) * two((102 + l) as nat)))
                by (nonlinear_arith)
                requires
                    s == f * two((23 - l) as nat),
            ;
        } else {
            assert(0 * two(125) == 0) by (nonlinear_arith);
        }
    } else {
        assert(b == (e + 112) * 0x80_0000 + f * 0x2000);
        assert(b / 0x80_0000 == e + 112 && b % 0x80_0000 == f * 0x2000);
        assert(two(13) == 0x2000) by {
            reveal_with_fuel(two, 14);
        }
        lemma_two_add(13, (e + 111) as nat);
        lemma_two_add((e - 1) as nat, 125);
        let g = f + 0x400;
        assert((g * 0x2000) * two((e + 111) as nat) == g * (0x2000 * two((e + 111) as nat)))
            by (nonlinear_arith);
        assert((g * two((e - 1) as nat)) * two(125) == g * (two((e - 1) as nat) * two(125)))
            by (nonlinear_arith);
    }
}

proof fn lemma_log_small(n: nat)
    requires
        1 <= n < 0x400,
    ensures
        log2(n) <= 9,
{
    reveal_with_fuel(log2, 11);
}

/// A single in the range of the halves is rounded to a nearest one: the fraction to a
/// multiple of the step of a half.
pub proof fn singles_round_to_a_nearest_half(b: u32)
    requires
        0x3880_0000 <= b < 0x4780_0000,
    ensures
        ({
            let h = half_of_single(b);
            let k = h - (b as int / 0x80_0000 - 112) * 0x400;
            let m = b as int % 0x80_0000;
            &&& -0x2000 <= 2 * (m - k * 0x2000) <= 0x2000
            &&& 0 <= k <= 0x400
            &&& half_of_single((b + 0x8000_0000) as u32) == h + 0x8000
        }),
{
    let m = b as int % 0x80_0000;
    rounding_is_to_nearest(m, 0x2000, 0);
    let c = (b + 0x8000_0000) as u32;
    assert((c as int / 0x80_0000) % 0x100 == b as int / 0x80_0000);
    assert(c as int % 0x80_0000 == m);
}

/// Numbers too large for a half become infinite, and those too small become zero.
pub proof fn halves_have_a_range(b: u32)
    ensures
        0x4780_0000 <= b <= 0x7f80_0000 ==> half_of_single(b) == 0x7c00,
        b < 0x3300_0000 ==> half_of_single(b) == 0,
        0x7f80_0000 < b < 0x8000_0000 ==> half_of_single(b) == 0x7e00,
{
}

/// A code of eight bits has the value of its single.
pub proof fn codes_have_the_value_of_their_singles(c: int)
    requires
        0 <= c <= 126,
    ensures
        value(e4m3_bits(c)) == code_value(c) * two(140),
{
    let b = e4m3_bits(c);
    if c == 0 {
        assert(0 * two(140) == 0) by (nonlinear_arith);
    } else if c < 8 {
        lemma_small_single(c as nat);
        let l = log2(c as nat);
        lemma_log_small(c as nat);
        let s = c * two((23 - l) as nat);
        assert(b == (117 + l) * 0x80_0000 + s);
        assert(b / 0x80_0000 == 118 + l && b % 0x80_0000 + 0x80_0000 == s);
        lemma_two_add((23 - l) as nat, (117 + l) as nat);
        assert(s * two((117 + l) as nat) == c * (two((23 - l) as nat) * two((117 + l) as nat)))
            by (nonlinear_arith)
            requires
                s == c * two((23 - l) as nat),
        ;
    } else {
        let e = c / 8;
        let g = c % 8 + 8;
        assert(b / 0x80_0000 == e + 120 && b % 0x80_0000 == (c % 8) * 0x10_0000);
        assert(two(20) == 0x10_0000) by {
            reveal_with_fuel(two, 21);
        }
        lemma_two_add(20, (e + 119) as nat);
        lemma_two_add((e - 1) as nat, 140);
        assert((g * 0x10_0000) * two((e + 119) as nat) == g * (0x10_0000 * two((e + 119) as nat)))
            by (nonlinear_arith);
        assert((g * two((e - 1) as nat)) * two(140) == g * (two((e - 1) as nat) * two(140)))
            by (nonlinear_arith);
    }
}

/// A number that is taken through its code keeps its sign, and its bits depend on the
/// number without it.
pub proof fn codes_keep_the_sign(b: u32)
    requires
        0 < b <= 0x7f80_0000,
    ensures
        dequantized(b) == e4m3_bits(e4m3_code(b as int)),
        dequantized((b + 0x8000_0000) as u32) == 0x8000_0000 + dequantized(b),
        b >= 0x43e0_0000 ==> dequantized(b) == 0x43e0_0000,
{
}

/// A double whose value is a single keeps its sign, its exponent and its fraction; the
/// exponents are counted from 1023 in a double and from 127 in a single. Other doubles in
/// the range are rounded to a nearest single.
pub proof fn doubles_keep_their_value(sign: bool, e: int, m: int)
    requires
        -126 <= e <= 127,
        0 <= m < 0x10_0000_0000_0000,
    ensures
        ({
            let s = if sign {
                1int
            } else {
                0
            };
            let d = s * 0x8000_0000_0000_0000 + (e + 1023) * 0x10_0000_0000_0000 + m;
            let b = single_of_double(d as u64) - s * 0x8000_0000;
            let k = b - (e + 127) * 0x80_0000;
            &&& -0x2000_0000 <= 2 * (m - k * 0x2000_0000) <= 0x2000_0000
            &&& m % 0x2000_0000 == 0 ==> k == m / 0x2000_0000
        }),
{
    let s = if sign {
        1int
    } else {
        0
    };
    let d = s * 0x8000_0000_0000_0000 + (e + 1023) * 0x10_0000_0000_0000 + m;
    assert(0 <= d <= u64::MAX);
    assert((d / 0x10_0000_0000_0000) % 0x800 == e + 1023);
    assert(d % 0x10_0000_0000_0000 == m);
    rounding_is_to_nearest(0x10_0000_0000_0000 + m, 0x2000_0000, 0x80_0000 + m / 0x2000_0000);
}

/// Infinite doubles are infinite singles, and doubles too small are zero.
pub proof fn doubles_have_a_range(d: u64)
    ensures
        d == 0x7ff0_0000_0000_0000 ==> single_of_double(d) == 0x7f80_0000,
        d == 0xfff0_0000_0000_0000 ==> single_of_double(d) == 0xff80_0000,
        0x47f0_0000_0000_0000 <= d < 0x7ff0_0000_0000_0000 ==> single_of_double(d) == 0x7f80_0000,
        d < 0x3690_0000_0000_0000 ==> single_of_double(d) == 0,
{
}

proof fn lemma_exact_double(n: nat)
    requires
        n < 0x20_0000_0000_0000,
    ensures
        nearest_double(n) == n,
{
    assert(double_step(n) == 1);
    assert(nearest(n as int, 1) == n);
}

/// A number in JSON is read as a single of its value where it is a small integer, and as a
/// natural number where it is one.
pub proof fn json_numbers_are_read(n: u64, m: i64, d: u64)
    ensures
        1 <= n < 0x100_0000 ==> {
            &&& JsonView::Unsigned(n).as_single() matches Some(b)
            &&& value(b as int) == n * two(149)
        },
        -0x100_0000 < m < 0 ==> {
            &&& JsonView::Negative(m).as_single() matches Some(b)
            &&& b >= 0x8000_0000 && value(b - 0x8000_0000) == (-m) * two(149)
        },
        JsonView::Double(d).as_single() == Some(single_of_double(d) as u32),
        JsonView::Unsigned(0).as_single() == Some(0u32),
        n < 0x20_0000_0000_0000 ==> JsonView::Unsigned(n).as_natural() == Some(n),
        JsonView::Negative(m).as_natural() == Some(0u64),
        JsonView::Null.as_natural() is None && JsonView::Null.as_single() is None,
{
    lemma_exact_double(0);
    if n < 0x20_0000_0000_0000 {
        lemma_exact_double(n as nat);
    }
    if 1 <= n < 0x100_0000 {
        small_integers_are_exact(n as nat);
    }
    if -0x100_0000 < m < 0 {
        let k = (-m) as nat;
        lemma_exact_double(k);
        small_integers_are_exact(k);
    }
}

/// The integer part of a double from one up is the largest integer not above it.
pub proof fn doubles_are_cut_to_integers(e: int, m: int)
    requires
        0 <= e < 52,
        0 <= m < 0x10_0000_0000_0000,
    ensures
        ({
            let d = ((e + 1023) * 0x10_0000_0000_0000 + m) as u64;
            let n = double_floor(d) as int;
            let step = two((52 - e) as nat) as int;
            n * step <= 0x10_0000_0000_0000 + m < (n + 1) * step
        }),
        double_floor(0) == 0,
{
    let d = (e + 1023) * 0x10_0000_0000_0000 + m;
    assert((d / 0x10_0000_0000_0000) % 0x800 == e + 1023);
    assert(d % 0x10_0000_0000_0000 == m);
    let x = 0x10_0000_0000_0000 + m;
    let step = two((52 - e) as nat) as int;
    lemma_two_positive((52 - e) as nat);
    let n = x / step;
    assert(n * step <= x < (n + 1) * step && 0 <= n <= x) by (nonlinear_arith)
        requires
            step >= 1,
            x >= 0,
            n == x / step,
    ;
}

/// A random number makes a single from zero up and below one: its highest 24 bits over two
/// to the power of 24.
pub proof fn random_singles_lie_below_one(x: u64)
    ensures
        0 <= unit_single(x) < 0x3f80_0000,
        value(unit_single(x)) == (x / 0x100_0000_0000) * two(125),
{
    let m = x as nat / 0x100_0000_0000;
    if m == 0 {
        assert(0 * two(125) == 0) by (nonlinear_arith);
    } else {
        lemma_small_single(m);
        let l = log2(m);
        let s = m as int * two((23 - l) as nat);
        let b = unit_single(x);
        assert(b == (102 + l) * 0x80_0000 + s);
        assert(b / 0x80_0000 == 103 + l && b % 0x80_0000 + 0x80_0000 == s);
        lemma_two_add((23 - l) as nat, (102 + l) as nat);
        assert(s * two((102 + l) as nat) == m as int * (two((23 - l) as nat) * two(
            (102 + l) as nat,
        ))) by (nonlinear_arith)
            requires
                s == m as int * two((23 - l) as nat),
        ;
    }
}

/// Zero is the positive zero, and an integer keeps its sign.
pub proof fn integers_keep_their_sign(n: nat)
    requires
        0 < n <= 0x8000_0000,
    ensures
        single_of_int(0) == single_of_nat(0),
        single_of_int(n as int) == single_of_nat(n),
        single_of_int(-(n as int)) == 0x8000_0000 + single_of_nat(n),
{
}

} // verus!
